//! A small stylesheet engine. It reads a CSS-like source that holds style
//! rules and `variables` blocks, resolves the variables under a list of
//! system classes, compiles the rules, and computes the properties of an
//! element by applying every rule that matches it, in the order of the
//! document: a later rule overwrites what an earlier one has set, whatever
//! the selectors of the two.
//!
//! ```text
//! variables {
//!   pinky: #F06;
//! }
//! variables.macos {
//!   os-padding: 6;
//! }
//! variables.dark.macos {
//!   dark-margin: 10;
//! }
//!
//! label {
//!   color: var(pinky);
//!   padding: var(os-padding);
//!   margin: var(dark-margin);
//! }
//! ```
//!
//! The system classes serve to resolve the variables, and nothing else.

pub mod color;
pub mod declarations;
pub mod document;
pub mod element;
pub mod error;
pub mod parser;
pub mod properties;
pub mod rules;
pub mod scalar;
pub mod selector;
pub mod text;
pub mod values;
pub mod variables;

pub use color::Color;
pub use declarations::{Declaration, Diagnostic};
pub use element::{ComputedElement, Element};
pub use error::ValueError;
pub use parser::{parse_css, StyleRule};
pub use properties::{ComputedProperties, OptionalProperties, Property};
pub use rules::{Rule, Rules};
pub use scalar::Scalar;
pub use simplecss::{AttributeOperator, PseudoClass};
pub use values::{Align, FontFamily, Radius, Sides};
pub use variables::VariableMap;
