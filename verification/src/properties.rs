//! The property schema: the properties that an element has, the type and
//! the default of each, the bag of all of them and the sparse bag that one
//! rule sets.

use crate::color::{invalid_color, Color, ColorView};
use crate::scalar::Scalar;
use crate::values::{Align, FontFamily, Radius, RadiusView, Sides, SidesView};
use vstd::prelude::*;

verus! {

/// The properties, in the order of the schema.
#[derive(Clone, Copy, Debug, PartialEq, Eq, Structural)]
pub enum Property {
    FontSize,
    FontFamily,
    Color,
    Background,
    Italics,
    UnderlineWidth,
    UnderlineColor,
    StrikethroughWidth,
    StrikethroughColor,
    Align,
    CrossAlign,
    Padding,
    Margin,
    Radius,
    Height,
    Width,
    MinWidth,
    MaxWidth,
    MinHeight,
    MaxHeight,
    BorderWidth,
    BorderColor,
    StrokeWidth,
    StrokeColor,
    Expansion,
}

/// What a property holds.
#[derive(Clone, Copy, Debug, PartialEq, Eq, Structural)]
pub enum Kind {
    Number,
    Flag,
    Color,
    Align,
    Font,
    Sides,
    Radius,
}

/// A value of any kind, as contracts see it.
pub enum Value {
    Number(Seq<char>),
    Flag(bool),
    Color(ColorView),
    Align(Align),
    Font(FontFamily),
    Sides(SidesView),
    Radius(RadiusView),
}

impl Property {
    /// The name under which a declaration sets the property.
    pub open spec fn key(self) -> Seq<char> {
        match self {
            Property::FontSize => "font-size"@,
            Property::FontFamily => "font-family"@,
            Property::Color => "color"@,
            Property::Background => "background"@,
            Property::Italics => "italics"@,
            Property::UnderlineWidth => "underline-width"@,
            Property::UnderlineColor => "underline-color"@,
            Property::StrikethroughWidth => "strikethrough-width"@,
            Property::StrikethroughColor => "strikethrough-color"@,
            Property::Align => "align"@,
            Property::CrossAlign => "cross-align"@,
            Property::Padding => "padding"@,
            Property::Margin => "margin"@,
            Property::Radius => "radius"@,
            Property::Height => "height"@,
            Property::Width => "width"@,
            Property::MinWidth => "min-width"@,
            Property::MaxWidth => "max-width"@,
            Property::MinHeight => "min-height"@,
            Property::MaxHeight => "max-height"@,
            Property::BorderWidth => "border-width"@,
            Property::BorderColor => "border-color"@,
            Property::StrokeWidth => "stroke-width"@,
            Property::StrokeColor => "stroke-color"@,
            Property::Expansion => "expansion"@,
        }
    }

    /// The kind of value that the property holds.
    pub open spec fn kind(self) -> Kind {
        match self {
            Property::FontSize => Kind::Number,
            Property::FontFamily => Kind::Font,
            Property::Color => Kind::Color,
            Property::Background => Kind::Color,
            Property::Italics => Kind::Flag,
            Property::UnderlineWidth => Kind::Number,
            Property::UnderlineColor => Kind::Color,
            Property::StrikethroughWidth => Kind::Number,
            Property::StrikethroughColor => Kind::Color,
            Property::Align => Kind::Align,
            Property::CrossAlign => Kind::Align,
            Property::Padding => Kind::Sides,
            Property::Margin => Kind::Sides,
            Property::Radius => Kind::Radius,
            Property::Height => Kind::Number,
            Property::Width => Kind::Number,
            Property::MinWidth => Kind::Number,
            Property::MaxWidth => Kind::Number,
            Property::MinHeight => Kind::Number,
            Property::MaxHeight => Kind::Number,
            Property::BorderWidth => Kind::Number,
            Property::BorderColor => Kind::Color,
            Property::StrokeWidth => Kind::Number,
            Property::StrokeColor => Kind::Color,
            Property::Expansion => Kind::Number,
        }
    }

    /// The place of the property in the schema, from zero.
    pub open spec fn index(self) -> int {
        match self {
            Property::FontSize => 0,
            Property::FontFamily => 1,
            Property::Color => 2,
            Property::Background => 3,
            Property::Italics => 4,
            Property::UnderlineWidth => 5,
            Property::UnderlineColor => 6,
            Property::StrikethroughWidth => 7,
            Property::StrikethroughColor => 8,
            Property::Align => 9,
            Property::CrossAlign => 10,
            Property::Padding => 11,
            Property::Margin => 12,
            Property::Radius => 13,
            Property::Height => 14,
            Property::Width => 15,
            Property::MinWidth => 16,
            Property::MaxWidth => 17,
            Property::MinHeight => 18,
            Property::MaxHeight => 19,
            Property::BorderWidth => 20,
            Property::BorderColor => 21,
            Property::StrokeWidth => 22,
            Property::StrokeColor => 23,
            Property::Expansion => 24,
        }
    }

    /// The name under which a declaration sets the property.
    pub fn name(self) -> (r: &'static str)
        ensures
            r@ == self.key(),
    {
        match self {
            Property::FontSize => "font-size",
            Property::FontFamily => "font-family",
            Property::Color => "color",
            Property::Background => "background",
            Property::Italics => "italics",
            Property::UnderlineWidth => "underline-width",
            Property::UnderlineColor => "underline-color",
            Property::StrikethroughWidth => "strikethrough-width",
            Property::StrikethroughColor => "strikethrough-color",
            Property::Align => "align",
            Property::CrossAlign => "cross-align",
            Property::Padding => "padding",
            Property::Margin => "margin",
            Property::Radius => "radius",
            Property::Height => "height",
            Property::Width => "width",
            Property::MinWidth => "min-width",
            Property::MaxWidth => "max-width",
            Property::MinHeight => "min-height",
            Property::MaxHeight => "max-height",
            Property::BorderWidth => "border-width",
            Property::BorderColor => "border-color",
            Property::StrokeWidth => "stroke-width",
            Property::StrokeColor => "stroke-color",
            Property::Expansion => "expansion",
        }
    }

    /// The property at place `i` of the schema, if the schema has that
    /// many.
    pub fn at(i: usize) -> (p: Option<Property>)
        ensures
            p == (if i < PROPERTY_COUNT {
                Some(property_at(i as int))
            } else {
                None
            }),
    {
        if i == 0 {
            Some(Property::FontSize)
        } else if i == 1 {
            Some(Property::FontFamily)
        } else if i == 2 {
            Some(Property::Color)
        } else if i == 3 {
            Some(Property::Background)
        } else if i == 4 {
            Some(Property::Italics)
        } else if i == 5 {
            Some(Property::UnderlineWidth)
        } else if i == 6 {
            Some(Property::UnderlineColor)
        } else if i == 7 {
            Some(Property::StrikethroughWidth)
        } else if i == 8 {
            Some(Property::StrikethroughColor)
        } else if i == 9 {
            Some(Property::Align)
        } else if i == 10 {
            Some(Property::CrossAlign)
        } else if i == 11 {
            Some(Property::Padding)
        } else if i == 12 {
            Some(Property::Margin)
        } else if i == 13 {
            Some(Property::Radius)
        } else if i == 14 {
            Some(Property::Height)
        } else if i == 15 {
            Some(Property::Width)
        } else if i == 16 {
            Some(Property::MinWidth)
        } else if i == 17 {
            Some(Property::MaxWidth)
        } else if i == 18 {
            Some(Property::MinHeight)
        } else if i == 19 {
            Some(Property::MaxHeight)
        } else if i == 20 {
            Some(Property::BorderWidth)
        } else if i == 21 {
            Some(Property::BorderColor)
        } else if i == 22 {
            Some(Property::StrokeWidth)
        } else if i == 23 {
            Some(Property::StrokeColor)
        } else if i == 24 {
            Some(Property::Expansion)
        } else {
            None
        }
    }
}

/// How many properties the schema has.
pub const PROPERTY_COUNT: usize = 25;

/// The property at place `i` of the schema.
pub open spec fn property_at(i: int) -> Property {
    if i == 0 {
        Property::FontSize
    } else if i == 1 {
        Property::FontFamily
    } else if i == 2 {
        Property::Color
    } else if i == 3 {
        Property::Background
    } else if i == 4 {
        Property::Italics
    } else if i == 5 {
        Property::UnderlineWidth
    } else if i == 6 {
        Property::UnderlineColor
    } else if i == 7 {
        Property::StrikethroughWidth
    } else if i == 8 {
        Property::StrikethroughColor
    } else if i == 9 {
        Property::Align
    } else if i == 10 {
        Property::CrossAlign
    } else if i == 11 {
        Property::Padding
    } else if i == 12 {
        Property::Margin
    } else if i == 13 {
        Property::Radius
    } else if i == 14 {
        Property::Height
    } else if i == 15 {
        Property::Width
    } else if i == 16 {
        Property::MinWidth
    } else if i == 17 {
        Property::MaxWidth
    } else if i == 18 {
        Property::MinHeight
    } else if i == 19 {
        Property::MaxHeight
    } else if i == 20 {
        Property::BorderWidth
    } else if i == 21 {
        Property::BorderColor
    } else if i == 22 {
        Property::StrokeWidth
    } else if i == 23 {
        Property::StrokeColor
    } else {
        Property::Expansion
    }
}

/// Whether a declaration of this name sets a property.
pub open spec fn is_property_name(name: Seq<char>) -> bool {
    exists|p: Property| name == #[trigger] p.key()
}

pub open spec fn zero_sides() -> SidesView {
    SidesView { top: "0"@, left: "0"@, right: "0"@, bottom: "0"@ }
}

pub open spec fn zero_radius() -> RadiusView {
    RadiusView { nw: "0"@, ne: "0"@, sw: "0"@, se: "0"@ }
}

/// The properties of an element: a value for every property of the schema.
#[derive(Debug, PartialEq, Eq)]
pub struct ComputedProperties {
    pub font_size: Scalar,
    pub font_family: FontFamily,
    pub color: Color,
    pub background: Color,
    pub italics: bool,
    pub underline_width: Scalar,
    pub underline_color: Color,
    pub strikethrough_width: Scalar,
    pub strikethrough_color: Color,
    pub align: Align,
    pub cross_align: Align,
    pub padding: Sides,
    pub margin: Sides,
    pub radius: Radius,
    pub height: Scalar,
    pub width: Scalar,
    pub min_width: Scalar,
    pub max_width: Scalar,
    pub min_height: Scalar,
    pub max_height: Scalar,
    pub border_width: Scalar,
    pub border_color: Color,
    pub stroke_width: Scalar,
    pub stroke_color: Color,
    pub expansion: Scalar,
}

/// What one rule sets: a value for the properties it declares, `None` for
/// the others.
#[derive(Debug, PartialEq, Eq)]
pub struct OptionalProperties {
    pub font_size: Option<Scalar>,
    pub font_family: Option<FontFamily>,
    pub color: Option<Color>,
    pub background: Option<Color>,
    pub italics: Option<bool>,
    pub underline_width: Option<Scalar>,
    pub underline_color: Option<Color>,
    pub strikethrough_width: Option<Scalar>,
    pub strikethrough_color: Option<Color>,
    pub align: Option<Align>,
    pub cross_align: Option<Align>,
    pub padding: Option<Sides>,
    pub margin: Option<Sides>,
    pub radius: Option<Radius>,
    pub height: Option<Scalar>,
    pub width: Option<Scalar>,
    pub min_width: Option<Scalar>,
    pub max_width: Option<Scalar>,
    pub min_height: Option<Scalar>,
    pub max_height: Option<Scalar>,
    pub border_width: Option<Scalar>,
    pub border_color: Option<Color>,
    pub stroke_width: Option<Scalar>,
    pub stroke_color: Option<Color>,
    pub expansion: Option<Scalar>,
}

pub struct ComputedPropertiesView {
    pub font_size: Seq<char>,
    pub font_family: FontFamily,
    pub color: ColorView,
    pub background: ColorView,
    pub italics: bool,
    pub underline_width: Seq<char>,
    pub underline_color: ColorView,
    pub strikethrough_width: Seq<char>,
    pub strikethrough_color: ColorView,
    pub align: Align,
    pub cross_align: Align,
    pub padding: SidesView,
    pub margin: SidesView,
    pub radius: RadiusView,
    pub height: Seq<char>,
    pub width: Seq<char>,
    pub min_width: Seq<char>,
    pub max_width: Seq<char>,
    pub min_height: Seq<char>,
    pub max_height: Seq<char>,
    pub border_width: Seq<char>,
    pub border_color: ColorView,
    pub stroke_width: Seq<char>,
    pub stroke_color: ColorView,
    pub expansion: Seq<char>,
}

pub struct OptionalPropertiesView {
    pub font_size: Option<Seq<char>>,
    pub font_family: Option<FontFamily>,
    pub color: Option<ColorView>,
    pub background: Option<ColorView>,
    pub italics: Option<bool>,
    pub underline_width: Option<Seq<char>>,
    pub underline_color: Option<ColorView>,
    pub strikethrough_width: Option<Seq<char>>,
    pub strikethrough_color: Option<ColorView>,
    pub align: Option<Align>,
    pub cross_align: Option<Align>,
    pub padding: Option<SidesView>,
    pub margin: Option<SidesView>,
    pub radius: Option<RadiusView>,
    pub height: Option<Seq<char>>,
    pub width: Option<Seq<char>>,
    pub min_width: Option<Seq<char>>,
    pub max_width: Option<Seq<char>>,
    pub min_height: Option<Seq<char>>,
    pub max_height: Option<Seq<char>>,
    pub border_width: Option<Seq<char>>,
    pub border_color: Option<ColorView>,
    pub stroke_width: Option<Seq<char>>,
    pub stroke_color: Option<ColorView>,
    pub expansion: Option<Seq<char>>,
}

impl View for ComputedProperties {
    type V = ComputedPropertiesView;

    open spec fn view(&self) -> ComputedPropertiesView {
        ComputedPropertiesView {
            font_size: self.font_size@,
            font_family: self.font_family,
            color: self.color@,
            background: self.background@,
            italics: self.italics,
            underline_width: self.underline_width@,
            underline_color: self.underline_color@,
            strikethrough_width: self.strikethrough_width@,
            strikethrough_color: self.strikethrough_color@,
            align: self.align,
            cross_align: self.cross_align,
            padding: self.padding@,
            margin: self.margin@,
            radius: self.radius@,
            height: self.height@,
            width: self.width@,
            min_width: self.min_width@,
            max_width: self.max_width@,
            min_height: self.min_height@,
            max_height: self.max_height@,
            border_width: self.border_width@,
            border_color: self.border_color@,
            stroke_width: self.stroke_width@,
            stroke_color: self.stroke_color@,
            expansion: self.expansion@,
        }
    }
}

impl View for OptionalProperties {
    type V = OptionalPropertiesView;

    open spec fn view(&self) -> OptionalPropertiesView {
        OptionalPropertiesView {
            font_size: slot_view(self.font_size),
            font_family: self.font_family,
            color: slot_view(self.color),
            background: slot_view(self.background),
            italics: self.italics,
            underline_width: slot_view(self.underline_width),
            underline_color: slot_view(self.underline_color),
            strikethrough_width: slot_view(self.strikethrough_width),
            strikethrough_color: slot_view(self.strikethrough_color),
            align: self.align,
            cross_align: self.cross_align,
            padding: slot_view(self.padding),
            margin: slot_view(self.margin),
            radius: slot_view(self.radius),
            height: slot_view(self.height),
            width: slot_view(self.width),
            min_width: slot_view(self.min_width),
            max_width: slot_view(self.max_width),
            min_height: slot_view(self.min_height),
            max_height: slot_view(self.max_height),
            border_width: slot_view(self.border_width),
            border_color: slot_view(self.border_color),
            stroke_width: slot_view(self.stroke_width),
            stroke_color: slot_view(self.stroke_color),
            expansion: slot_view(self.expansion),
        }
    }
}

impl ComputedPropertiesView {
    /// The value of property `p`.
    pub open spec fn get(self, p: Property) -> Value {
        match p {
            Property::FontSize => Value::Number(self.font_size),
            Property::FontFamily => Value::Font(self.font_family),
            Property::Color => Value::Color(self.color),
            Property::Background => Value::Color(self.background),
            Property::Italics => Value::Flag(self.italics),
            Property::UnderlineWidth => Value::Number(self.underline_width),
            Property::UnderlineColor => Value::Color(self.underline_color),
            Property::StrikethroughWidth => Value::Number(self.strikethrough_width),
            Property::StrikethroughColor => Value::Color(self.strikethrough_color),
            Property::Align => Value::Align(self.align),
            Property::CrossAlign => Value::Align(self.cross_align),
            Property::Padding => Value::Sides(self.padding),
            Property::Margin => Value::Sides(self.margin),
            Property::Radius => Value::Radius(self.radius),
            Property::Height => Value::Number(self.height),
            Property::Width => Value::Number(self.width),
            Property::MinWidth => Value::Number(self.min_width),
            Property::MaxWidth => Value::Number(self.max_width),
            Property::MinHeight => Value::Number(self.min_height),
            Property::MaxHeight => Value::Number(self.max_height),
            Property::BorderWidth => Value::Number(self.border_width),
            Property::BorderColor => Value::Color(self.border_color),
            Property::StrokeWidth => Value::Number(self.stroke_width),
            Property::StrokeColor => Value::Color(self.stroke_color),
            Property::Expansion => Value::Number(self.expansion),
        }
    }
}

impl OptionalPropertiesView {
    /// The value of property `p`, where the rule sets it.
    pub open spec fn get(self, p: Property) -> Option<Value> {
        match p {
            Property::FontSize => match self.font_size {
                Some(v) => Some(Value::Number(v)),
                None => None,
            },
            Property::FontFamily => match self.font_family {
                Some(v) => Some(Value::Font(v)),
                None => None,
            },
            Property::Color => match self.color {
                Some(v) => Some(Value::Color(v)),
                None => None,
            },
            Property::Background => match self.background {
                Some(v) => Some(Value::Color(v)),
                None => None,
            },
            Property::Italics => match self.italics {
                Some(v) => Some(Value::Flag(v)),
                None => None,
            },
            Property::UnderlineWidth => match self.underline_width {
                Some(v) => Some(Value::Number(v)),
                None => None,
            },
            Property::UnderlineColor => match self.underline_color {
                Some(v) => Some(Value::Color(v)),
                None => None,
            },
            Property::StrikethroughWidth => match self.strikethrough_width {
                Some(v) => Some(Value::Number(v)),
                None => None,
            },
            Property::StrikethroughColor => match self.strikethrough_color {
                Some(v) => Some(Value::Color(v)),
                None => None,
            },
            Property::Align => match self.align {
                Some(v) => Some(Value::Align(v)),
                None => None,
            },
            Property::CrossAlign => match self.cross_align {
                Some(v) => Some(Value::Align(v)),
                None => None,
            },
            Property::Padding => match self.padding {
                Some(v) => Some(Value::Sides(v)),
                None => None,
            },
            Property::Margin => match self.margin {
                Some(v) => Some(Value::Sides(v)),
                None => None,
            },
            Property::Radius => match self.radius {
                Some(v) => Some(Value::Radius(v)),
                None => None,
            },
            Property::Height => match self.height {
                Some(v) => Some(Value::Number(v)),
                None => None,
            },
            Property::Width => match self.width {
                Some(v) => Some(Value::Number(v)),
                None => None,
            },
            Property::MinWidth => match self.min_width {
                Some(v) => Some(Value::Number(v)),
                None => None,
            },
            Property::MaxWidth => match self.max_width {
                Some(v) => Some(Value::Number(v)),
                None => None,
            },
            Property::MinHeight => match self.min_height {
                Some(v) => Some(Value::Number(v)),
                None => None,
            },
            Property::MaxHeight => match self.max_height {
                Some(v) => Some(Value::Number(v)),
                None => None,
            },
            Property::BorderWidth => match self.border_width {
                Some(v) => Some(Value::Number(v)),
                None => None,
            },
            Property::BorderColor => match self.border_color {
                Some(v) => Some(Value::Color(v)),
                None => None,
            },
            Property::StrokeWidth => match self.stroke_width {
                Some(v) => Some(Value::Number(v)),
                None => None,
            },
            Property::StrokeColor => match self.stroke_color {
                Some(v) => Some(Value::Color(v)),
                None => None,
            },
            Property::Expansion => match self.expansion {
                Some(v) => Some(Value::Number(v)),
                None => None,
            },
        }
    }
}

/// The defaults of the schema.
pub open spec fn default_properties() -> ComputedPropertiesView {
    ComputedPropertiesView {
        font_size: "4"@,
        font_family: FontFamily::Regular,
        color: invalid_color(),
        background: invalid_color(),
        italics: false,
        underline_width: "0"@,
        underline_color: invalid_color(),
        strikethrough_width: "0"@,
        strikethrough_color: invalid_color(),
        align: Align::Min,
        cross_align: Align::Min,
        padding: zero_sides(),
        margin: zero_sides(),
        radius: zero_radius(),
        height: "0"@,
        width: "0"@,
        min_width: "0"@,
        max_width: "inf"@,
        min_height: "0"@,
        max_height: "inf"@,
        border_width: "0"@,
        border_color: invalid_color(),
        stroke_width: "0"@,
        stroke_color: invalid_color(),
        expansion: "0"@,
    }
}

/// The bag of a rule that sets nothing.
pub open spec fn no_properties() -> OptionalPropertiesView {
    OptionalPropertiesView {
        font_size: None,
        font_family: None,
        color: None,
        background: None,
        italics: None,
        underline_width: None,
        underline_color: None,
        strikethrough_width: None,
        strikethrough_color: None,
        align: None,
        cross_align: None,
        padding: None,
        margin: None,
        radius: None,
        height: None,
        width: None,
        min_width: None,
        max_width: None,
        min_height: None,
        max_height: None,
        border_width: None,
        border_color: None,
        stroke_width: None,
        stroke_color: None,
        expansion: None,
    }
}

/// The view of an optional value.
pub open spec fn slot_view<T: View>(slot: Option<T>) -> Option<T::V> {
    match slot {
        Some(v) => Some(v@),
        None => None,
    }
}

/// One slot of a patch: the new value where there is one, else the old.
pub open spec fn prefer<T>(new: Option<T>, old: T) -> T {
    match new {
        Some(v) => v,
        None => old,
    }
}

/// `base` with every property that `over` sets replaced by the value from
/// `over`, and every other property untouched.
pub open spec fn patch(
    base: ComputedPropertiesView,
    over: OptionalPropertiesView,
) -> ComputedPropertiesView {
    ComputedPropertiesView {
        font_size: prefer(over.font_size, base.font_size),
        font_family: prefer(over.font_family, base.font_family),
        color: prefer(over.color, base.color),
        background: prefer(over.background, base.background),
        italics: prefer(over.italics, base.italics),
        underline_width: prefer(over.underline_width, base.underline_width),
        underline_color: prefer(over.underline_color, base.underline_color),
        strikethrough_width: prefer(over.strikethrough_width, base.strikethrough_width),
        strikethrough_color: prefer(over.strikethrough_color, base.strikethrough_color),
        align: prefer(over.align, base.align),
        cross_align: prefer(over.cross_align, base.cross_align),
        padding: prefer(over.padding, base.padding),
        margin: prefer(over.margin, base.margin),
        radius: prefer(over.radius, base.radius),
        height: prefer(over.height, base.height),
        width: prefer(over.width, base.width),
        min_width: prefer(over.min_width, base.min_width),
        max_width: prefer(over.max_width, base.max_width),
        min_height: prefer(over.min_height, base.min_height),
        max_height: prefer(over.max_height, base.max_height),
        border_width: prefer(over.border_width, base.border_width),
        border_color: prefer(over.border_color, base.border_color),
        stroke_width: prefer(over.stroke_width, base.stroke_width),
        stroke_color: prefer(over.stroke_color, base.stroke_color),
        expansion: prefer(over.expansion, base.expansion),
    }
}

/// Property by property, a patch takes the value of `over` where it has one
/// and keeps that of `base` elsewhere.
pub proof fn lemma_patch_get(
    base: ComputedPropertiesView,
    over: OptionalPropertiesView,
    p: Property,
)
    ensures
        patch(base, over).get(p) == prefer(over.get(p), base.get(p)),
{
}

/// A rule that sets nothing changes nothing.
pub proof fn lemma_patch_nothing(base: ComputedPropertiesView)
    ensures
        patch(base, no_properties()) == base,
{
}

/// No two properties have one name.
pub proof fn lemma_keys_distinct(p: Property, q: Property)
    requires
        p != q,
    ensures
        p.key() != q.key(),
{
    reveal_strlit("font-size");
    reveal_strlit("font-family");
    reveal_strlit("color");
    reveal_strlit("background");
    reveal_strlit("italics");
    reveal_strlit("underline-width");
    reveal_strlit("underline-color");
    reveal_strlit("strikethrough-width");
    reveal_strlit("strikethrough-color");
    reveal_strlit("align");
    reveal_strlit("cross-align");
    reveal_strlit("padding");
    reveal_strlit("margin");
    reveal_strlit("radius");
    reveal_strlit("height");
    reveal_strlit("width");
    reveal_strlit("min-width");
    reveal_strlit("max-width");
    reveal_strlit("min-height");
    reveal_strlit("max-height");
    reveal_strlit("border-width");
    reveal_strlit("border-color");
    reveal_strlit("stroke-width");
    reveal_strlit("stroke-color");
    reveal_strlit("expansion");
    let a = p.key();
    let b = q.key();
    if a == b {
        assert(a.len() == b.len());
        assert(a[0] == b[0]);
        assert(a[1] == b[1]);
        assert(a[7] == b[7]);
        assert(a[10] == b[10]);
        assert(a[14] == b[14]);
    }
}

/// The schema lists every property once: `property_at` and `index` are
/// inverse to each other.
pub proof fn lemma_property_index(p: Property)
    ensures
        0 <= p.index() < PROPERTY_COUNT,
        property_at(p.index()) == p,
{
}

fn patch_scalar(slot: &mut Scalar, new: &Option<Scalar>)
    ensures
        final(slot)@ == prefer(slot_view(*new), old(slot)@),
{
    if let Some(v) = new {
        *slot = v.clone();
    }
}

fn clone_scalar(slot: &Option<Scalar>) -> (r: Option<Scalar>)
    ensures
        slot_view(r) == slot_view(*slot),
{
    match slot {
        Some(v) => Some(v.clone()),
        None => None,
    }
}

fn patch_color(slot: &mut Color, new: &Option<Color>)
    ensures
        final(slot)@ == prefer(slot_view(*new), old(slot)@),
{
    if let Some(v) = new {
        *slot = v.clone();
    }
}

fn clone_color(slot: &Option<Color>) -> (r: Option<Color>)
    ensures
        slot_view(r) == slot_view(*slot),
{
    match slot {
        Some(v) => Some(v.clone()),
        None => None,
    }
}

fn patch_sides(slot: &mut Sides, new: &Option<Sides>)
    ensures
        final(slot)@ == prefer(slot_view(*new), old(slot)@),
{
    if let Some(v) = new {
        *slot = v.clone();
    }
}

fn clone_sides(slot: &Option<Sides>) -> (r: Option<Sides>)
    ensures
        slot_view(r) == slot_view(*slot),
{
    match slot {
        Some(v) => Some(v.clone()),
        None => None,
    }
}

fn patch_radius(slot: &mut Radius, new: &Option<Radius>)
    ensures
        final(slot)@ == prefer(slot_view(*new), old(slot)@),
{
    if let Some(v) = new {
        *slot = v.clone();
    }
}

fn clone_radius(slot: &Option<Radius>) -> (r: Option<Radius>)
    ensures
        slot_view(r) == slot_view(*slot),
{
    match slot {
        Some(v) => Some(v.clone()),
        None => None,
    }
}

fn keep<T: Copy>(new: Option<T>, old: T) -> (r: T)
    ensures
        r == prefer(new, old),
{
    match new {
        Some(v) => v,
        None => old,
    }
}

impl Default for ComputedProperties {
    /// The defaults of the schema.
    fn default() -> (r: Self)
        ensures
            r@ == default_properties(),
    {
        ComputedProperties {
            font_size: Scalar::four(),
            font_family: FontFamily::Regular,
            color: Color::invalid(),
            background: Color::invalid(),
            italics: false,
            underline_width: Scalar::zero(),
            underline_color: Color::invalid(),
            strikethrough_width: Scalar::zero(),
            strikethrough_color: Color::invalid(),
            align: Align::Min,
            cross_align: Align::Min,
            padding: Sides::default(),
            margin: Sides::default(),
            radius: Radius::default(),
            height: Scalar::zero(),
            width: Scalar::zero(),
            min_width: Scalar::zero(),
            max_width: Scalar::infinity(),
            min_height: Scalar::zero(),
            max_height: Scalar::infinity(),
            border_width: Scalar::zero(),
            border_color: Color::invalid(),
            stroke_width: Scalar::zero(),
            stroke_color: Color::invalid(),
            expansion: Scalar::zero(),
        }
    }
}

impl Default for OptionalProperties {
    /// The bag that sets nothing.
    fn default() -> (r: Self)
        ensures
            r@ == no_properties(),
    {
        OptionalProperties {
            font_size: None,
            font_family: None,
            color: None,
            background: None,
            italics: None,
            underline_width: None,
            underline_color: None,
            strikethrough_width: None,
            strikethrough_color: None,
            align: None,
            cross_align: None,
            padding: None,
            margin: None,
            radius: None,
            height: None,
            width: None,
            min_width: None,
            max_width: None,
            min_height: None,
            max_height: None,
            border_width: None,
            border_color: None,
            stroke_width: None,
            stroke_color: None,
            expansion: None,
        }
    }
}

impl ComputedProperties {
    /// Overwrites every property that `props` sets, and no other.
    pub fn patch_from(&mut self, props: &OptionalProperties)
        ensures
            final(self)@ == patch(old(self)@, props@),
    {
        patch_scalar(&mut self.font_size, &props.font_size);
        self.font_family = keep(props.font_family, self.font_family);
        patch_color(&mut self.color, &props.color);
        patch_color(&mut self.background, &props.background);
        self.italics = keep(props.italics, self.italics);
        patch_scalar(&mut self.underline_width, &props.underline_width);
        patch_color(&mut self.underline_color, &props.underline_color);
        patch_scalar(&mut self.strikethrough_width, &props.strikethrough_width);
        patch_color(&mut self.strikethrough_color, &props.strikethrough_color);
        self.align = keep(props.align, self.align);
        self.cross_align = keep(props.cross_align, self.cross_align);
        patch_sides(&mut self.padding, &props.padding);
        patch_sides(&mut self.margin, &props.margin);
        patch_radius(&mut self.radius, &props.radius);
        patch_scalar(&mut self.height, &props.height);
        patch_scalar(&mut self.width, &props.width);
        patch_scalar(&mut self.min_width, &props.min_width);
        patch_scalar(&mut self.max_width, &props.max_width);
        patch_scalar(&mut self.min_height, &props.min_height);
        patch_scalar(&mut self.max_height, &props.max_height);
        patch_scalar(&mut self.border_width, &props.border_width);
        patch_color(&mut self.border_color, &props.border_color);
        patch_scalar(&mut self.stroke_width, &props.stroke_width);
        patch_color(&mut self.stroke_color, &props.stroke_color);
        patch_scalar(&mut self.expansion, &props.expansion);
    }
}

impl Clone for ComputedProperties {
    fn clone(&self) -> (r: Self)
        ensures
            r@ == self@,
    {
        ComputedProperties {
            font_size: self.font_size.clone(),
            font_family: self.font_family,
            color: self.color.clone(),
            background: self.background.clone(),
            italics: self.italics,
            underline_width: self.underline_width.clone(),
            underline_color: self.underline_color.clone(),
            strikethrough_width: self.strikethrough_width.clone(),
            strikethrough_color: self.strikethrough_color.clone(),
            align: self.align,
            cross_align: self.cross_align,
            padding: self.padding.clone(),
            margin: self.margin.clone(),
            radius: self.radius.clone(),
            height: self.height.clone(),
            width: self.width.clone(),
            min_width: self.min_width.clone(),
            max_width: self.max_width.clone(),
            min_height: self.min_height.clone(),
            max_height: self.max_height.clone(),
            border_width: self.border_width.clone(),
            border_color: self.border_color.clone(),
            stroke_width: self.stroke_width.clone(),
            stroke_color: self.stroke_color.clone(),
            expansion: self.expansion.clone(),
        }
    }
}

impl Clone for OptionalProperties {
    fn clone(&self) -> (r: Self)
        ensures
            r@ == self@,
    {
        OptionalProperties {
            font_size: clone_scalar(&self.font_size),
            font_family: self.font_family,
            color: clone_color(&self.color),
            background: clone_color(&self.background),
            italics: self.italics,
            underline_width: clone_scalar(&self.underline_width),
            underline_color: clone_color(&self.underline_color),
            strikethrough_width: clone_scalar(&self.strikethrough_width),
            strikethrough_color: clone_color(&self.strikethrough_color),
            align: self.align,
            cross_align: self.cross_align,
            padding: clone_sides(&self.padding),
            margin: clone_sides(&self.margin),
            radius: clone_radius(&self.radius),
            height: clone_scalar(&self.height),
            width: clone_scalar(&self.width),
            min_width: clone_scalar(&self.min_width),
            max_width: clone_scalar(&self.max_width),
            min_height: clone_scalar(&self.min_height),
            max_height: clone_scalar(&self.max_height),
            border_width: clone_scalar(&self.border_width),
            border_color: clone_color(&self.border_color),
            stroke_width: clone_scalar(&self.stroke_width),
            stroke_color: clone_color(&self.stroke_color),
            expansion: clone_scalar(&self.expansion),
        }
    }
}

} // verus!
