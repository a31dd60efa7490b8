//! The variable map: the raw text that each variable name stands for.

use crate::text::str_eq;
use vstd::prelude::*;

verus! {

struct Binding {
    name: String,
    value: String,
}

/// A finite map from variable names to raw replacement text. A name is held
/// once: a second insertion under a name replaces the first.
pub struct VariableMap {
    bindings: Vec<Binding>,
}

/// Whether entry `i` of `bindings` is the binding of `name`.
spec fn binds(bindings: Seq<Binding>, i: int, name: Seq<char>) -> bool {
    0 <= i < bindings.len() && bindings[i].name@ == name
}

/// No two entries bind one name.
spec fn distinct_names(bindings: Seq<Binding>) -> bool {
    forall|i: int, j: int|
        0 <= i < j < bindings.len() ==> (#[trigger] bindings[i]).name@ != (
        #[trigger] bindings[j]).name@
}

/// The map that the entries make: a name is bound where an entry binds it,
/// to the value of that entry.
spec fn map_of(bindings: Seq<Binding>) -> Map<Seq<char>, Seq<char>> {
    Map::new(
        |name: Seq<char>| exists|i: int| binds(bindings, i, name),
        |name: Seq<char>| bindings[choose|i: int| binds(bindings, i, name)].value@,
    )
}

/// Where no two entries bind one name, every entry decides its name.
proof fn lemma_bound(bindings: Seq<Binding>, i: int)
    requires
        distinct_names(bindings),
        0 <= i < bindings.len(),
    ensures
        map_of(bindings).contains_key(bindings[i].name@),
        map_of(bindings)[bindings[i].name@] == bindings[i].value@,
{
    let name = bindings[i].name@;
    assert(binds(bindings, i, name));
    let j = choose|j: int| binds(bindings, j, name);
    assert(bindings[j].name@ == bindings[i].name@);
    assert(i == j);
}

/// Replacing the binding of a name rebinds that name and no other.
proof fn lemma_replace(before: Seq<Binding>, i: int, binding: Binding)
    requires
        distinct_names(before),
        binds(before, i, binding.name@),
    ensures
        distinct_names(before.update(i, binding)),
        map_of(before.update(i, binding)) == map_of(before).insert(binding.name@, binding.value@),
{
    let after = before.update(i, binding);
    let name = binding.name@;
    assert forall|a: int, b: int| 0 <= a < b < after.len() implies (#[trigger] after[a]).name@ != (
    #[trigger] after[b]).name@ by {
        assert(before[a].name@ != before[b].name@);
    }
    assert forall|key: Seq<char>|
        map_of(after).contains_key(key) == #[trigger] map_of(before).insert(
            name,
            binding.value@,
        ).contains_key(key) by {
        if map_of(after).contains_key(key) {
            let k = choose|k: int| binds(after, k, key);
            assert(binds(before, k, before[k].name@));
        }
        if map_of(before).contains_key(key) && key != name {
            let k = choose|k: int| binds(before, k, key);
            assert(binds(after, k, key));
        }
        if key == name {
            assert(binds(after, i, key));
        }
    }
    assert forall|key: Seq<char>| #[trigger]
        map_of(after).contains_key(key) implies map_of(after)[key] == map_of(before).insert(
        name,
        binding.value@,
    )[key] by {
        let k = choose|k: int| binds(after, k, key);
        lemma_bound(after, k);
        if key != name {
            lemma_bound(before, k);
        } else {
            assert(binds(after, i, key));
            assert(k == i);
        }
    }
    assert(map_of(after) =~= map_of(before).insert(name, binding.value@));
}

/// Appending a binding of a name that is not bound binds that name and
/// leaves the others.
proof fn lemma_append(before: Seq<Binding>, binding: Binding)
    requires
        distinct_names(before),
        forall|k: int| !binds(before, k, binding.name@),
    ensures
        distinct_names(before.push(binding)),
        map_of(before.push(binding)) == map_of(before).insert(binding.name@, binding.value@),
{
    let after = before.push(binding);
    let name = binding.name@;
    let last = before.len() as int;
    assert forall|a: int, b: int| 0 <= a < b < after.len() implies (#[trigger] after[a]).name@ != (
    #[trigger] after[b]).name@ by {
        if b < last {
            assert(before[a].name@ != before[b].name@);
        } else {
            assert(!binds(before, a, name));
        }
    }
    assert forall|key: Seq<char>|
        map_of(after).contains_key(key) == #[trigger] map_of(before).insert(
            name,
            binding.value@,
        ).contains_key(key) by {
        if map_of(after).contains_key(key) {
            let k = choose|k: int| binds(after, k, key);
            if key != name {
                assert(binds(before, k, key));
            }
        }
        if map_of(before).contains_key(key) {
            let k = choose|k: int| binds(before, k, key);
            assert(binds(after, k, key));
        }
        if key == name {
            assert(binds(after, last, key));
        }
    }
    assert forall|key: Seq<char>| #[trigger]
        map_of(after).contains_key(key) implies map_of(after)[key] == map_of(before).insert(
        name,
        binding.value@,
    )[key] by {
        let k = choose|k: int| binds(after, k, key);
        lemma_bound(after, k);
        if key != name {
            assert(binds(before, k, key));
            lemma_bound(before, k);
        } else {
            assert(binds(after, last, key));
            assert(k == last);
        }
    }
    assert(map_of(after) =~= map_of(before).insert(name, binding.value@));
}

impl View for VariableMap {
    type V = Map<Seq<char>, Seq<char>>;

    closed spec fn view(&self) -> Map<Seq<char>, Seq<char>> {
        map_of(self.bindings@)
    }
}

impl VariableMap {
    #[verifier::type_invariant]
    spec fn well_formed(self) -> bool {
        distinct_names(self.bindings@)
    }

    /// The map that binds no name.
    pub fn new() -> (map: VariableMap)
        ensures
            map@ == Map::<Seq<char>, Seq<char>>::empty(),
    {
        let map = VariableMap { bindings: Vec::new() };
        assert(map@ =~= Map::<Seq<char>, Seq<char>>::empty());
        map
    }

    /// Where `name` is bound: the index of its binding, or the number of
    /// bindings where it has none.
    fn position(&self, name: &str) -> (i: usize)
        ensures
            i <= self.bindings.len(),
            i < self.bindings.len() ==> self.bindings[i as int].name@ == name@,
            i == self.bindings.len() ==> !self@.contains_key(name@),
    {
        let mut i: usize = 0;
        while i < self.bindings.len()
            invariant
                i <= self.bindings.len(),
                forall|k: int| 0 <= k < i ==> !binds(self.bindings@, k, name@),
            decreases self.bindings.len() - i,
        {
            if str_eq(self.bindings[i].name.as_str(), name) {
                return i;
            }
            i += 1;
        }
        i
    }

    /// Binds `name` to `value`, in place of what it was bound to before.
    pub fn insert(&mut self, name: &str, value: &str)
        ensures
            final(self)@ == old(self)@.insert(name@, value@),
    {
        proof {
            use_type_invariant(&*self);
        }
        let i = self.position(name);
        let binding = Binding { name: name.to_owned(), value: value.to_owned() };
        let mut bindings: Vec<Binding> = Vec::new();
        core::mem::swap(&mut self.bindings, &mut bindings);
        let ghost before = bindings@;
        if i < bindings.len() {
            bindings[i] = binding;
            proof {
                lemma_replace(before, i as int, binding);
            }
        } else {
            bindings.push(binding);
            proof {
                assert forall|k: int| !binds(before, k, name@) by {
                    if binds(before, k, name@) {
                        assert(map_of(before).contains_key(name@));
                    }
                }
                lemma_append(before, binding);
            }
        }
        core::mem::swap(&mut self.bindings, &mut bindings);
    }

    /// The text that `name` is bound to, if it is bound.
    pub fn get(&self, name: &str) -> (value: Option<&str>)
        ensures
            value is Some == self@.contains_key(name@),
            value matches Some(v) ==> v@ == self@[name@],
    {
        proof {
            use_type_invariant(self);
        }
        let i = self.position(name);
        if i < self.bindings.len() {
            proof {
                lemma_bound(self.bindings@, i as int);
            }
            Some(self.bindings[i].value.as_str())
        } else {
            None
        }
    }
}

} // verus!
