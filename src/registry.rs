//! The registry of buffer helper routines: one per distinct composite type.
use vstd::prelude::*;

use crate::types::{canonical_name_of, Type};
use crate::wrapper::ComponentInterface;

verus! {

/// The canonical names of the composite types occurring in `t`, each of which
/// needs its own allocate, consume and size routines.
pub open spec fn helper_names_of(t: Type) -> Set<Seq<char>>
    decreases t,
{
    match t {
        Type::Record(_) => set![canonical_name_of(t)],
        Type::Optional(inner) => helper_names_of(*inner).insert(canonical_name_of(t)),
        Type::Sequence(inner) => helper_names_of(*inner).insert(canonical_name_of(t)),
        Type::Dictionary(inner) => helper_names_of(*inner).insert(canonical_name_of(t)),
        _ => Set::empty(),
    }
}

/// The helper names needed by a list of declared types.
pub open spec fn helper_names_of_all(types: Seq<Type>) -> Set<Seq<char>>
    decreases types.len(),
{
    if types.len() == 0 {
        Set::empty()
    } else {
        helper_names_of_all(types.drop_last()).union(helper_names_of(types.last()))
    }
}

/// The texts held by a list of strings.
pub open spec fn texts(v: Seq<String>) -> Set<Seq<char>> {
    Set::new(|s: Seq<char>| exists|i: int| 0 <= i < v.len() && v[i]@ == s)
}

/// No text occurs twice.
pub open spec fn distinct_texts(v: Seq<String>) -> bool {
    forall|i: int, j: int| 0 <= i < v.len() && 0 <= j < v.len() && i != j ==> v[i]@ != v[j]@
}

fn add_name(name: String, names: &mut Vec<String>)
    requires
        distinct_texts(old(names)@),
    ensures
        distinct_texts(final(names)@),
        texts(final(names)@) == texts(old(names)@).insert(name@),
{
    let mut i: usize = 0;
    while i < names.len()
        invariant
            0 <= i <= names.len(),
            names@ == old(names)@,
            distinct_texts(names@),
            forall|j: int| 0 <= j < i ==> names@[j]@ != name@,
        decreases names.len() - i,
    {
        if names[i] == name {
            assert(texts(names@) =~= texts(names@).insert(name@));
            return;
        }
        i = i + 1;
    }
    let ghost before = names@;
    names.push(name);
    assert(texts(names@) =~= texts(before).insert(name@)) by {
        assert(names@[before.len() as int] == name);
        assert forall|s: Seq<char>| texts(before).insert(name@).contains(s) implies texts(
            names@,
        ).contains(s) by {
            if s != name@ {
                let k = choose|k: int| 0 <= k < before.len() && before[k]@ == s;
                assert(names@[k] == before[k]);
            }
        }
    }
}

fn register(t: &Type, names: &mut Vec<String>)
    requires
        distinct_texts(old(names)@),
    ensures
        distinct_texts(final(names)@),
        texts(final(names)@) == texts(old(names)@).union(helper_names_of(*t)),
    decreases t,
{
    match t {
        Type::Record(_) => {
            add_name(t.canonical_name(), names);
            assert(texts(names@) =~= texts(old(names)@).union(helper_names_of(*t)));
        },
        Type::Optional(inner) | Type::Sequence(inner) | Type::Dictionary(inner) => {
            register(inner, names);
            add_name(t.canonical_name(), names);
            assert(texts(names@) =~= texts(old(names)@).union(helper_names_of(*t)));
        },
        _ => {
            assert(texts(names@) =~= texts(old(names)@).union(helper_names_of(*t)));
        },
    }
}

impl ComponentInterface {
    /// The canonical names of all composite types in the interface, each
    /// once, inner types before the types that contain them: the helper
    /// routines that the generated module must define.
    pub fn helper_type_names(&self) -> (r: Vec<String>)
        ensures
            distinct_texts(r@),
            texts(r@) == helper_names_of_all(self.types@),
    {
        let mut names: Vec<String> = Vec::new();
        let mut i: usize = 0;
        assert(texts(names@) =~= helper_names_of_all(self.types@.take(0)));
        while i < self.types.len()
            invariant
                0 <= i <= self.types.len(),
                distinct_texts(names@),
                texts(names@) == helper_names_of_all(self.types@.take(i as int)),
            decreases self.types.len() - i,
        {
            register(&self.types[i], &mut names);
            assert(self.types@.take(i + 1).drop_last() =~= self.types@.take(i as int));
            i = i + 1;
        }
        assert(self.types@.take(i as int) =~= self.types@);
        names
    }
}

} // verus!
