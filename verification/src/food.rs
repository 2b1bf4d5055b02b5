//! The food catalog: food types, their purchasable pack options, and
//! serving sizes.

use vstd::prelude::*;

verus! {

/// Gram quantities. 64k grams is plenty for a household shelf item.
pub type Grams = u16;

/// Same size as grams, but counting servings rather than grams.
pub type Servings = u16;

/// The string identity of a food type, unique across a catalog.
pub type Key = String;

/// A purchasable unit size for a food type.
#[derive(Clone, Debug)]
pub struct PackOption {
    pub grams: Grams,
}

/// One entry of the catalog: a key, at least one pack option, and the
/// serving size used to convert grams to servings.
#[derive(Clone, Debug)]
pub struct Type {
    pub key: Key,
    pub options: Vec<PackOption>,
    pub serving: Grams,
}

/// The serving size a food type gets when the configuration names none.
pub fn default_serving() -> (r: Grams)
    ensures
        r == 100,
{
    100
}

/// A well-formed catalog entry: at least one pack option and a positive
/// serving size.
pub open spec fn type_wf(t: Type) -> bool {
    &&& t.options.len() >= 1
    &&& t.options.len() <= 0xffff_ffff
    &&& t.serving >= 1
}

/// A well-formed catalog: non-empty, every entry well-formed. Key
/// uniqueness is the configuration layer's concern; nothing here relies on
/// it.
pub open spec fn food_types_wf(ts: Seq<Type>) -> bool {
    &&& ts.len() >= 1
    &&& ts.len() <= 0xffff_ffff
    &&& forall|i: int| 0 <= i < ts.len() ==> type_wf(#[trigger] ts[i])
}

/// An exact copy of a pack option.
pub fn clone_pack_option(p: &PackOption) -> (r: PackOption)
    ensures
        r == *p,
{
    PackOption { grams: p.grams }
}

/// An exact copy of a catalog entry, field by field.
pub fn clone_type(t: &Type) -> (r: Type)
    ensures
        r.key@ == t.key@,
        r.options@ == t.options@,
        r.serving == t.serving,
{
    let mut options: Vec<PackOption> = Vec::new();
    let mut i: usize = 0;
    while i < t.options.len()
        invariant
            i <= t.options@.len(),
            options@ =~= t.options@.subrange(0, i as int),
        decreases t.options@.len() - i,
    {
        options.push(clone_pack_option(&t.options[i]));
        i = i + 1;
    }
    proof {
        assert(options@ =~= t.options@);
    }
    Type { key: t.key.clone(), options, serving: t.serving }
}

} // verus!
