//! One count for each language, in an `EnumMap` of the crate `enum_map`.
//!
//! The map is keyed by `whatlang::Lang`. Here a key is given by its index,
//! the number that `enum_map::Enum::into_usize` gives for it.

use vstd::prelude::*;
use enum_map::Enum;
use enum_map::EnumMap;
use crate::lang::LANG_COUNT;

verus! {

/// One count for each language: an `EnumMap<whatlang::Lang, u32>`.
#[verifier::external_body]
pub struct LangTally {
    counts: EnumMap<whatlang::Lang, u32>,
}

/// The counts that a tally holds, in the order of the language indices.
pub uninterp spec fn tally_counts(m: LangTally) -> Seq<u32>;

/// `EnumMap::default`: the map that holds the default of `u32`, which is 0,
/// for each of the `LANG_COUNT` keys.
#[verifier::external_body]
pub(crate) fn tally_new() -> (m: LangTally)
    ensures
        tally_counts(m) == Seq::new(LANG_COUNT as nat, |i: int| 0u32),
{
    LangTally { counts: EnumMap::default() }
}

/// `EnumMap::index`, with the key that `Enum::from_usize` gives for `index`:
/// the count stored under that key. `from_usize` panics from `LANG_COUNT`
/// on, so those indices are left out.
#[verifier::external_body]
pub(crate) fn tally_get(m: &LangTally, index: usize) -> (count: u32)
    requires
        index < LANG_COUNT,
        tally_counts(*m).len() == LANG_COUNT,
    ensures
        count == tally_counts(*m)[index as int],
{
    m.counts[whatlang::Lang::from_usize(index)]
}

/// `EnumMap::index_mut`, with the key that `Enum::from_usize` gives for
/// `index`: `count` is stored under that key, and every other count stays.
#[verifier::external_body]
pub(crate) fn tally_set(m: &mut LangTally, index: usize, count: u32)
    requires
        index < LANG_COUNT,
        tally_counts(*old(m)).len() == LANG_COUNT,
    ensures
        tally_counts(*final(m)) == tally_counts(*old(m)).update(index as int, count),
{
    m.counts[whatlang::Lang::from_usize(index)] = count;
}

} // verus!
