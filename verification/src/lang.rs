//! Languages, detection methods and detector libraries.

use vstd::prelude::*;
use enum_map::Enum;

verus! {

/// Number of languages that can be told apart.
pub const LANG_COUNT: usize = 70;

/// A language, identified by its index among the `LANG_COUNT` languages.
///
/// The index is the position of the language in `whatlang::Lang`.
#[derive(Clone, Copy, Debug, PartialEq, Eq, Structural)]
pub struct Lang {
    pub(crate) index: usize,
}

/// The ISO 639-3 code of the language at `index`, as `whatlang::Lang::code` gives it.
pub uninterp spec fn iso_code(index: nat) -> Seq<char>;

/// `whatlang::Lang::code`, called on the language that
/// `enum_map::Enum::from_usize` gives for `index`. The code depends on the
/// index alone. `from_usize` panics from `LANG_COUNT` on, so those indices
/// are left out.
#[verifier::external_body]
fn code_at(index: usize) -> (code: String)
    requires
        index < LANG_COUNT,
    ensures
        code@ == iso_code(index as nat),
{
    whatlang::Lang::from_usize(index).code().to_string()
}

impl Lang {
    /// Every language has an index below `LANG_COUNT`.
    #[verifier::type_invariant]
    closed spec fn in_range(self) -> bool {
        self.index < LANG_COUNT
    }

    /// The index of the language.
    pub closed spec fn rank(self) -> nat {
        self.index as nat
    }

    /// The language at index `rank`.
    pub closed spec fn at(rank: nat) -> Lang {
        Lang { index: rank as usize }
    }

    /// The language at `index`, if `index` is below `LANG_COUNT`.
    pub fn new(index: usize) -> (lang: Option<Lang>)
        ensures
            lang == (if index < LANG_COUNT {
                Some(Lang::at(index as nat))
            } else {
                None
            }),
    {
        if index < LANG_COUNT {
            Some(Lang { index })
        } else {
            None
        }
    }

    /// All languages, in the order of their indices.
    pub fn all() -> (langs: Vec<Lang>)
        ensures
            langs@ == all_langs(),
    {
        let mut langs: Vec<Lang> = Vec::new();
        for index in 0..LANG_COUNT
            invariant
                langs@ == Seq::new(index as nat, |i: int| Lang::at(i as nat)),
        {
            langs.push(Lang { index });
            assert(langs@ =~= Seq::new((index + 1) as nat, |i: int| Lang::at(i as nat)));
        }
        langs
    }

    /// The index of the language, below `LANG_COUNT`.
    pub fn index(&self) -> (i: usize)
        ensures
            i == self.rank(),
            i < LANG_COUNT,
    {
        proof {
            use_type_invariant(self);
        }
        self.index
    }

    /// The ISO 639-3 code of the language.
    pub fn code(&self) -> (code: String)
        ensures
            code@ == iso_code(self.rank()),
    {
        proof {
            use_type_invariant(self);
        }
        code_at(self.index)
    }
}

/// All languages, in the order of their indices.
pub open spec fn all_langs() -> Seq<Lang> {
    Seq::new(LANG_COUNT as nat, |i: int| Lang::at(i as nat))
}

/// A language is its index: two languages with the same index are the same
/// language, and the language at an index has that index.
pub proof fn lang_is_its_rank(a: Lang, b: Lang)
    ensures
        a.rank() == b.rank() <==> a == b,
        Lang::at(a.rank()) == a,
        a.rank() <= usize::MAX,
{
}

/// The language at an index has that index.
pub proof fn rank_of_lang_at(rank: nat)
    requires
        rank <= usize::MAX,
    ensures
        Lang::at(rank).rank() == rank,
{
}

/// How a text is matched against the language profiles.
#[derive(Clone, Copy, Debug, PartialEq, Eq, Structural)]
pub enum Method {
    /// By the trigrams of the text.
    Trigram,
    /// By the letters of the text.
    Alphabet,
    /// By both, weighted by the length of the text.
    Combined,
}

/// The detector library under measurement.
#[derive(Clone, Copy, Debug, PartialEq, Eq, Structural)]
pub enum Library {
    /// The `whatlang` crate.
    Whatlang,
    /// The `whichlang` crate.
    WhichLang,
}

} // verus!
