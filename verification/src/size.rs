//! Length classes of text samples.

use vstd::prelude::*;
use vstd::string::StrSliceExecFns;

verus! {

/// Number of length classes.
pub const SIZE_COUNT: usize = 4;

/// The length class of a text sample, in ascending order of character count.
#[derive(Clone, Copy, Debug, PartialEq, Eq, Structural)]
pub enum Size {
    /// At most 20 characters.
    Under20,
    /// 21 to 50 characters.
    Under50,
    /// 51 to 100 characters.
    Under100,
    /// More than 100 characters.
    Over100,
}

impl Size {
    /// The class of a text of `len` characters.
    pub open spec fn of_len(len: nat) -> Size {
        if len <= 20 {
            Size::Under20
        } else if len <= 50 {
            Size::Under50
        } else if len <= 100 {
            Size::Under100
        } else {
            Size::Over100
        }
    }

    /// Position of the class in ascending order, from 0.
    pub open spec fn rank(self) -> nat {
        match self {
            Size::Under20 => 0,
            Size::Under50 => 1,
            Size::Under100 => 2,
            Size::Over100 => 3,
        }
    }

    /// The class at position `rank`; positions past the last give the last class.
    pub open spec fn at(rank: nat) -> Size {
        if rank == 0 {
            Size::Under20
        } else if rank == 1 {
            Size::Under50
        } else if rank == 2 {
            Size::Under100
        } else {
            Size::Over100
        }
    }

    /// The name of the class: its range of lengths.
    pub open spec fn name(self) -> Seq<char> {
        match self {
            Size::Under20 => "<=20"@,
            Size::Under50 => "21-50"@,
            Size::Under100 => "51-100"@,
            Size::Over100 => ">100"@,
        }
    }

    /// The name of the class: its range of lengths.
    pub fn label(self) -> (label: &'static str)
        ensures
            label@ == self.name(),
    {
        match self {
            Size::Under20 => "<=20",
            Size::Under50 => "21-50",
            Size::Under100 => "51-100",
            Size::Over100 => ">100",
        }
    }

    /// Position of the class in ascending order, from 0.
    pub fn index(self) -> (i: usize)
        ensures
            i == self.rank(),
            i < SIZE_COUNT,
    {
        match self {
            Size::Under20 => 0,
            Size::Under50 => 1,
            Size::Under100 => 2,
            Size::Over100 => 3,
        }
    }

    /// The class at position `index`, if there is one.
    pub fn from_index(index: usize) -> (s: Option<Size>)
        ensures
            index < SIZE_COUNT ==> s == Some(Size::at(index as nat)),
            index >= SIZE_COUNT ==> s.is_none(),
    {
        if index == 0 {
            Some(Size::Under20)
        } else if index == 1 {
            Some(Size::Under50)
        } else if index == 2 {
            Some(Size::Under100)
        } else if index == 3 {
            Some(Size::Over100)
        } else {
            None
        }
    }
}

/// Classifies a sample by its number of characters (Unicode scalar values,
/// not bytes). Every text has a class; the empty text is in the lowest.
pub fn size(sentence: &str) -> (s: Size)
    ensures
        s == Size::of_len(sentence@.len()),
{
    let n: usize = sentence.unicode_len();
    if n <= 20 {
        Size::Under20
    } else if n <= 50 {
        Size::Under50
    } else if n <= 100 {
        Size::Under100
    } else {
        Size::Over100
    }
}

/// A longer text is never in a lower class.
pub proof fn size_is_monotonic(shorter: nat, longer: nat)
    requires
        shorter <= longer,
    ensures
        Size::of_len(shorter).rank() <= Size::of_len(longer).rank(),
{
}

/// `rank` and `at` are inverse to each other on the four classes.
pub proof fn rank_at_round_trip(s: Size)
    ensures
        Size::at(s.rank()) == s,
        s.rank() < SIZE_COUNT,
{
}

} // verus!
