//! Compliance ratings: the three levels an asset can score against a
//! principle, and their one-letter storage form.

use vstd::prelude::*;
use crate::strutil::str_eq;

verus! {

/// A compliance rating for an (asset, principle) pair.
#[derive(Debug, Clone, Copy, PartialEq, Eq, Structural)]
pub enum Rating {
    High,
    Medium,
    Low,
    Unknown,
}

/// The rating a storage letter denotes; anything but H, M, L is unknown.
pub open spec fn rating_of(s: Seq<char>) -> Rating {
    if s == "H"@ {
        Rating::High
    } else if s == "M"@ {
        Rating::Medium
    } else if s == "L"@ {
        Rating::Low
    } else {
        Rating::Unknown
    }
}

/// The storage letter of a rating.
pub open spec fn rating_letter(r: Rating) -> Seq<char> {
    match r {
        Rating::High => "H"@,
        Rating::Medium => "M"@,
        Rating::Low => "L"@,
        Rating::Unknown => "?"@,
    }
}

impl Rating {
    /// The rating denoted by a storage letter.
    pub fn from_string(s: &str) -> (r: Rating)
        ensures
            r == rating_of(s@),
    {
        if str_eq(s, "H") {
            Rating::High
        } else if str_eq(s, "M") {
            Rating::Medium
        } else if str_eq(s, "L") {
            Rating::Low
        } else {
            Rating::Unknown
        }
    }

    /// The storage letter of this rating.
    pub fn to_string(&self) -> (r: &'static str)
        ensures
            r@ == rating_letter(*self),
    {
        match self {
            Rating::High => "H",
            Rating::Medium => "M",
            Rating::Low => "L",
            Rating::Unknown => "?",
        }
    }
}

} // verus!
