//! Line budgets of planning documents.
pub mod linter;

use vstd::prelude::*;
use crate::text::{chars_of, lower_ascii, chars_eq_str, ascii_lower_text};

verus! {

/// The size class of a document, which caps its number of lines.
#[derive(Debug, Clone, Copy, PartialEq, Eq, Structural)]
pub enum Tier {
    Xl,
    Large,
    Default,
    Tight,
}

/// The tier whose lower-case name is `s`.
pub open spec fn tier_named(s: Seq<char>) -> Option<Tier> {
    if s == "xl"@ {
        Some(Tier::Xl)
    } else if s == "large"@ {
        Some(Tier::Large)
    } else if s == "default"@ {
        Some(Tier::Default)
    } else if s == "tight"@ {
        Some(Tier::Tight)
    } else {
        None
    }
}

impl Tier {
    /// The line cap of the tier.
    pub open spec fn cap(self) -> nat {
        match self {
            Tier::Xl => 1600,
            Tier::Large => 1000,
            Tier::Default => 500,
            Tier::Tight => 200,
        }
    }

    /// The tier named `s`, ignoring ASCII case.
    pub open spec fn spec_parse(s: Seq<char>) -> Option<Tier> {
        tier_named(ascii_lower_text(s))
    }

    /// The most lines a document of this tier may have.
    pub fn max_lines(self) -> (r: usize)
        ensures
            r == self.cap(),
    {
        match self {
            Tier::Xl => 1600,
            Tier::Large => 1000,
            Tier::Default => 500,
            Tier::Tight => 200,
        }
    }

    /// The tier named `s` (`xl`, `large`, `default` or `tight`, in any ASCII case).
    pub fn parse(s: &str) -> (r: Option<Tier>)
        ensures
            r == Tier::spec_parse(s@),
    {
        let v = chars_of(s);
        let l = lower_ascii(&v);
        if chars_eq_str(&l, "xl") {
            Some(Tier::Xl)
        } else if chars_eq_str(&l, "large") {
            Some(Tier::Large)
        } else if chars_eq_str(&l, "default") {
            Some(Tier::Default)
        } else if chars_eq_str(&l, "tight") {
            Some(Tier::Tight)
        } else {
            None
        }
    }

    /// The lower-case name of the tier, as plan files write it.
    pub open spec fn spec_name(self) -> Seq<char> {
        match self {
            Tier::Xl => "xl"@,
            Tier::Large => "large"@,
            Tier::Default => "default"@,
            Tier::Tight => "tight"@,
        }
    }

    /// The lower-case name of the tier.
    pub fn name(self) -> (r: &'static str)
        ensures
            r@ == self.spec_name(),
    {
        match self {
            Tier::Xl => "xl",
            Tier::Large => "large",
            Tier::Default => "default",
            Tier::Tight => "tight",
        }
    }
}

} // verus!
