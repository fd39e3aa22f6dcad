//! Execution profiles P1..P9.
use vstd::prelude::*;
use crate::text::{owned, chars_of, chars_eq_str};

verus! {

/// An execution profile: P1 is the lightest, P9 the most guarded.
#[derive(Debug, Clone, Copy, PartialEq, Eq, Hash, Structural)]
pub enum ProfileId {
    P1,
    P2,
    P3,
    P4,
    P5,
    P6,
    P7,
    P8,
    P9,
}

/// The profile with number `n`, for `n` in 1..=9.
pub open spec fn profile_with_number(n: int) -> ProfileId {
    if n <= 1 {
        ProfileId::P1
    } else if n == 2 {
        ProfileId::P2
    } else if n == 3 {
        ProfileId::P3
    } else if n == 4 {
        ProfileId::P4
    } else if n == 5 {
        ProfileId::P5
    } else if n == 6 {
        ProfileId::P6
    } else if n == 7 {
        ProfileId::P7
    } else if n == 8 {
        ProfileId::P8
    } else {
        ProfileId::P9
    }
}

/// The profile named `s` (`"P1"` .. `"P9"`), if any.
pub open spec fn profile_named(s: Seq<char>) -> Option<ProfileId> {
    if s == "P1"@ {
        Some(ProfileId::P1)
    } else if s == "P2"@ {
        Some(ProfileId::P2)
    } else if s == "P3"@ {
        Some(ProfileId::P3)
    } else if s == "P4"@ {
        Some(ProfileId::P4)
    } else if s == "P5"@ {
        Some(ProfileId::P5)
    } else if s == "P6"@ {
        Some(ProfileId::P6)
    } else if s == "P7"@ {
        Some(ProfileId::P7)
    } else if s == "P8"@ {
        Some(ProfileId::P8)
    } else if s == "P9"@ {
        Some(ProfileId::P9)
    } else {
        None
    }
}

impl ProfileId {
    /// The number of the profile, 1 to 9.
    pub open spec fn number(self) -> int {
        match self {
            ProfileId::P1 => 1,
            ProfileId::P2 => 2,
            ProfileId::P3 => 3,
            ProfileId::P4 => 4,
            ProfileId::P5 => 5,
            ProfileId::P6 => 6,
            ProfileId::P7 => 7,
            ProfileId::P8 => 8,
            ProfileId::P9 => 9,
        }
    }

    /// The name of the profile, `"P1"` .. `"P9"`.
    pub open spec fn spec_name(self) -> Seq<char> {
        match self {
            ProfileId::P1 => "P1"@,
            ProfileId::P2 => "P2"@,
            ProfileId::P3 => "P3"@,
            ProfileId::P4 => "P4"@,
            ProfileId::P5 => "P5"@,
            ProfileId::P6 => "P6"@,
            ProfileId::P7 => "P7"@,
            ProfileId::P8 => "P8"@,
            ProfileId::P9 => "P9"@,
        }
    }

    /// P1 and P2 run inline, without a swarm.
    pub fn is_inline(&self) -> (r: bool)
        ensures
            r == (self.number() <= 2),
    {
        match self {
            ProfileId::P1 | ProfileId::P2 => true,
            _ => false,
        }
    }

    /// The profile raised to at least P6.
    pub fn escalate_to_p6(self) -> (r: ProfileId)
        ensures
            r.number() == if self.number() < 6 { 6 } else { self.number() },
            r == profile_with_number(r.number()),
    {
        match self {
            ProfileId::P1 | ProfileId::P2 | ProfileId::P3 | ProfileId::P4 | ProfileId::P5 => ProfileId::P6,
            other => other,
        }
    }

    /// The name of the profile, `"P1"` .. `"P9"`.
    pub fn to_string(&self) -> (r: String)
        ensures
            r@ == self.spec_name(),
    {
        match self {
            ProfileId::P1 => owned("P1"),
            ProfileId::P2 => owned("P2"),
            ProfileId::P3 => owned("P3"),
            ProfileId::P4 => owned("P4"),
            ProfileId::P5 => owned("P5"),
            ProfileId::P6 => owned("P6"),
            ProfileId::P7 => owned("P7"),
            ProfileId::P8 => owned("P8"),
            ProfileId::P9 => owned("P9"),
        }
    }

    /// The profile named `s`, `"P1"` .. `"P9"`, if any.
    pub fn from_name(s: &str) -> (r: Option<ProfileId>)
        ensures
            r == profile_named(s@),
    {
        let v = chars_of(s);
        if chars_eq_str(&v, "P1") {
            Some(ProfileId::P1)
        } else if chars_eq_str(&v, "P2") {
            Some(ProfileId::P2)
        } else if chars_eq_str(&v, "P3") {
            Some(ProfileId::P3)
        } else if chars_eq_str(&v, "P4") {
            Some(ProfileId::P4)
        } else if chars_eq_str(&v, "P5") {
            Some(ProfileId::P5)
        } else if chars_eq_str(&v, "P6") {
            Some(ProfileId::P6)
        } else if chars_eq_str(&v, "P7") {
            Some(ProfileId::P7)
        } else if chars_eq_str(&v, "P8") {
            Some(ProfileId::P8)
        } else if chars_eq_str(&v, "P9") {
            Some(ProfileId::P9)
        } else {
            None
        }
    }
}

/// A profile is determined by its number.
pub proof fn lemma_profile_number(p: ProfileId)
    ensures
        1 <= p.number() <= 9,
        profile_with_number(p.number()) == p,
{
}

/// Each profile's name reads back as that profile, and no two profiles share a name.
pub proof fn profile_name_roundtrip(p: ProfileId)
    ensures
        profile_named(p.spec_name()) == Some(p),
{
    reveal_strlit("P1");
    reveal_strlit("P2");
    reveal_strlit("P3");
    reveal_strlit("P4");
    reveal_strlit("P5");
    reveal_strlit("P6");
    reveal_strlit("P7");
    reveal_strlit("P8");
    reveal_strlit("P9");
    assert("P1"@[1] == '1' && "P2"@[1] == '2' && "P3"@[1] == '3' && "P4"@[1] == '4');
    assert("P5"@[1] == '5' && "P6"@[1] == '6' && "P7"@[1] == '7' && "P8"@[1] == '8');
    assert("P9"@[1] == '9');
}

} // verus!
