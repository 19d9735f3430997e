//! API microversions.

use vstd::prelude::*;
use vstd::string::StringExecFns;

verus! {

/// A microversion identifier: a major and a minor number.
///
/// Versions are totally ordered, first by the major and then by the minor
/// number. The order is purely numeric.
#[derive(Clone, Copy, Debug, PartialEq, Eq, Structural, PartialOrd, Ord, Hash)]
pub struct ApiVersion(pub u16, pub u16);

/// The decimal digit for `value`, which is below ten.
pub open spec fn digit(value: nat) -> char {
    if value == 0 {
        '0'
    } else if value == 1 {
        '1'
    } else if value == 2 {
        '2'
    } else if value == 3 {
        '3'
    } else if value == 4 {
        '4'
    } else if value == 5 {
        '5'
    } else if value == 6 {
        '6'
    } else if value == 7 {
        '7'
    } else if value == 8 {
        '8'
    } else {
        '9'
    }
}

/// The decimal numeral of `value`, without leading zeros.
pub open spec fn decimal(value: nat) -> Seq<char>
    decreases value,
{
    if value < 10 {
        seq![digit(value)]
    } else {
        decimal(value / 10).push(digit(value % 10))
    }
}

/// The numeral of one digit.
fn digit_text(value: u16) -> (text: &'static str)
    requires
        value < 10,
    ensures
        text@ == seq![digit(value as nat)],
{
    proof {
        reveal_strlit("0");
        reveal_strlit("1");
        reveal_strlit("2");
        reveal_strlit("3");
        reveal_strlit("4");
        reveal_strlit("5");
        reveal_strlit("6");
        reveal_strlit("7");
        reveal_strlit("8");
        reveal_strlit("9");
    }
    let text = if value == 0 {
        "0"
    } else if value == 1 {
        "1"
    } else if value == 2 {
        "2"
    } else if value == 3 {
        "3"
    } else if value == 4 {
        "4"
    } else if value == 5 {
        "5"
    } else if value == 6 {
        "6"
    } else if value == 7 {
        "7"
    } else if value == 8 {
        "8"
    } else {
        "9"
    };
    assert(text@ =~= seq![digit(value as nat)]);
    text
}

/// The decimal numeral of `value`.
pub fn decimal_string(value: u16) -> (text: String)
    ensures
        text@ == decimal(value as nat),
    decreases value,
{
    if value < 10 {
        digit_text(value).to_owned()
    } else {
        let mut text = decimal_string(value / 10);
        text.append(digit_text(value % 10));
        assert(text@ =~= decimal(value as nat));
        text
    }
}

impl ApiVersion {
    /// Whether `self` comes strictly before `other`.
    pub open spec fn precedes(self, other: ApiVersion) -> bool {
        self.0 < other.0 || (self.0 == other.0 && self.1 < other.1)
    }

    /// Whether `self` comes before `other` or equals it.
    pub open spec fn at_most(self, other: ApiVersion) -> bool {
        self.precedes(other) || self == other
    }

    /// The text of a version: major, a dot, minor.
    pub open spec fn text(self) -> Seq<char> {
        decimal(self.0 as nat) + seq!['.'] + decimal(self.1 as nat)
    }

    /// Whether `self` comes strictly before `other`.
    pub fn is_before(&self, other: &ApiVersion) -> (before: bool)
        ensures
            before == self.precedes(*other),
    {
        self.0 < other.0 || (self.0 == other.0 && self.1 < other.1)
    }

    /// Whether `self` comes before `other` or equals it.
    pub fn is_at_most(&self, other: &ApiVersion) -> (at_most: bool)
        ensures
            at_most == self.at_most(*other),
    {
        self.0 < other.0 || (self.0 == other.0 && self.1 <= other.1)
    }

    /// The version as text: major, a dot, minor.
    pub fn to_string(&self) -> (text: String)
        ensures
            text@ == self.text(),
    {
        let mut text = decimal_string(self.0);
        let minor = decimal_string(self.1);
        proof {
            reveal_strlit(".");
            assert("."@ =~= seq!['.']);
        }
        text.append(".");
        text.append(minor.as_str());
        text
    }
}

/// Of two versions, one comes before the other or they are equal; and the
/// order is transitive and antisymmetric.
pub proof fn law_versions_totally_ordered(a: ApiVersion, b: ApiVersion, c: ApiVersion)
    ensures
        a.at_most(b) || b.at_most(a),
        a.at_most(b) && b.at_most(a) ==> a == b,
        a.at_most(b) && b.at_most(c) ==> a.at_most(c),
{
}

} // verus!
