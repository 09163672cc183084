use vstd::prelude::*;

use vstd::string::StringExecFns;

use crate::text::{decimal, decimal_string};

verus! {

/// Whether bit `k` of the Wolfram code `code` is set.
pub open spec fn code_bit(code: u8, k: int) -> bool {
    (code as int / vstd::arithmetic::power2::pow2(k as nat) as int) % 2 == 1
}

/// The population ordinal of a neighborhood: `4 * left + 2 * middle + right`.
pub open spec fn ordinal_of(left: bool, middle: bool, right: bool) -> int {
    (if left { 4int } else { 0int }) + (if middle { 2int } else { 0int }) + (if right {
        1int
    } else {
        0int
    })
}

/// The Wolfram code of an elementary cellular automaton. Bit `k` of the code
/// is the next state of a cell whose neighborhood has population ordinal `k`;
/// every one of the 256 codes is a valid rule.
#[derive(Copy, Clone, Default, Debug, PartialEq, Eq, Structural, PartialOrd, Ord, Hash)]
pub struct AutomatonRule(u8);

impl AutomatonRule {
    /// The Wolfram code of this rule.
    pub closed spec fn code_spec(self) -> u8 {
        self.0
    }

    /// The rule whose Wolfram code is `code`.
    pub closed spec fn from_code(code: u8) -> Self {
        AutomatonRule(code)
    }

    /// The next state that this rule assigns to a neighborhood with ordinal
    /// `ordinal`.
    pub open spec fn next_cell_spec(self, ordinal: int) -> bool {
        code_bit(self.code_spec(), ordinal)
    }

    /// Answer the Wolfram code of this rule.
    #[verifier::when_used_as_spec(code_spec)]
    pub fn code(self) -> (r: u8)
        ensures
            r == self.code_spec(),
    {
        self.0
    }

    /// Given a population ordinal in `[0, 7]`, answer the occupancy that this
    /// rule gives the successor of a cell with that neighborhood.
    pub fn next_cell(self, ordinal: u8) -> (r: bool)
        requires
            ordinal <= 7,
        ensures
            r == self.next_cell_spec(ordinal as int),
    {
        let code = self.0;
        let r = code & (1u8 << ordinal) != 0;
        proof {
            lemma_bit_test(code, ordinal);
        }
        r
    }

    /// Render the rule as text: `Rule #` followed by its Wolfram code.
    pub fn to_string(&self) -> (r: String)
        ensures
            r@ == "Rule #"@ + decimal(self.code_spec() as nat),
    {
        let mut text = String::from_str("Rule #");
        let code = decimal_string(self.0 as u64);
        text.append(code.as_str());
        text
    }
}

/// Testing bit `k` of a byte with a mask agrees with `code_bit`.
proof fn lemma_bit_test(code: u8, k: u8)
    requires
        k <= 7,
    ensures
        (code & (1u8 << k) != 0) == code_bit(code, k as int),
{
    vstd::arithmetic::power2::lemma2_to64();
    let p: int = vstd::arithmetic::power2::pow2(k as nat) as int;
    let b: bool = code & (1u8 << k) != 0;
    assert(b == ((code as int / p) % 2 == 1)) by {
        if k == 0 {
            assert((code & (1u8 << 0u8) != 0) == (code % 2 == 1)) by (bit_vector);
        } else if k == 1 {
            assert((code & (1u8 << 1u8) != 0) == ((code / 2) % 2 == 1)) by (bit_vector);
        } else if k == 2 {
            assert((code & (1u8 << 2u8) != 0) == ((code / 4) % 2 == 1)) by (bit_vector);
        } else if k == 3 {
            assert((code & (1u8 << 3u8) != 0) == ((code / 8) % 2 == 1)) by (bit_vector);
        } else if k == 4 {
            assert((code & (1u8 << 4u8) != 0) == ((code / 16) % 2 == 1)) by (bit_vector);
        } else if k == 5 {
            assert((code & (1u8 << 5u8) != 0) == ((code / 32) % 2 == 1)) by (bit_vector);
        } else if k == 6 {
            assert((code & (1u8 << 6u8) != 0) == ((code / 64) % 2 == 1)) by (bit_vector);
        } else {
            assert((code & (1u8 << 7u8) != 0) == ((code / 128) % 2 == 1)) by (bit_vector);
        }
    }
}

impl From<u8> for AutomatonRule {
    /// Every byte is the Wolfram code of a rule.
    fn from(value: u8) -> (r: Self)
        ensures
            r.code_spec() == value,
            r == AutomatonRule::from_code(value),
    {
        AutomatonRule(value)
    }
}

impl vstd::std_specs::convert::FromSpecImpl<u8> for AutomatonRule {
    open spec fn obeys_from_spec() -> bool {
        true
    }

    closed spec fn from_spec(v: u8) -> Self {
        AutomatonRule(v)
    }
}

/// Compute the population ordinal of a neighborhood from the occupancy of its
/// left, middle and right cells. The result lies in `[0, 7]`.
pub fn compute_ordinal(left: bool, middle: bool, right: bool) -> (r: u8)
    ensures
        r as int == ordinal_of(left, middle, right),
        r <= 7,
{
    let left: u8 = if left { 4 } else { 0 };
    let middle: u8 = if middle { 2 } else { 0 };
    let right: u8 = if right { 1 } else { 0 };
    left + middle + right
}

} // verus!
