use vstd::prelude::*;

use vstd::string::{StrSliceExecFns, StringExecFns};

use crate::rule::AutomatonRule;

verus! {

/// Whether `c` is one of the decimal digits `0` to `9`.
pub open spec fn is_decimal_digit(c: char) -> bool {
    '0' <= c <= '9'
}

/// The value of the decimal digit `c`.
pub open spec fn digit_value(c: char) -> nat {
    (c as int - '0' as int) as nat
}

/// The value of the decimal numeral `digits`, most significant digit first.
pub open spec fn numeral_value(digits: Seq<char>) -> nat
    decreases digits.len(),
{
    if digits.len() == 0 {
        0
    } else {
        numeral_value(digits.drop_last()) * 10 + digit_value(digits.last())
    }
}

/// The most digits that the entry of a rule buffers.
pub const MAX_RULE_DIGITS: usize = 3;

/// What the caller must do with the grace timer of the entry after a digit.
#[derive(Copy, Clone, Debug, PartialEq, Eq, Structural)]
pub enum EntryTimer {
    /// Start the grace period: the digit began a new entry.
    Start,
    /// Restart the grace period: the digit extended the entry.
    Reset,
    /// Drop the timer: the entry was abandoned.
    Cancel,
}

/// Relies on `String::push`, which appends one character to the string.
#[verifier::external_body]
fn push_char(text: &mut String, c: char)
    ensures
        final(text)@ == old(text)@.push(c),
{
    text.push(c);
}

/// The digits that a user has typed so far towards the Wolfram code of the
/// next rule, if an entry is under way. The caller runs a grace timer: each
/// digit starts or restarts it, and when it expires the entry is decoded.
#[derive(Debug)]
pub struct AutomatonRuleBuilder {
    /// The digits typed so far, or nothing when no entry is under way.
    builder: Option<String>,
}

impl AutomatonRuleBuilder {
    /// The digits typed so far, or nothing when no entry is under way.
    pub closed spec fn input(&self) -> Option<Seq<char>> {
        match &self.builder {
            Some(text) => Some(text@),
            None => None,
        }
    }

    /// An entry under way holds one to `MAX_RULE_DIGITS` decimal digits.
    pub open spec fn well_formed(&self) -> bool {
        match self.input() {
            Some(digits) => {
                &&& 1 <= digits.len() <= MAX_RULE_DIGITS
                &&& forall|i: int| 0 <= i < digits.len() ==> is_decimal_digit(#[trigger] digits[i])
            },
            None => true,
        }
    }

    /// The rule that the digits typed so far denote: the rule whose Wolfram
    /// code is their value, when that value fits a byte.
    pub open spec fn pending_rule_spec(&self) -> Option<AutomatonRule> {
        match self.input() {
            Some(digits) => if numeral_value(digits) <= 255 {
                Some(AutomatonRule::from_code(numeral_value(digits) as u8))
            } else {
                None
            },
            None => None,
        }
    }

    /// Construct a builder with no entry under way.
    pub fn new() -> (r: Self)
        ensures
            r.well_formed(),
            r.input() == None::<Seq<char>>,
    {
        AutomatonRuleBuilder { builder: None }
    }

    /// Take the digit `c`. It starts an entry when none is under way, and
    /// extends the entry when it holds fewer than `MAX_RULE_DIGITS` digits;
    /// otherwise the input can no longer denote a rule and the entry is
    /// abandoned. Answer what to do with the grace timer.
    pub fn push_digit(&mut self, c: char) -> (r: EntryTimer)
        requires
            old(self).well_formed(),
            is_decimal_digit(c),
        ensures
            final(self).well_formed(),
            old(self).input() is None ==> r == EntryTimer::Start && final(self).input() == Some(
                seq![c],
            ),
            old(self).input() is Some && old(self).input()->0.len() < MAX_RULE_DIGITS ==> r
                == EntryTimer::Reset && final(self).input() == Some(old(self).input()->0.push(c)),
            old(self).input() is Some && old(self).input()->0.len() >= MAX_RULE_DIGITS ==> r
                == EntryTimer::Cancel && final(self).input() == None::<Seq<char>>,
    {
        let taken = self.builder.take();
        match taken {
            None => {
                let mut text = String::new();
                push_char(&mut text, c);
                self.builder = Some(text);
                assert(self.input()->0 =~= seq![c]);
                EntryTimer::Start
            },
            Some(mut text) => {
                if text.as_str().unicode_len() < MAX_RULE_DIGITS {
                    push_char(&mut text, c);
                    self.builder = Some(text);
                    EntryTimer::Reset
                } else {
                    EntryTimer::Cancel
                }
            },
        }
    }

    /// Answer the digits typed so far, if an entry is under way.
    pub fn buffered_input(&self) -> (r: Option<&str>)
        ensures
            r is None <==> self.input() is None,
            r is Some ==> r->0@ == self.input()->0,
    {
        match &self.builder {
            Some(text) => Some(text.as_str()),
            None => None,
        }
    }

    /// Answer the rule that the digits typed so far denote, if any.
    pub fn pending_rule(&self) -> (r: Option<AutomatonRule>)
        requires
            self.well_formed(),
        ensures
            r == self.pending_rule_spec(),
    {
        match &self.builder {
            Some(text) => decode_rule(text.as_str()),
            None => None,
        }
    }

    /// End the entry, as its grace period has expired, and answer the rule
    /// that its digits denote, if any.
    pub fn new_rule(&mut self) -> (r: Option<AutomatonRule>)
        requires
            old(self).well_formed(),
        ensures
            r == old(self).pending_rule_spec(),
            final(self).well_formed(),
            final(self).input() == None::<Seq<char>>,
    {
        let r = self.pending_rule();
        self.builder = None;
        r
    }
}

/// Decode one to `MAX_RULE_DIGITS` decimal digits as the Wolfram code of a
/// rule; answer nothing when their value does not fit a byte.
pub fn decode_rule(digits: &str) -> (r: Option<AutomatonRule>)
    requires
        1 <= digits@.len() <= MAX_RULE_DIGITS,
        forall|i: int| 0 <= i < digits@.len() ==> is_decimal_digit(#[trigger] digits@[i]),
    ensures
        r == (if numeral_value(digits@) <= 255 {
            Some(AutomatonRule::from_code(numeral_value(digits@) as u8))
        } else {
            None
        }),
{
    let n = digits.unicode_len();
    let mut value: u32 = 0;
    let mut i: usize = 0;
    while i < n
        invariant
            n == digits@.len(),
            n <= MAX_RULE_DIGITS,
            i <= n,
            forall|j: int| 0 <= j < digits@.len() ==> is_decimal_digit(#[trigger] digits@[j]),
            value as nat == numeral_value(digits@.take(i as int)),
            i == 0 ==> value < 1,
            i == 1 ==> value < 10,
            i == 2 ==> value < 100,
            i == 3 ==> value < 1000,
        decreases n - i,
    {
        let c = digits.get_char(i);
        let d = (c as u32) - ('0' as u32);
        assert(digits@.take(i + 1).drop_last() =~= digits@.take(i as int));
        value = value * 10 + d;
        i = i + 1;
    }
    assert(digits@.take(n as int) =~= digits@);
    if value <= 255 {
        Some(AutomatonRule::from(value as u8))
    } else {
        None
    }
}

} // verus!
