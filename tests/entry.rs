use automata::{decode_rule, AutomatonRule, AutomatonRuleBuilder, EntryTimer};

#[test]
fn digits_build_a_rule() {
    let mut builder = AutomatonRuleBuilder::new();
    assert_eq!(builder.buffered_input(), None);
    assert_eq!(builder.push_digit('1'), EntryTimer::Start);
    assert_eq!(builder.push_digit('1'), EntryTimer::Reset);
    assert_eq!(builder.push_digit('0'), EntryTimer::Reset);
    assert_eq!(builder.buffered_input(), Some("110"));
    assert_eq!(builder.pending_rule(), Some(AutomatonRule::from(110)));
    assert_eq!(builder.new_rule(), Some(AutomatonRule::from(110)));
    assert_eq!(builder.buffered_input(), None);
    assert_eq!(builder.new_rule(), None);
}

#[test]
fn a_fourth_digit_abandons_the_entry() {
    let mut builder = AutomatonRuleBuilder::new();
    builder.push_digit('1');
    builder.push_digit('2');
    builder.push_digit('3');
    assert_eq!(builder.push_digit('4'), EntryTimer::Cancel);
    assert_eq!(builder.buffered_input(), None);
    assert_eq!(builder.push_digit('7'), EntryTimer::Start);
    assert_eq!(builder.new_rule(), Some(AutomatonRule::from(7)));
}

#[test]
fn a_value_beyond_a_byte_is_no_rule() {
    let mut builder = AutomatonRuleBuilder::new();
    builder.push_digit('3');
    builder.push_digit('0');
    builder.push_digit('0');
    assert_eq!(builder.pending_rule(), None);
    assert_eq!(builder.new_rule(), None);
    assert_eq!(builder.buffered_input(), None);
}

#[test]
fn decode_rule_reads_decimal_digits() {
    assert_eq!(decode_rule("0"), Some(AutomatonRule::from(0)));
    assert_eq!(decode_rule("007"), Some(AutomatonRule::from(7)));
    assert_eq!(decode_rule("255"), Some(AutomatonRule::from(255)));
    assert_eq!(decode_rule("256"), None);
    assert_eq!(decode_rule("999"), None);
}
