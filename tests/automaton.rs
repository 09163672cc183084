use automata::{compute_ordinal, Automaton, AutomatonRule, IndexError};

fn cells<const K: usize>(a: &Automaton<K>) -> Vec<bool> {
    a.iter().copied().collect()
}

#[test]
fn rule_30() {
    //     XX•X••••X••X•••X•••••X••••••XX
    let automaton = Automaton::<30>::from(0x34244103);
    //     •••XX••XXXXXX•XXX•••XXX••••XX•
    let expected = Automaton::<30>::from(0x067EE386);
    let actual = automaton.next(30.into());
    assert_eq!(expected, actual);
}

#[test]
fn rule_110() {
    //     XX•X••••X••X•••X•••••X••••••XX
    let automaton = Automaton::<30>::from(0x34244103);
    //     •XXX•••XX•XX••XX••••XX•••••XX•
    let expected = Automaton::<30>::from(0x1C6CC306);
    let actual = automaton.next(110.into());
    assert_eq!(expected, actual);
}

#[test]
fn next_cell_follows_the_bits_of_the_code() {
    let rule = AutomatonRule::from(110);
    let expected = [false, true, true, true, false, true, true, false];
    for ordinal in 0..8u8 {
        assert_eq!(rule.next_cell(ordinal), expected[ordinal as usize]);
    }
    let all = AutomatonRule::from(255);
    let none = AutomatonRule::from(0);
    for ordinal in 0..8u8 {
        assert!(all.next_cell(ordinal));
        assert!(!none.next_cell(ordinal));
    }
}

#[test]
fn ordinal_weights_left_middle_right() {
    assert_eq!(compute_ordinal(false, false, false), 0);
    assert_eq!(compute_ordinal(false, false, true), 1);
    assert_eq!(compute_ordinal(false, true, false), 2);
    assert_eq!(compute_ordinal(true, false, false), 4);
    assert_eq!(compute_ordinal(true, false, true), 5);
    assert_eq!(compute_ordinal(true, true, true), 7);
}

#[test]
fn rule_renders_its_code() {
    assert_eq!(AutomatonRule::from(110).to_string(), "Rule #110");
    assert_eq!(AutomatonRule::from(0).to_string(), "Rule #0");
    assert_eq!(AutomatonRule::from(255).to_string(), "Rule #255");
    assert_eq!(AutomatonRule::from(30).code(), 30);
}

#[test]
fn new_and_default_are_vacant() {
    let a = Automaton::<5>::new();
    assert_eq!(cells(&a), vec![false; 5]);
    assert_eq!(Automaton::<5>::default(), a);
    assert_eq!(Automaton::<5>::from(0), a);
}

#[test]
fn from_reads_low_bits_and_ignores_high_bits() {
    let a = Automaton::<4>::from(0b1010);
    assert_eq!(cells(&a), vec![false, true, false, true]);
    let high = Automaton::<4>::from(0xF0);
    assert_eq!(high, Automaton::<4>::new());
    let full = Automaton::<64>::from(u64::MAX);
    assert_eq!(cells(&full), vec![true; 64]);
    let top = Automaton::<64>::from(1u64 << 63);
    assert_eq!(top.get(63), Ok(true));
    assert_eq!(top.get(62), Ok(false));
}

#[test]
fn next_is_deterministic() {
    let a = Automaton::<30>::from(0x34244103);
    let rule = AutomatonRule::from(90);
    let first = a.next(rule);
    let second = a.next(rule);
    assert_eq!(first, second);
    assert_eq!(a, Automaton::<30>::from(0x34244103));
}

#[test]
fn next_updates_all_cells_at_once() {
    // Updating cells in place from index 0 upwards would give all vacant
    // cells here; the synchronous update gives cells 1 and 4.
    let a = Automaton::<5>::from(0b00001);
    let actual = a.next(AutomatonRule::from(90));
    assert_eq!(actual, Automaton::<5>::from(0b10010));
}

#[test]
fn next_wraps_around_the_ends() {
    // Rule 2 moves each occupied cell one place to the left (up an index).
    let rule = AutomatonRule::from(2);
    let a = Automaton::<5>::from(0b10000);
    assert_eq!(a.next(rule), Automaton::<5>::from(0b00001));
    let b = Automaton::<5>::from(0b00001);
    assert_eq!(b.next(rule), Automaton::<5>::from(0b00010));
}

#[test]
fn iter_runs_from_cell_zero() {
    let a = Automaton::<6>::from(0b000011);
    let seen = cells(&a);
    assert_eq!(seen.len(), 6);
    assert_eq!(seen, vec![true, true, false, false, false, false]);
    assert_eq!(cells(&a), seen);
}

#[test]
fn rendering_puts_the_leftmost_cell_first() {
    let a = Automaton::<5>::from(0b00011);
    assert_eq!(a.to_string(), "Automaton[5]: •••XX");
    let b = Automaton::<30>::from(0x34244103);
    assert_eq!(b.to_string(), "Automaton[30]: XX•X••••X••X•••X•••••X••••••XX");
}

#[test]
fn rendering_decodes_back_to_the_cells() {
    let a = Automaton::<30>::from(0x34244103);
    let text = a.to_string();
    let glyphs: Vec<char> = text.chars().collect();
    let tail = &glyphs[glyphs.len() - 30..];
    let decoded: Vec<bool> = tail.iter().rev().map(|&c| c == 'X').collect();
    assert_eq!(decoded, cells(&a));
}

#[test]
fn automaton_index_bounds() {
    let mut a = Automaton::<5>::from(0b10000);
    assert_eq!(a.get(4), Ok(true));
    assert_eq!(a.get(5), Err(IndexError::Column(5)));
    assert_eq!(a.set(4, false), Ok(()));
    assert_eq!(a.get(4), Ok(false));
    assert_eq!(a.set(5, true), Err(IndexError::Column(5)));
    assert_eq!(a, Automaton::<5>::new());
}
