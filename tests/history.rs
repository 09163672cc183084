use automata::{Automaton, AutomatonRule, CellPosition, History, IndexError};

#[test]
fn new_history_is_full_and_vacant() {
    let history = History::<5, 4>::new();
    let generations = history.iter();
    assert_eq!(generations.len(), 4);
    for generation in generations {
        assert_eq!(generation, Automaton::<5>::new());
    }
}

#[test]
fn seeded_history_answers_the_seed_as_newest() {
    let seed = Automaton::<5>::from(0b01101);
    let history = History::<5, 4>::from(seed);
    assert_eq!(*history.newest(), seed);
    assert_eq!(*history.oldest(), Automaton::<5>::new());
    assert_eq!(history.iter().len(), 4);
}

#[test]
fn replace_overwrites_the_newest() {
    let mut history = History::<5, 3>::from(Automaton::from(0b00001));
    let rule = AutomatonRule::from(2);
    history.evolve(rule);
    history.replace(Automaton::from(0b11111));
    let generations = history.iter();
    assert_eq!(generations.len(), 3);
    assert_eq!(generations[0], Automaton::<5>::new());
    assert_eq!(generations[1], Automaton::<5>::from(0b00001));
    assert_eq!(generations[2], Automaton::<5>::from(0b11111));
}

#[test]
fn evolve_appends_the_successor() {
    let seed = Automaton::<30>::from(0x34244103);
    let mut history = History::<30, 3>::from(seed);
    history.evolve(AutomatonRule::from(30));
    assert_eq!(*history.newest(), Automaton::<30>::from(0x067EE386));
    assert_eq!(history.get(1).unwrap(), seed);
}

#[test]
fn evolve_forgets_the_oldest_after_n_steps() {
    let rule = AutomatonRule::from(2);
    let seed = Automaton::<5>::from(0b00001);
    let mut history = History::<5, 3>::from(seed);
    let start = history.iter();
    history.evolve(rule);
    history.evolve(rule);
    // Fewer than N steps: the former generations remain, in order.
    let generations = history.iter();
    assert_eq!(generations[0], start[2]);
    assert_eq!(generations[1], Automaton::<5>::from(0b00010));
    assert_eq!(generations[2], Automaton::<5>::from(0b00100));
    history.evolve(rule);
    // N steps: the oldest is the first computed generation.
    assert_eq!(*history.oldest(), Automaton::<5>::from(0b00010));
    assert_eq!(*history.newest(), Automaton::<5>::from(0b01000));
    assert_eq!(history.iter().len(), 3);
    for _ in 0..7 {
        history.evolve(rule);
        assert_eq!(history.iter().len(), 3);
    }
    assert_eq!(*history.newest(), Automaton::<5>::from(0b00001));
}

#[test]
fn history_index_bounds() {
    let mut history = History::<5, 4>::from(Automaton::from(0b00011));
    assert!(history.get(3).is_ok());
    assert_eq!(history.get(4).unwrap_err(), IndexError::Row(4));
    assert_eq!(history.cell(3, 0), Ok(true));
    assert_eq!(history.cell(3, 4), Ok(false));
    assert_eq!(history.cell(3, 5), Err(IndexError::Column(5)));
    assert_eq!(history.cell(4, 0), Err(IndexError::Row(4)));
    assert_eq!(history.set_cell(0, 2, true), Ok(()));
    assert_eq!(history.cell(0, 2), Ok(true));
    assert_eq!(history.set_cell(4, 2, true), Err(IndexError::Row(4)));
    assert_eq!(history.set_cell(0, 5, true), Err(IndexError::Column(5)));
}

#[test]
fn cell_positions_count_columns_from_the_left() {
    let mut history = History::<5, 4>::from(Automaton::from(0b00011));
    let rightmost = CellPosition { row: 3, column: 4 };
    let leftmost = CellPosition { row: 3, column: 0 };
    assert_eq!(history.cell_at(rightmost), Ok(true));
    assert_eq!(history.cell_at(leftmost), Ok(false));
    assert_eq!(history.set_cell_at(leftmost, true), Ok(()));
    assert_eq!(*history.newest(), Automaton::<5>::from(0b10011));
    assert_eq!(
        history.cell_at(CellPosition { row: 3, column: 5 }),
        Err(IndexError::Column(5))
    );
    assert_eq!(
        history.set_cell_at(CellPosition { row: 4, column: 0 }, true),
        Err(IndexError::Row(4))
    );
}

#[test]
fn cell_position_text_and_newest_row() {
    let position = CellPosition { row: 7, column: 3 };
    assert_eq!(position.to_string(), "(3,7)");
    assert!(!position.is_active_automaton());
    assert!(CellPosition { row: 49, column: 0 }.is_active_automaton());
}
