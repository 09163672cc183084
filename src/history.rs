use vstd::prelude::*;

use crate::automaton::{lemma_automaton_len, successor, vacant_cells, Automaton, IndexError};
use crate::rule::AutomatonRule;

verus! {

broadcast use lemma_automaton_len;

/// The generations that follow `generations` after one step under `rule`:
/// the oldest is dropped and the successor of the newest is appended.
pub open spec fn evolved(generations: Seq<Seq<bool>>, rule: AutomatonRule) -> Seq<Seq<bool>> {
    generations.drop_first().push(successor(generations.last(), rule))
}

/// The generations after `steps` steps of `rule` from `generations`.
pub open spec fn evolved_steps(generations: Seq<Seq<bool>>, rule: AutomatonRule, steps: nat) -> Seq<
    Seq<bool>,
>
    decreases steps,
{
    if steps == 0 {
        generations
    } else {
        evolved(evolved_steps(generations, rule, (steps - 1) as nat), rule)
    }
}

/// `n` vacant generations of `k` cells.
pub open spec fn vacant_history(k: nat, n: nat) -> Seq<Seq<bool>> {
    Seq::new(n, |i: int| vacant_cells(k))
}

/// The last `N` generations of a cellular automaton of `K` cells, from the
/// oldest (row `0`) to the newest (row `N - 1`). A history is always full:
/// appending a generation forgets the oldest.
#[derive(Debug)]
pub struct History<const K: usize, const N: usize> {
    /// The stored generations, a ring that starts at `start`.
    slots: Vec<Automaton<K>>,
    /// The slot of the oldest generation.
    start: usize,
}

impl<const K: usize, const N: usize> History<K, N> {
    /// The history is a ring of `N` slots, `N >= 1`, of automata of at least
    /// three cells, and its oldest generation lies in one of them.
    pub closed spec fn well_formed(self) -> bool {
        &&& K >= 3
        &&& N >= 1
        &&& self.slots@.len() == N
        &&& self.start < N
    }

    /// The slot that holds row `row`.
    spec fn slot(self, row: int) -> int {
        if self.start + row < N {
            self.start + row
        } else {
            self.start + row - N
        }
    }

    /// Compute the slot that holds row `row`.
    fn slot_of(&self, row: usize) -> (r: usize)
        requires
            self.well_formed(),
            row < N,
        ensures
            r as int == self.slot(row as int),
            r < N,
    {
        if row < N - self.start {
            self.start + row
        } else {
            row - (N - self.start)
        }
    }
}

impl<const K: usize, const N: usize> View for History<K, N> {
    type V = Seq<Seq<bool>>;

    closed spec fn view(&self) -> Seq<Seq<bool>> {
        Seq::new(N as nat, |row: int| self.slots@[self.slot(row)]@)
    }
}

impl<const K: usize, const N: usize> History<K, N> {
    /// A well-formed history holds `N >= 1` generations of `K >= 3` cells each.
    pub proof fn lemma_capacity(&self)
        requires
            self.well_formed(),
        ensures
            self@.len() == N,
            N >= 1,
            K >= 3,
            forall|row: int| 0 <= row < N ==> #[trigger] self@[row].len() == K,
    {
    }

    /// Construct a history of `N` vacant generations.
    pub fn new() -> (r: Self)
        requires
            K >= 3,
            N >= 1,
        ensures
            r.well_formed(),
            r@ == vacant_history(K as nat, N as nat),
    {
        let mut slots: Vec<Automaton<K>> = Vec::new();
        let mut i: usize = 0;
        while i < N
            invariant
                i <= N,
                slots@.len() == i,
                forall|j: int| 0 <= j < i ==> #[trigger] slots@[j]@ == vacant_cells(K as nat),
            decreases N - i,
        {
            slots.push(Automaton::new());
            i = i + 1;
        }
        let r = History { slots, start: 0 };
        assert(r@ =~= vacant_history(K as nat, N as nat));
        r
    }

    /// Construct a history whose newest generation is `seed` and whose other
    /// generations are vacant.
    pub fn from(seed: Automaton<K>) -> (r: Self)
        requires
            K >= 3,
            N >= 1,
        ensures
            r.well_formed(),
            r@ == vacant_history(K as nat, N as nat).update(N - 1, seed@),
    {
        let mut history = Self::new();
        history.replace(seed);
        history
    }

    /// Answer the newest generation.
    pub fn newest(&self) -> (r: &Automaton<K>)
        requires
            self.well_formed(),
        ensures
            r@ == self@.last(),
    {
        let slot = self.slot_of(N - 1);
        &self.slots[slot]
    }

    /// Answer the oldest generation.
    pub fn oldest(&self) -> (r: &Automaton<K>)
        requires
            self.well_formed(),
        ensures
            r@ == self@[0],
    {
        let slot = self.slot_of(0);
        &self.slots[slot]
    }

    /// Overwrite the newest generation with `replacement`. Nothing is
    /// forgotten: the other generations stay as they were.
    pub fn replace(&mut self, replacement: Automaton<K>)
        requires
            old(self).well_formed(),
        ensures
            final(self).well_formed(),
            final(self)@ == old(self)@.update(N - 1, replacement@),
    {
        let slot = self.slot_of(N - 1);
        self.slots.set(slot, replacement);
        assert(self@ =~= old(self)@.update(N - 1, replacement@));
    }

    /// Append the successor of the newest generation under `rule`, which
    /// forgets the oldest generation.
    pub fn evolve(&mut self, rule: AutomatonRule)
        requires
            old(self).well_formed(),
        ensures
            final(self).well_formed(),
            final(self)@ == evolved(old(self)@, rule),
    {
        let next = self.newest().next(rule);
        let slot = self.start;
        self.slots.set(slot, next);
        self.start = if slot + 1 == N {
            0
        } else {
            slot + 1
        };
        assert(self@ =~= evolved(old(self)@, rule));
    }

    /// Answer the generations, from the oldest to the newest.
    pub fn iter(&self) -> (r: Vec<Automaton<K>>)
        requires
            self.well_formed(),
        ensures
            r@.len() == N,
            forall|row: int| 0 <= row < N ==> #[trigger] r@[row]@ == self@[row],
    {
        let mut r: Vec<Automaton<K>> = Vec::new();
        let mut row: usize = 0;
        while row < N
            invariant
                self.well_formed(),
                row <= N,
                r@.len() == row,
                forall|j: int| 0 <= j < row ==> #[trigger] r@[j]@ == self@[j],
            decreases N - row,
        {
            let slot = self.slot_of(row);
            r.push(self.slots[slot]);
            row = row + 1;
        }
        r
    }

    /// Answer the generation of row `row` (row `0` is the oldest), or an
    /// error when `row` is not below `N`.
    pub fn get(&self, row: usize) -> (r: Result<Automaton<K>, IndexError>)
        requires
            self.well_formed(),
        ensures
            row < N ==> r is Ok && r->Ok_0@ == self@[row as int],
            row >= N ==> r == Err::<Automaton<K>, IndexError>(IndexError::Row(row)),
    {
        if row < N {
            let slot = self.slot_of(row);
            Ok(self.slots[slot])
        } else {
            Err(IndexError::Row(row))
        }
    }

    /// Answer the occupancy of cell `column` of the generation of row `row`,
    /// or an error when `row` is not below `N` or, failing that, `column` is
    /// not below `K`.
    pub fn cell(&self, row: usize, column: usize) -> (r: Result<bool, IndexError>)
        requires
            self.well_formed(),
        ensures
            row >= N ==> r == Err::<bool, IndexError>(IndexError::Row(row)),
            row < N && column >= K ==> r == Err::<bool, IndexError>(IndexError::Column(column)),
            row < N && column < K ==> r == Ok::<bool, IndexError>(
                self@[row as int][column as int],
            ),
    {
        if row >= N {
            return Err(IndexError::Row(row));
        }
        let slot = self.slot_of(row);
        self.slots[slot].get(column)
    }

    /// Set cell `column` of the generation of row `row` to `value`, or answer
    /// an error, and change nothing, when `row` is not below `N` or, failing
    /// that, `column` is not below `K`.
    pub fn set_cell(&mut self, row: usize, column: usize, value: bool) -> (r: Result<
        (),
        IndexError,
    >)
        requires
            old(self).well_formed(),
        ensures
            final(self).well_formed(),
            row >= N ==> r == Err::<(), IndexError>(IndexError::Row(row)),
            row < N && column >= K ==> r == Err::<(), IndexError>(IndexError::Column(column)),
            row < N && column < K ==> r is Ok,
            r is Ok ==> final(self)@ == old(self)@.update(
                row as int,
                old(self)@[row as int].update(column as int, value),
            ),
            r is Err ==> final(self)@ == old(self)@,
    {
        if row >= N {
            return Err(IndexError::Row(row));
        }
        if column >= K {
            return Err(IndexError::Column(column));
        }
        let slot = self.slot_of(row);
        let mut generation = self.slots[slot];
        let r = generation.set(column, value);
        self.slots.set(slot, generation);
        assert(self@ =~= old(self)@.update(
            row as int,
            old(self)@[row as int].update(column as int, value),
        ));
        r
    }
}

/// Evolving a history never changes how many generations it holds. After
/// `steps <= N` evolutions the generations that were there before still
/// stand, in order, in the rows below `N - steps`, and the first computed
/// generation, the successor of the former newest, stands at row
/// `N - steps`. So after `N` evolutions the oldest generation is that
/// successor: every generation of the start has been forgotten.
pub proof fn lemma_eviction<const K: usize, const N: usize>(
    history: History<K, N>,
    rule: AutomatonRule,
    steps: nat,
)
    requires
        history.well_formed(),
        steps <= N,
    ensures
        evolved_steps(history@, rule, steps).len() == N,
        forall|row: int|
            0 <= row < N - steps ==> #[trigger] evolved_steps(history@, rule, steps)[row]
                == history@[row + steps],
        steps >= 1 ==> evolved_steps(history@, rule, steps)[N - steps] == successor(
            history@.last(),
            rule,
        ),
    decreases steps,
{
    if steps > 0 {
        lemma_eviction(history, rule, (steps - 1) as nat);
        let before = evolved_steps(history@, rule, (steps - 1) as nat);
        let after = evolved_steps(history@, rule, steps);
        assert(after == evolved(before, rule));
        assert forall|row: int| 0 <= row < N - steps implies #[trigger] after[row] == history@[row
            + steps] by {
            assert(after[row] == before[row + 1]);
        }
    }
}

/// A history made from a seed answers that seed as its newest generation,
/// and still holds `N` generations.
pub proof fn lemma_seeded_newest<const K: usize, const N: usize>(seed: Automaton<K>)
    requires
        K >= 3,
        N >= 1,
    ensures
        vacant_history(K as nat, N as nat).update(N - 1, seed@).last() == seed@,
        vacant_history(K as nat, N as nat).update(N - 1, seed@).len() == N,
{
}

} // verus!
