use vstd::prelude::*;

use vstd::std_specs::iter::IteratorSpec;
use vstd::string::StringExecFns;

use crate::rule::{compute_ordinal, ordinal_of, AutomatonRule};
use crate::text::{decimal, decimal_string};

verus! {

/// Whether bit `i` of `value` is set.
pub open spec fn bit_of(value: u64, i: int) -> bool {
    (value as int / vstd::arithmetic::power2::pow2(i as nat) as int) % 2 == 1
}

/// The `k` cells whose occupancy is given by the low `k` bits of `value`:
/// cell `i` is bit `i`.
pub open spec fn cells_of_bits(value: u64, k: nat) -> Seq<bool> {
    Seq::new(k, |i: int| bit_of(value, i))
}

/// `k` vacant cells.
pub open spec fn vacant_cells(k: nat) -> Seq<bool> {
    Seq::new(k, |i: int| false)
}

/// The index of the left neighbor of cell `i` in a ring of `k` cells.
pub open spec fn left_of(i: int, k: int) -> int {
    (i + 1) % k
}

/// The index of the right neighbor of cell `i` in a ring of `k` cells.
pub open spec fn right_of(i: int, k: int) -> int {
    (i + k - 1) % k
}

/// The generation that follows `cells` under `rule`: each cell takes the
/// state that `rule` gives to its neighborhood in `cells`, the two ends of the
/// ring being adjacent.
pub open spec fn successor(cells: Seq<bool>, rule: AutomatonRule) -> Seq<bool> {
    let k = cells.len() as int;
    Seq::new(
        cells.len(),
        |i: int|
            rule.next_cell_spec(
                ordinal_of(cells[left_of(i, k)], cells[i], cells[right_of(i, k)]),
            ),
    )
}

/// The glyph that renders a cell: `X` when occupied, `•` when vacant.
pub open spec fn glyph(cell: bool) -> char {
    if cell {
        'X'
    } else {
        '•'
    }
}

/// The glyphs of `cells`, the leftmost cell (the last index) first.
pub open spec fn glyphs(cells: Seq<bool>) -> Seq<char> {
    Seq::new(cells.len(), |j: int| glyph(cells[cells.len() - 1 - j]))
}

/// Read `n` cells back from the last `n` glyphs of `text`, the leftmost cell
/// first.
pub open spec fn decode_cells(text: Seq<char>, n: nat) -> Seq<bool> {
    Seq::new(n, |i: int| text[text.len() - 1 - i] == 'X')
}

/// The text of an automaton of `cells`: a prefix that gives its length,
/// then one glyph per cell.
pub open spec fn rendering(cells: Seq<bool>) -> Seq<char> {
    "Automaton["@ + decimal(cells.len()) + "]: "@ + glyphs(cells)
}

/// An index that lies outside a history or an automaton.
#[derive(Copy, Clone, Debug, PartialEq, Eq, Structural)]
pub enum IndexError {
    /// A generation index that is not below the history's capacity.
    Row(usize),
    /// A cell index that is not below the automaton's length.
    Column(usize),
}

/// A one-dimensional cellular automaton of `K` cells, each occupied (`true`)
/// or vacant (`false`). Cell `0` is the rightmost and cell `K - 1` the
/// leftmost; the two ends are adjacent.
#[derive(Copy, Clone, Debug)]
pub struct Automaton<const K: usize>([bool; K]);

impl<const K: usize> View for Automaton<K> {
    type V = Seq<bool>;

    closed spec fn view(&self) -> Seq<bool> {
        self.0@
    }
}

/// On a ring of `k` cells, the left neighbor of the leftmost cell is cell
/// `0`, and the right neighbor of cell `0` is the leftmost cell.
proof fn lemma_neighbors(i: int, k: int)
    requires
        0 <= i < k,
    ensures
        left_of(i, k) == if i + 1 == k {
            0
        } else {
            i + 1
        },
        right_of(i, k) == if i == 0 {
            k - 1
        } else {
            i - 1
        },
{
    if i + 1 == k {
        vstd::arithmetic::div_mod::lemma_mod_self_0(k);
    } else {
        vstd::arithmetic::div_mod::lemma_small_mod((i + 1) as nat, k as nat);
    }
    if i == 0 {
        vstd::arithmetic::div_mod::lemma_small_mod((k - 1) as nat, k as nat);
    } else {
        vstd::arithmetic::div_mod::lemma_mod_add_multiples_vanish(i - 1, k);
        vstd::arithmetic::div_mod::lemma_small_mod((i - 1) as nat, k as nat);
    }
}

/// An automaton has exactly `K` cells.
pub broadcast proof fn lemma_automaton_len<const K: usize>(a: Automaton<K>)
    ensures
        #[trigger] a@.len() == K,
{
}

impl<const K: usize> Automaton<K> {
    /// The generation that follows this one under `rule`.
    pub open spec fn next_spec(self, rule: AutomatonRule) -> Seq<bool> {
        successor(self@, rule)
    }

    /// Construct an automaton whose cells are all vacant.
    pub fn new() -> (r: Self)
        ensures
            r@ == vacant_cells(K as nat),
    {
        let r = Automaton([false; K]);
        assert(r@ =~= vacant_cells(K as nat));
        r
    }

    /// Construct an automaton from the low `K` bits of `value`: cell `i` is
    /// occupied when bit `i` is set. Higher bits are ignored.
    pub fn from(value: u64) -> (r: Self)
        requires
            K <= 64,
        ensures
            r@ == cells_of_bits(value, K as nat),
    {
        let mut cells = [false; K];
        let mut i: usize = 0;
        while i < K
            invariant
                K <= 64,
                i <= K,
                cells@.len() == K,
                forall|j: int| 0 <= j < i ==> cells@[j] == bit_of(value, j),
            decreases K - i,
        {
            let shifted = value >> (i as u64);
            proof {
                vstd::bits::lemma_u64_shr_is_div(value, i as u64);
                assert((shifted & 1u64 == 1u64) == (shifted % 2 == 1)) by (bit_vector);
            }
            cells[i] = shifted & 1u64 == 1u64;
            i = i + 1;
        }
        let r = Automaton(cells);
        assert(r@ =~= cells_of_bits(value, K as nat));
        r
    }

    /// Compute the successor of this automaton under `rule`. Every cell of
    /// the result is computed from this generation alone.
    pub fn next(&self, rule: AutomatonRule) -> (r: Self)
        requires
            K >= 3,
        ensures
            r@ == self.next_spec(rule),
    {
        let cells = &self.0;
        let mut next = [false; K];
        let mut i: usize = 0;
        while i < K
            invariant
                K >= 3,
                i <= K,
                next@.len() == K,
                cells@ == self@,
                forall|j: int| 0 <= j < i ==> next@[j] == successor(self@, rule)[j],
            decreases K - i,
        {
            let left = if i + 1 == K {
                0
            } else {
                i + 1
            };
            let right = if i == 0 {
                K - 1
            } else {
                i - 1
            };
            proof {
                lemma_neighbors(i as int, K as int);
            }
            let ordinal = compute_ordinal(cells[left], cells[i], cells[right]);
            next[i] = rule.next_cell(ordinal);
            i = i + 1;
        }
        let r = Automaton(next);
        assert(r@ =~= self.next_spec(rule));
        r
    }

    /// Answer the occupancy of cell `index`, or an error when `index` is not
    /// below `K`.
    pub fn get(&self, index: usize) -> (r: Result<bool, IndexError>)
        ensures
            index < K ==> r == Ok::<bool, IndexError>(self@[index as int]),
            index >= K ==> r == Err::<bool, IndexError>(IndexError::Column(index)),
    {
        if index < K {
            Ok(self.0[index])
        } else {
            Err(IndexError::Column(index))
        }
    }

    /// Set the occupancy of cell `index` to `value`, or answer an error, and
    /// change nothing, when `index` is not below `K`.
    pub fn set(&mut self, index: usize, value: bool) -> (r: Result<(), IndexError>)
        ensures
            index < K ==> r is Ok && final(self)@ == old(self)@.update(index as int, value),
            index >= K ==> r == Err::<(), IndexError>(IndexError::Column(index)),
            index >= K ==> final(self)@ == old(self)@,
    {
        if index < K {
            self.0[index] = value;
            Ok(())
        } else {
            Err(IndexError::Column(index))
        }
    }

    /// Answer an iterator over the cells, from cell `0` (the rightmost) to
    /// cell `K - 1` (the leftmost).
    pub fn iter(&self) -> (r: std::slice::Iter<'_, bool>)
        ensures
            r.remaining().unref() == self@,
    {
        let r = self.0.as_slice().iter();
        assert(r.remaining().unref() =~= self@);
        r
    }

    /// Render the automaton as text: `Automaton[K]: ` followed by one glyph
    /// per cell, `X` for occupied and `•` for vacant, the leftmost cell first.
    pub fn to_string(&self) -> (r: String)
        ensures
            r@ == rendering(self@),
    {
        let mut text = String::from_str("Automaton[");
        let length = decimal_string(K as u64);
        text.append(length.as_str());
        text.append("]: ");
        let ghost prefix = text@;
        let mut j: usize = 0;
        while j < K
            invariant
                j <= K,
                self@.len() == K,
                text@ == prefix + glyphs(self@).take(j as int),
            decreases K - j,
        {
            let cell = self.0[K - 1 - j];
            let glyph_text = if cell {
                "X"
            } else {
                "•"
            };
            proof {
                reveal_strlit("X");
                reveal_strlit("•");
            }
            text.append(glyph_text);
            assert(glyphs(self@).take(j + 1) =~= glyphs(self@).take(j as int).push(glyph(cell)));
            j = j + 1;
        }
        proof {
            reveal_strlit("Automaton[");
            reveal_strlit("]: ");
            assert(glyphs(self@).take(K as int) =~= glyphs(self@));
        }
        text
    }
}

impl<const K: usize> Default for Automaton<K> {
    /// The automaton whose cells are all vacant.
    fn default() -> (r: Self)
        ensures
            r@ == vacant_cells(K as nat),
    {
        Self::new()
    }
}

impl<const K: usize> PartialEq for Automaton<K> {
    /// Two automata are equal when their cells are.
    fn eq(&self, other: &Self) -> (r: bool)
        ensures
            r == (self@ == other@),
    {
        let mut i: usize = 0;
        while i < K
            invariant
                i <= K,
                self@.len() == K,
                other@.len() == K,
                forall|j: int| 0 <= j < i ==> self@[j] == other@[j],
            decreases K - i,
        {
            if self.0[i] != other.0[i] {
                return false;
            }
            i = i + 1;
        }
        assert(self@ =~= other@);
        true
    }
}

impl<const K: usize> vstd::std_specs::cmp::PartialEqSpecImpl for Automaton<K> {
    open spec fn obeys_eq_spec() -> bool {
        true
    }

    open spec fn eq_spec(&self, other: &Self) -> bool {
        self@ == other@
    }
}

impl<const K: usize> Eq for Automaton<K> {

}

/// The successor is a function of the automaton and the rule: two results
/// of `next` on the same automaton and rule are the same automaton.
pub proof fn lemma_next_deterministic<const K: usize>(
    a: Automaton<K>,
    rule: AutomatonRule,
    first: Automaton<K>,
    second: Automaton<K>,
)
    requires
        first@ == a.next_spec(rule),
        second@ == a.next_spec(rule),
    ensures
        first == second,
{
    assert(first.0 =~= second.0);
}

/// Each cell of the successor is computed from the prior generation alone:
/// two generations that agree on the neighborhood of cell `i` give cell `i`
/// the same successor, whatever the other cells hold.
pub proof fn lemma_next_reads_only_neighborhood<const K: usize>(
    a: Automaton<K>,
    b: Automaton<K>,
    rule: AutomatonRule,
    i: int,
)
    requires
        0 <= i < K,
        a@[left_of(i, K as int)] == b@[left_of(i, K as int)],
        a@[i] == b@[i],
        a@[right_of(i, K as int)] == b@[right_of(i, K as int)],
    ensures
        a.next_spec(rule)[i] == b.next_spec(rule)[i],
{
}

/// Reading the glyphs of an automaton built from a bit pattern back as
/// cells gives the cells of that pattern.
pub proof fn lemma_render_round_trip<const K: usize>(value: u64)
    requires
        K <= 64,
    ensures
        decode_cells(rendering(cells_of_bits(value, K as nat)), K as nat) == cells_of_bits(
            value,
            K as nat,
        ),
{
    let cells = cells_of_bits(value, K as nat);
    let text = rendering(cells);
    let g = glyphs(cells);
    let prefix = "Automaton["@ + decimal(K as nat) + "]: "@;
    assert(text == prefix + g);
    assert forall|i: int| 0 <= i < K implies #[trigger] decode_cells(text, K as nat)[i]
        == cells[i] by {
        let j = K - 1 - i;
        assert(text[text.len() - 1 - i] == g[j]);
        assert(g[j] == glyph(cells[i]));
    }
    assert(decode_cells(text, K as nat) =~= cells);
}

} // verus!
