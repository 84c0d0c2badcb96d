//! The matchup table: a named, immutable relation of pairwise win-rates.

use vstd::prelude::*;

verus! {

/// A named, immutable relation of pairwise win-rates among a fixed set of
/// entities.
///
/// Win-rates are probabilities in thousandths: `500` stands for an even
/// matchup. `rates[i][j]` is entity `i`'s win-rate against entity `j`;
/// `None` marks a missing pairing, which the solver treats as an absent
/// opponent. An entity never plays itself, so the constructor leaves the
/// diagonal empty.
pub struct MatchupTable {
    /// Optional display label, carried through to the solve result.
    pub label: Option<String>,
    /// Entity names, one per row and column index.
    pub entities: Vec<String>,
    /// Per-entity win-rates against each opponent index, in thousandths.
    pub rates: Vec<Vec<Option<u32>>>,
}

impl MatchupTable {
    /// The win-rate rows as mathematical sequences.
    pub open spec fn rows(self) -> Seq<Seq<Option<u32>>> {
        self.rates@.map_values(|row: Vec<Option<u32>>| row@)
    }

    /// A table is square with a silent diagonal: one row per entity, one
    /// entry per opponent, and no self-entry.
    pub open spec fn wf(self) -> bool {
        &&& self.rates@.len() == self.entities@.len()
        &&& forall|i: int|
            0 <= i < self.rates@.len() ==> (#[trigger] self.rows()[i]).len()
                == self.entities@.len()
        &&& forall|i: int| 0 <= i < self.rates@.len() ==> (#[trigger] self.rows()[i])[i] is None
    }

    /// Number of entities in the table.
    pub fn entity_count(&self) -> (n: usize)
        ensures
            n == self.entities@.len(),
    {
        self.entities.len()
    }

    /// Name of entity `i`.
    pub fn entity(&self, i: usize) -> (name: &String)
        requires
            i < self.entities@.len(),
        ensures
            name == self.entities@[i as int],
    {
        &self.entities[i]
    }

    /// Position of the first entity with the given name, or `None` when no
    /// entity bears it.
    pub fn index_of(&self, name: &String) -> (r: Option<usize>)
        ensures
            match r {
                Some(i) => i < self.entities@.len() && self.entities@[i as int]@ == name@
                    && forall|k: int| 0 <= k < i ==> (#[trigger] self.entities@[k])@ != name@,
                None => forall|k: int|
                    0 <= k < self.entities@.len() ==> (#[trigger] self.entities@[k])@ != name@,
            },
    {
        let mut i: usize = 0;
        while i < self.entities.len()
            invariant
                i <= self.entities@.len(),
                forall|k: int| 0 <= k < i ==> (#[trigger] self.entities@[k])@ != name@,
            decreases self.entities@.len() - i,
        {
            if self.entities[i] == *name {
                return Some(i);
            }
            i += 1;
        }
        None
    }

    /// Entity `i`'s recorded win-rate against entity `j`, in thousandths,
    /// or `None` where that pairing is absent.
    pub fn rate(&self, i: usize, j: usize) -> (r: Option<u32>)
        requires
            i < self.rates@.len(),
            j < self.rows()[i as int].len(),
        ensures
            r == self.rows()[i as int][j as int],
    {
        self.rates[i][j]
    }
}

/// Row `i` of a table built from a raw win-rate matrix: the diagonal entry
/// and every pairing the matrix does not cover are absent.
pub open spec fn built_row(i: int, n: int, data: Seq<Seq<u32>>) -> Seq<Option<u32>> {
    Seq::new(
        n as nat,
        |j: int|
            if i == j {
                None
            } else if i < data.len() && j < data[i].len() {
                Some(data[i][j])
            } else {
                None
            },
    )
}

/// All rows of a table built from a raw win-rate matrix.
pub open spec fn built_rows(n: int, data: Seq<Seq<u32>>) -> Seq<Seq<Option<u32>>> {
    Seq::new(n as nat, |i: int| built_row(i, n, data))
}

/// Build a table from entity names and a raw win-rate matrix, as an
/// external data source hands them over: `data[i][j]` is entity `i`'s
/// win-rate against entity `j` in thousandths. Diagonal values are
/// discarded (an entity never plays itself), and rows that are missing or
/// too short simply leave those pairings absent.
pub fn build(label: Option<String>, entities: Vec<String>, data: Vec<Vec<u32>>) -> (t:
    MatchupTable)
    ensures
        t.label == label,
        t.entities == entities,
        t.rows() == built_rows(entities@.len() as int, data@.map_values(|r: Vec<u32>| r@)),
        t.wf(),
{
    let ghost dv = data@.map_values(|r: Vec<u32>| r@);
    let n = entities.len();
    let mut rates: Vec<Vec<Option<u32>>> = Vec::new();
    let mut i: usize = 0;
    while i < n
        invariant
            i <= n,
            n == entities@.len(),
            dv == data@.map_values(|r: Vec<u32>| r@),
            rates@.len() == i,
            forall|k: int| 0 <= k < i ==> (#[trigger] rates@[k])@ == built_row(k, n as int, dv),
        decreases n - i,
    {
        let mut row: Vec<Option<u32>> = Vec::new();
        let mut j: usize = 0;
        while j < n
            invariant
                j <= n,
                i < n,
                n == entities@.len(),
                dv == data@.map_values(|r: Vec<u32>| r@),
                row@.len() == j,
                forall|l: int|
                    0 <= l < j ==> (#[trigger] row@[l]) == built_row(i as int, n as int, dv)[l],
            decreases n - j,
        {
            if j == i {
                row.push(None);
            } else if i < data.len() {
                let drow = &data[i];
                if j < drow.len() {
                    row.push(Some(drow[j]));
                } else {
                    row.push(None);
                }
            } else {
                row.push(None);
            }
            j += 1;
        }
        proof {
            assert(row@ =~= built_row(i as int, n as int, dv));
        }
        rates.push(row);
        i += 1;
    }
    let t = MatchupTable { label, entities, rates };
    proof {
        assert(t.rows() =~~= built_rows(n as int, dv));
    }
    t
}

} // verus!
