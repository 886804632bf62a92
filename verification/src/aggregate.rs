//! The aggregator: folds each data row into per-column evidence.
//!
//! A column is identified by its zero-based position in a row.  For every
//! cell whose trimmed text parses as a number the column's aggregate records
//! that text, in row order; the count of numeric rows is the number of
//! recorded texts.  Empty and non-numeric cells leave no trace, and a row
//! shorter than others simply contributes nothing to the missing columns.

use vstd::prelude::*;
use crate::text::{is_numeric, is_numeric_text, trim, trim_spec};

verus! {

// ---------------------------------------------------------------------------
// The mathematical model of rows and columns
// ---------------------------------------------------------------------------

pub open spec fn row_view(r: Seq<String>) -> Seq<Seq<char>> {
    r.map_values(|s: String| s@)
}

pub open spec fn rows_view(rs: Seq<Vec<String>>) -> Seq<Seq<Seq<char>>> {
    rs.map_values(|r: Vec<String>| row_view(r@))
}

/// Whether the cell of `row` at `idx` supplies numeric evidence: the cell
/// exists and its trimmed text parses as a number.
pub open spec fn cell_qualifies(row: Seq<Seq<char>>, idx: int) -> bool {
    0 <= idx < row.len() && is_numeric_text(trim_spec(row[idx]))
}

/// What one row adds to the column at `idx`: its trimmed numeric text, or
/// nothing.
pub open spec fn row_contrib(row: Seq<Seq<char>>, idx: int) -> Seq<Seq<char>> {
    if cell_qualifies(row, idx) {
        seq![trim_spec(row[idx])]
    } else {
        Seq::empty()
    }
}

/// The trimmed numeric texts that the column at `idx` collects over all
/// rows, in row order.  Its length is the column's count.
pub open spec fn col_values(rows: Seq<Seq<Seq<char>>>, idx: int) -> Seq<Seq<char>>
    decreases rows.len(),
{
    if rows.len() == 0 {
        Seq::empty()
    } else {
        row_contrib(rows.first(), idx) + col_values(rows.drop_first(), idx)
    }
}

pub proof fn lemma_col_values_push(rows: Seq<Seq<Seq<char>>>, r: Seq<Seq<char>>, idx: int)
    ensures
        col_values(rows.push(r), idx) == col_values(rows, idx) + row_contrib(r, idx),
    decreases rows.len(),
{
    if rows.len() == 0 {
        assert(rows.push(r).drop_first() =~= rows);
        assert(col_values(rows.push(r), idx) =~= col_values(rows, idx) + row_contrib(r, idx));
    } else {
        assert(rows.push(r).drop_first() =~= rows.drop_first().push(r));
        lemma_col_values_push(rows.drop_first(), r, idx);
        assert(col_values(rows.push(r), idx) =~= col_values(rows, idx) + row_contrib(r, idx));
    }
}

pub proof fn lemma_col_values_concat(a: Seq<Seq<Seq<char>>>, b: Seq<Seq<Seq<char>>>, idx: int)
    ensures
        col_values(a + b, idx) == col_values(a, idx) + col_values(b, idx),
    decreases a.len(),
{
    if a.len() == 0 {
        assert(a + b =~= b);
        assert(col_values(a, idx) + col_values(b, idx) =~= col_values(b, idx));
    } else {
        assert((a + b).drop_first() =~= a.drop_first() + b);
        assert((a + b).first() == a.first());
        lemma_col_values_concat(a.drop_first(), b, idx);
        assert(col_values(a + b, idx) =~= col_values(a, idx) + col_values(b, idx));
    }
}

/// The width a single row asks of the aggregate state: one past its last
/// qualifying cell, or zero if none qualifies.
pub open spec fn numeric_width_upto(row: Seq<Seq<char>>, n: int) -> int
    decreases n,
{
    if n <= 0 {
        0
    } else if cell_qualifies(row, n - 1) {
        n
    } else {
        numeric_width_upto(row, n - 1)
    }
}

pub open spec fn numeric_width(row: Seq<Seq<char>>) -> int {
    numeric_width_upto(row, row.len() as int)
}

proof fn lemma_numeric_width_upto(row: Seq<Seq<char>>, n: int)
    requires
        0 <= n <= row.len(),
    ensures
        0 <= numeric_width_upto(row, n) <= n,
        forall|k: int| numeric_width_upto(row, n) <= k < n ==> !cell_qualifies(row, k),
        numeric_width_upto(row, n) > 0 ==> cell_qualifies(row, numeric_width_upto(row, n) - 1),
    decreases n,
{
    if n > 0 {
        lemma_numeric_width_upto(row, n - 1);
    }
}

// ---------------------------------------------------------------------------
// The aggregate state
// ---------------------------------------------------------------------------

/// Per-column evidence: the trimmed numeric texts seen so far, in row order.
pub struct ColumnAggregate {
    pub values: Vec<String>,
}

/// The whole aggregate state: one `ColumnAggregate` per column index, dense
/// from index zero up to the widest column that has supplied evidence.
pub struct Aggregates {
    pub cols: Vec<ColumnAggregate>,
}

impl Aggregates {
    /// The state as a sequence of columns, each a sequence of cell texts.
    pub open spec fn model(self) -> Seq<Seq<Seq<char>>> {
        self.cols@.map_values(|c: ColumnAggregate| c.values@.map_values(|s: String| s@))
    }

    /// The column at `idx`, empty beyond the state's width.
    pub open spec fn col_at(self, idx: int) -> Seq<Seq<char>> {
        if 0 <= idx < self.model().len() {
            self.model()[idx]
        } else {
            Seq::empty()
        }
    }

    pub fn new() -> (r: Aggregates)
        ensures
            r.model() =~= Seq::<Seq<Seq<char>>>::empty(),
    {
        Aggregates { cols: Vec::new() }
    }
}

/// The finished state matches `rows`: every column within its width holds
/// exactly that column's values, nothing lies beyond its width, and the
/// width is minimal.
pub open spec fn agg_matches(a: Aggregates, rows: Seq<Seq<Seq<char>>>) -> bool {
    &&& forall|idx: int|
        0 <= idx < a.model().len() ==> a.model()[idx] == col_values(rows, idx)
    &&& forall|idx: int|
        idx >= a.model().len() ==> col_values(rows, idx) == Seq::<Seq<char>>::empty()
    &&& (a.model().len() == 0 || a.model()[a.model().len() - 1].len() > 0)
}

// ---------------------------------------------------------------------------
// Accumulation
// ---------------------------------------------------------------------------

/// Fold one row of raw fields into the aggregate state.
///
/// Every column gains exactly that row's contribution; the state widens just
/// enough to reach the row's last qualifying cell.  The operation never
/// fails: a fully non-numeric row simply accumulates nothing.
pub fn accumulate(state: &mut Aggregates, record: &Vec<String>)
    ensures
        forall|idx: int| #![auto]
            idx >= 0 ==> final(state).col_at(idx) == old(state).col_at(idx) + row_contrib(
                row_view(record@),
                idx,
            ),
        final(state).cols@.len() == if numeric_width(row_view(record@)) > old(
            state,
        ).cols@.len() {
            numeric_width(row_view(record@))
        } else {
            old(state).cols@.len() as int
        },
{
    let ghost orig: Aggregates = *state;
    let ghost rv: Seq<Seq<char>> = row_view(record@);
    let mut i: usize = 0;
    while i < record.len()
        invariant
            rv == row_view(record@),
            i <= record.len(),
            rv.len() == record.len(),
            forall|idx: int| #![auto]
                0 <= idx < i ==> state.col_at(idx) == orig.col_at(idx) + row_contrib(rv, idx),
            forall|idx: int| #![auto]
                idx >= i ==> state.col_at(idx) == orig.col_at(idx),
            state.cols@.len() == if numeric_width_upto(rv, i as int) > orig.cols@.len() {
                numeric_width_upto(rv, i as int)
            } else {
                orig.cols@.len() as int
            },
        decreases record.len() - i,
    {
        let trimmed = trim(record[i].as_str());
        proof {
            assert(rv[i as int] == record@[i as int]@);
            lemma_numeric_width_upto(rv, i as int);
            lemma_numeric_width_upto(rv, i + 1);
        }
        if is_numeric(trimmed.as_str()) {
            assert(cell_qualifies(rv, i as int));
            assert(orig.cols@.len() <= state.cols@.len());
            if state.cols.len() <= i {
                while state.cols.len() <= i
                    invariant
                        orig.cols@.len() <= state.cols@.len() <= i + 1,
                        forall|idx: int| #![auto]
                            0 <= idx < i ==> state.col_at(idx) == orig.col_at(idx) + row_contrib(
                                rv,
                                idx,
                            ),
                        forall|idx: int| #![auto]
                            idx >= i ==> state.col_at(idx) == orig.col_at(idx),
                    decreases i + 1 - state.cols@.len(),
                {
                    let ghost before = *state;
                    state.cols.push(ColumnAggregate { values: Vec::new() });
                    proof {
                        assert(state.model() =~~= before.model().push(Seq::empty()));
                        assert forall|idx: int| idx >= 0 implies #[trigger] state.col_at(idx)
                            == before.col_at(idx) by {
                            if idx >= before.model().len() {
                                assert(state.col_at(idx) =~= before.col_at(idx));
                            }
                        }
                    }
                }
                assert(state.cols@.len() == i + 1);
            }
            let ghost mid = *state;
            state.cols[i].values.push(trimmed);
            proof {
                assert(state.model() =~~= mid.model().update(
                    i as int,
                    mid.model()[i as int].push(trim_spec(rv[i as int])),
                ));
                assert forall|idx: int| idx >= 0 && idx != i implies #[trigger] state.col_at(idx)
                    == mid.col_at(idx) by {}
                assert(mid.col_at(i as int) == orig.col_at(i as int));
                assert(state.col_at(i as int) =~= orig.col_at(i as int) + row_contrib(
                    rv,
                    i as int,
                ));
                assert(numeric_width_upto(rv, i + 1) == i + 1);
            }
        } else {
            proof {
                assert(!cell_qualifies(rv, i as int));
                assert(row_contrib(rv, i as int) =~= Seq::<Seq<char>>::empty());
                assert(state.col_at(i as int) =~= orig.col_at(i as int) + row_contrib(
                    rv,
                    i as int,
                ));
                assert(numeric_width_upto(rv, i + 1) == numeric_width_upto(rv, i as int));
            }
        }
        i = i + 1;
    }
    proof {
        assert(forall|idx: int| #![auto]
            idx >= rv.len() ==> row_contrib(rv, idx) =~= Seq::<Seq<char>>::empty());
        assert(forall|idx: int| #![auto]
            idx >= 0 ==> state.col_at(idx) == orig.col_at(idx) + row_contrib(rv, idx)) by {
            assert forall|idx: int| idx >= rv.len() implies #[trigger] state.col_at(idx)
                == orig.col_at(idx) + row_contrib(rv, idx) by {
                assert(state.col_at(idx) =~= orig.col_at(idx) + row_contrib(rv, idx));
            }
        }
    }
}

/// Feed every row, in row order, into a fresh aggregate state: the
/// aggregation phase of the pipeline.
pub fn aggregate_rows(rows: &Vec<Vec<String>>) -> (agg: Aggregates)
    ensures
        agg_matches(agg, rows_view(rows@)),
{
    let ghost rsv: Seq<Seq<Seq<char>>> = rows_view(rows@);
    let mut agg = Aggregates::new();
    let mut r: usize = 0;
    while r < rows.len()
        invariant
            rsv == rows_view(rows@),
            r <= rows.len(),
            rsv.len() == rows.len(),
            agg_matches(agg, rsv.take(r as int)),
        decreases rows.len() - r,
    {
        let ghost before = agg;
        let ghost prefix = rsv.take(r as int);
        accumulate(&mut agg, &rows[r]);
        proof {
            assert(row_view(rows@[r as int]@) == rsv[r as int]);
            assert(rsv.take(r + 1) =~= prefix.push(rsv[r as int]));
            lemma_agg_step(before, agg, prefix, rsv[r as int]);
        }
        r = r + 1;
    }
    proof {
        assert(rsv.take(rsv.len() as int) =~= rsv);
    }
    agg
}

/// One `accumulate` step keeps the state matching the processed prefix.
proof fn lemma_agg_step(
    before: Aggregates,
    after: Aggregates,
    prefix: Seq<Seq<Seq<char>>>,
    row: Seq<Seq<char>>,
)
    requires
        agg_matches(before, prefix),
        forall|idx: int| #![auto]
            idx >= 0 ==> after.col_at(idx) == before.col_at(idx) + row_contrib(row, idx),
        after.cols@.len() == if numeric_width(row) > before.cols@.len() {
            numeric_width(row)
        } else {
            before.cols@.len() as int
        },
    ensures
        agg_matches(after, prefix.push(row)),
{
    let rows2 = prefix.push(row);
    assert forall|idx: int| 0 <= idx < after.model().len() implies #[trigger] after.model()[idx]
        == col_values(rows2, idx) by {
        lemma_col_values_push(prefix, row, idx);
        assert(after.model()[idx] == after.col_at(idx));
        if idx < before.model().len() {
            assert(before.col_at(idx) == col_values(prefix, idx));
        } else {
            assert(col_values(prefix, idx) == Seq::<Seq<char>>::empty());
            assert(before.col_at(idx) =~= col_values(prefix, idx));
        }
    }
    assert forall|idx: int| idx >= after.model().len() implies #[trigger] col_values(rows2, idx)
        == Seq::<Seq<char>>::empty() by {
        lemma_col_values_push(prefix, row, idx);
        assert(col_values(prefix, idx) == Seq::<Seq<char>>::empty());
        if idx >= 0 {
            lemma_numeric_width_upto(row, row.len() as int);
            assert(!cell_qualifies(row, idx));
            assert(col_values(rows2, idx) =~= Seq::<Seq<char>>::empty());
        } else {
            assert(col_values(rows2, idx) =~= Seq::<Seq<char>>::empty());
        }
    }
    if after.model().len() > 0 {
        let last = after.model().len() - 1;
        assert(after.model()[last] == after.col_at(last));
        if numeric_width(row) > before.cols@.len() {
            lemma_numeric_width_upto(row, row.len() as int);
            assert(cell_qualifies(row, last));
            assert(row_contrib(row, last).len() == 1);
        } else {
            assert(before.model()[last].len() > 0);
            assert(before.col_at(last).len() > 0);
        }
    }
}

} // verus!
