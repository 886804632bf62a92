//! The general laws of the pipeline, stated over the same spec functions
//! that the executable functions' contracts use.

use vstd::prelude::*;
use vstd::seq_lib::lemma_multiset_commutative;
use vstd::seq_lib::group_to_multiset_ensures;
use crate::aggregate::{
    Aggregates, agg_matches, cell_qualifies, col_values, lemma_col_values_concat, row_contrib,
};
use crate::synth::{
    column_pairs, display_name, lemma_qa_pairs_len, lemma_qualifying_props, qa_pairs_spec,
    qa_pairs_upto, qualifying_of,
};
use crate::text::{is_numeric_text, trim_spec};

verus! {

/// A column with a qualifying cell in some row collects at least that value.
proof fn lemma_col_values_nonempty(rows: Seq<Seq<Seq<char>>>, idx: int, r: int)
    requires
        0 <= r < rows.len(),
        cell_qualifies(rows[r], idx),
    ensures
        col_values(rows, idx).len() > 0,
    decreases r,
{
    if r == 0 {
        assert(row_contrib(rows.first(), idx).len() == 1);
    } else {
        lemma_col_values_nonempty(rows.drop_first(), idx, r - 1);
    }
}

/// A column with no qualifying cell in any row collects nothing.
proof fn lemma_col_values_empty(rows: Seq<Seq<Seq<char>>>, idx: int)
    requires
        forall|r: int| 0 <= r < rows.len() ==> !cell_qualifies(#[trigger] rows[r], idx),
    ensures
        col_values(rows, idx).len() == 0,
    decreases rows.len(),
{
    if rows.len() > 0 {
        assert(!cell_qualifies(rows[0], idx));
        assert(forall|r: int|
            0 <= r < rows.drop_first().len() ==> !cell_qualifies(
                #[trigger] rows.drop_first()[r],
                idx,
            ));
        lemma_col_values_empty(rows.drop_first(), idx);
    }
}

/// In the synthesized list, the `j`-th qualifying column's three pairs stand
/// exactly at positions `3j`, `3j + 1` and `3j + 2`.
proof fn lemma_qa_pairs_index(
    m: Seq<Seq<Seq<char>>>,
    headers: Seq<Seq<char>>,
    totals: Seq<Seq<char>>,
    avgs: Seq<Seq<char>>,
    k: int,
    j: int,
)
    requires
        0 <= j < k <= qualifying_of(m).len(),
    ensures
        qa_pairs_upto(m, headers, totals, avgs, k).subrange(3 * j, 3 * j + 3) == column_pairs(
            display_name(headers, qualifying_of(m)[j]),
            totals[j],
            avgs[j],
            m[qualifying_of(m)[j]].len() as int,
        ),
    decreases k,
{
    lemma_qa_pairs_len(m, headers, totals, avgs, k - 1);
    let prefix = qa_pairs_upto(m, headers, totals, avgs, k - 1);
    let cp = column_pairs(
        display_name(headers, qualifying_of(m)[k - 1]),
        totals[k - 1],
        avgs[k - 1],
        m[qualifying_of(m)[k - 1]].len() as int,
    );
    if j == k - 1 {
        assert((prefix + cp).subrange(3 * j, 3 * j + 3) =~= cp);
    } else {
        lemma_qa_pairs_index(m, headers, totals, avgs, k - 1, j);
        assert((prefix + cp).subrange(3 * j, 3 * j + 3) =~= prefix.subrange(3 * j, 3 * j + 3));
    }
}

/// A column with at least one non-empty cell, all of whose non-empty cells
/// parse as numeric, qualifies: the synthesized list holds exactly three
/// pairs for it — total, average, and a count answering the number of its
/// numeric rows — and three pairs per qualifying column overall.
pub proof fn lemma_numeric_column_three_pairs(
    rows: Seq<Seq<Seq<char>>>,
    a: Aggregates,
    headers: Seq<Seq<char>>,
    totals: Seq<Seq<char>>,
    avgs: Seq<Seq<char>>,
    idx: int,
)
    requires
        agg_matches(a, rows),
        0 <= idx,
        exists|r: int|
            0 <= r < rows.len() && idx < #[trigger] rows[r].len() && trim_spec(
                rows[r][idx],
            ).len() > 0,
        forall|r: int|
            0 <= r < rows.len() && idx < #[trigger] rows[r].len() && trim_spec(
                rows[r][idx],
            ).len() > 0 ==> is_numeric_text(trim_spec(rows[r][idx])),
    ensures
        qa_pairs_spec(a.model(), headers, totals, avgs).len() == 3 * qualifying_of(
            a.model(),
        ).len(),
        exists|k: int|
            #![auto]
            0 <= k < qualifying_of(a.model()).len() && qualifying_of(a.model())[k] == idx
                && qa_pairs_spec(a.model(), headers, totals, avgs).subrange(3 * k, 3 * k + 3)
                == column_pairs(
                display_name(headers, idx),
                totals[k],
                avgs[k],
                col_values(rows, idx).len() as int,
            ),
{
    let m = a.model();
    let q = qualifying_of(m);
    lemma_qa_pairs_len(m, headers, totals, avgs, q.len() as int);
    let r = choose|r: int|
        0 <= r < rows.len() && idx < #[trigger] rows[r].len() && trim_spec(rows[r][idx]).len() > 0;
    assert(cell_qualifies(rows[r], idx));
    lemma_col_values_nonempty(rows, idx, r);
    assert(idx < m.len()) by {
        if idx >= m.len() {
            assert(col_values(rows, idx) == Seq::<Seq<char>>::empty());
        }
    }
    assert(m[idx] == col_values(rows, idx));
    lemma_qualifying_props(m, m.len() as int);
    assert(q.contains(idx));
    let k = choose|k: int| 0 <= k < q.len() && q[k] == idx;
    lemma_qa_pairs_index(m, headers, totals, avgs, q.len() as int, k);
}

/// A column none of whose cells supplies numeric evidence — every cell
/// empty, non-numeric, or missing — yields no pair at all: it is not among
/// the qualifying columns, and the list's length counts only those.
pub proof fn lemma_non_numeric_column_yields_nothing(
    rows: Seq<Seq<Seq<char>>>,
    a: Aggregates,
    headers: Seq<Seq<char>>,
    totals: Seq<Seq<char>>,
    avgs: Seq<Seq<char>>,
    idx: int,
)
    requires
        agg_matches(a, rows),
        forall|r: int| 0 <= r < rows.len() ==> !cell_qualifies(#[trigger] rows[r], idx),
    ensures
        !qualifying_of(a.model()).contains(idx),
        qa_pairs_spec(a.model(), headers, totals, avgs).len() == 3 * qualifying_of(
            a.model(),
        ).len(),
{
    let m = a.model();
    lemma_col_values_empty(rows, idx);
    lemma_qualifying_props(m, m.len() as int);
    if qualifying_of(m).contains(idx) {
        assert(m[idx] == col_values(rows, idx));
    }
    lemma_qa_pairs_len(m, headers, totals, avgs, qualifying_of(m).len() as int);
}

/// A table with no numeric cell anywhere has no qualifying column at all:
/// the synthesizer then reports `NoNumericColumns` rather than an empty
/// success.
pub proof fn lemma_no_numeric_columns(rows: Seq<Seq<Seq<char>>>, a: Aggregates)
    requires
        agg_matches(a, rows),
        forall|r: int, idx: int|
            0 <= r < rows.len() ==> !#[trigger] cell_qualifies(rows[r], idx),
    ensures
        qualifying_of(a.model()).len() == 0,
{
    let m = a.model();
    if m.len() > 0 {
        let last = m.len() - 1;
        lemma_col_values_empty(rows, last as int);
        assert(m[last] == col_values(rows, last as int));
    }
}

/// Aggregation is a function of the rows alone: two aggregate states that
/// both match the same rows are the same state.  Together with the
/// contracts that pin every other stage's result to its inputs, running the
/// pipeline twice over the same data yields identical output.
pub proof fn lemma_aggregation_deterministic(
    rows: Seq<Seq<Seq<char>>>,
    a1: Aggregates,
    a2: Aggregates,
)
    requires
        agg_matches(a1, rows),
        agg_matches(a2, rows),
    ensures
        a1.model() == a2.model(),
{
    let m1 = a1.model();
    let m2 = a2.model();
    assert(m1.len() == m2.len()) by {
        if m1.len() < m2.len() {
            assert(col_values(rows, m2.len() - 1) == Seq::<Seq<char>>::empty());
            assert(m2[m2.len() - 1] == col_values(rows, m2.len() - 1));
        }
        if m2.len() < m1.len() {
            assert(col_values(rows, m1.len() - 1) == Seq::<Seq<char>>::empty());
            assert(m1[m1.len() - 1] == col_values(rows, m1.len() - 1));
        }
    }
    assert forall|i: int| 0 <= i < m1.len() implies m1[i] == m2[i] by {
        assert(m1[i] == col_values(rows, i));
        assert(m2[i] == col_values(rows, i));
    }
    assert(m1 =~= m2);
}

/// Permuting the data rows changes no column's collected values, up to
/// order: each column gathers the same multiset of numeric texts, and so in
/// particular the same count.
pub proof fn lemma_row_order_independent(
    rows1: Seq<Seq<Seq<char>>>,
    rows2: Seq<Seq<Seq<char>>>,
    idx: int,
)
    requires
        rows1.to_multiset() == rows2.to_multiset(),
    ensures
        col_values(rows1, idx).to_multiset() == col_values(rows2, idx).to_multiset(),
        col_values(rows1, idx).len() == col_values(rows2, idx).len(),
    decreases rows1.len(),
{
    broadcast use group_to_multiset_ensures;
    broadcast use vstd::multiset::group_multiset_axioms;

    vstd::seq_lib::to_multiset_len(rows1);
    vstd::seq_lib::to_multiset_len(rows2);
    if rows1.len() == 0 {
        assert(rows2.len() == 0);
    } else {
        let x = rows1[0];
        assert(rows1.contains(x));
        assert(rows1.to_multiset().count(x) > 0);
        assert(rows2.contains(x));
        let j = choose|j: int| 0 <= j < rows2.len() && rows2[j] == x;
        let rest1 = rows1.drop_first();
        let rest2 = rows2.remove(j);
        assert(rows1.remove(0) =~= rest1);
        assert(rest1.to_multiset() == rows1.to_multiset().remove(x));
        assert(rest2.to_multiset() == rows2.to_multiset().remove(x));
        lemma_row_order_independent(rest1, rest2, idx);
        // rows2 splits around position j; col_values distributes over the
        // split, and multisets forget the order of the parts.
        let left = rows2.subrange(0, j);
        let right = rows2.subrange(j + 1, rows2.len() as int);
        assert(rows2 =~= left + (seq![x] + right));
        assert(rest2 =~= left + right);
        lemma_col_values_concat(left, seq![x] + right, idx);
        lemma_col_values_concat(seq![x], right, idx);
        lemma_col_values_concat(left, right, idx);
        assert(seq![x].drop_first() =~= Seq::<Seq<Seq<char>>>::empty());
        assert(col_values(seq![x], idx) == row_contrib(x, idx) + col_values(
            seq![x].drop_first(),
            idx,
        ));
        assert(col_values(seq![x], idx) =~= row_contrib(x, idx));
        lemma_multiset_commutative(col_values(left, idx), row_contrib(x, idx) + col_values(right, idx));
        lemma_multiset_commutative(row_contrib(x, idx), col_values(right, idx));
        lemma_multiset_commutative(col_values(left, idx), col_values(right, idx));
        assert(col_values(rows1, idx) =~= row_contrib(x, idx) + col_values(rest1, idx));
        lemma_multiset_commutative(row_contrib(x, idx), col_values(rest1, idx));
        assert(col_values(rows2, idx).to_multiset() =~= col_values(rows1, idx).to_multiset());
        assert(col_values(rows1, idx).len() == col_values(rows1, idx).to_multiset().len());
        assert(col_values(rows2, idx).len() == col_values(rows2, idx).to_multiset().len());
    }
}

} // verus!
