//! The QA synthesizer: turns the finished aggregates and the header row into
//! an ordered list of question/answer pairs.
//!
//! Columns are visited in increasing index order; each qualifying column
//! (one with at least one numeric cell) yields three pairs — total, average,
//! count — and a column without numeric evidence yields none.  When no
//! column qualifies at all, the synthesizer reports `NoNumericColumns`
//! rather than an empty success.
//!
//! The totals and averages are floating-point work and arrive here already
//! formatted, one text per qualifying column, supplied by the caller that
//! runs the numeric fold; everything else — which columns appear, in what
//! order, with what question text, name, and count answer — is pinned down
//! exactly by the contracts below.

use vstd::prelude::*;
use crate::QaError;
use crate::QuestionAnswer;
use crate::aggregate::Aggregates;
use crate::text::{dec_digits, format_count, trim, trim_spec};
use vstd::string::StringExecFns;

verus! {

// ---------------------------------------------------------------------------
// Qualifying columns
// ---------------------------------------------------------------------------

/// The qualifying column indices below `n`, in increasing order: those whose
/// column holds at least one numeric value.
pub open spec fn qualifying_upto(m: Seq<Seq<Seq<char>>>, n: int) -> Seq<int>
    decreases n,
{
    if n <= 0 {
        Seq::empty()
    } else if m[n - 1].len() > 0 {
        qualifying_upto(m, n - 1).push(n - 1)
    } else {
        qualifying_upto(m, n - 1)
    }
}

/// The qualifying column indices of the whole state, in increasing order.
pub open spec fn qualifying_of(m: Seq<Seq<Seq<char>>>) -> Seq<int> {
    qualifying_upto(m, m.len() as int)
}

pub proof fn lemma_qualifying_props(m: Seq<Seq<Seq<char>>>, n: int)
    requires
        n <= m.len(),
    ensures
        forall|k: int| #![auto]
            0 <= k < qualifying_upto(m, n).len() ==> 0 <= qualifying_upto(m, n)[k] < n
                && m[qualifying_upto(m, n)[k]].len() > 0,
        forall|k1: int, k2: int| #![auto]
            0 <= k1 < k2 < qualifying_upto(m, n).len() ==> qualifying_upto(m, n)[k1]
                < qualifying_upto(m, n)[k2],
        forall|idx: int| #![auto]
            0 <= idx < n && m[idx].len() > 0 ==> qualifying_upto(m, n).contains(idx),
        forall|idx: int| #![auto]
            qualifying_upto(m, n).contains(idx) ==> 0 <= idx < n && m[idx].len() > 0,
    decreases n,
{
    if n > 0 {
        lemma_qualifying_props(m, n - 1);
        let q = qualifying_upto(m, n);
        let q0 = qualifying_upto(m, n - 1);
        assert forall|idx: int|
            #![auto]
            0 <= idx < n && m[idx].len() > 0 implies q.contains(idx) by {
            if idx < n - 1 {
                assert(q0.contains(idx));
                let k = choose|k: int| 0 <= k < q0.len() && q0[k] == idx;
                assert(q[k] == idx);
            } else {
                assert(q[q.len() - 1] == idx);
            }
        }
        assert forall|idx: int| #![auto] q.contains(idx) implies 0 <= idx < n && m[idx].len()
            > 0 by {
            let k = choose|k: int| 0 <= k < q.len() && q[k] == idx;
            if k < q0.len() {
                assert(q0.contains(idx));
            }
        }
    }
}

// ---------------------------------------------------------------------------
// Display names and question texts
// ---------------------------------------------------------------------------

/// The display name of the column at `idx`: the trimmed header value when
/// the header row reaches that far, else the fixed fallback name.
pub open spec fn display_name(headers: Seq<Seq<char>>, idx: int) -> Seq<char> {
    if 0 <= idx < headers.len() {
        trim_spec(headers[idx])
    } else {
        "value"@
    }
}

pub open spec fn total_question(name: Seq<char>) -> Seq<char> {
    "What is the total of column \""@ + name + "\"?"@
}

pub open spec fn average_question(name: Seq<char>) -> Seq<char> {
    "What is the average of column \""@ + name + "\"?"@
}

pub open spec fn count_question(name: Seq<char>) -> Seq<char> {
    "How many rows contain a numeric value in column \""@ + name + "\"?"@
}

fn build_question(prefix: &str, name: &str) -> (r: String)
    ensures
        r@ == prefix@ + name@ + "\"?"@,
{
    let mut q = String::from_str(prefix);
    q.append(name);
    q.append("\"?");
    q
}

fn resolve_name(headers: &Vec<String>, idx: usize) -> (r: String)
    ensures
        r@ == display_name(crate::aggregate::row_view(headers@), idx as int),
{
    if idx < headers.len() {
        trim(headers[idx].as_str())
    } else {
        String::from_str("value")
    }
}

// ---------------------------------------------------------------------------
// The synthesized pairs
// ---------------------------------------------------------------------------

/// The three pairs one qualifying column yields, in their fixed order.
pub open spec fn column_pairs(name: Seq<char>, total: Seq<char>, avg: Seq<char>, count: int) -> Seq<
    (Seq<char>, Seq<char>),
> {
    seq![
        (total_question(name), total),
        (average_question(name), avg),
        (count_question(name), dec_digits(count)),
    ]
}

/// The pairs of the first `k` qualifying columns, in order.
pub open spec fn qa_pairs_upto(
    m: Seq<Seq<Seq<char>>>,
    headers: Seq<Seq<char>>,
    totals: Seq<Seq<char>>,
    avgs: Seq<Seq<char>>,
    k: int,
) -> Seq<(Seq<char>, Seq<char>)>
    decreases k,
{
    if k <= 0 {
        Seq::empty()
    } else {
        let idx = qualifying_of(m)[k - 1];
        qa_pairs_upto(m, headers, totals, avgs, k - 1) + column_pairs(
            display_name(headers, idx),
            totals[k - 1],
            avgs[k - 1],
            m[idx].len() as int,
        )
    }
}

/// Every pair the pipeline answers for this state: three per qualifying
/// column, columns in increasing index order.
pub open spec fn qa_pairs_spec(
    m: Seq<Seq<Seq<char>>>,
    headers: Seq<Seq<char>>,
    totals: Seq<Seq<char>>,
    avgs: Seq<Seq<char>>,
) -> Seq<(Seq<char>, Seq<char>)> {
    qa_pairs_upto(m, headers, totals, avgs, qualifying_of(m).len() as int)
}

pub open spec fn pairs_view(pairs: Seq<QuestionAnswer>) -> Seq<(Seq<char>, Seq<char>)> {
    pairs.map_values(|p: QuestionAnswer| (p.question@, p.answer@))
}

pub open spec fn strs_view(v: Seq<String>) -> Seq<Seq<char>> {
    v.map_values(|s: String| s@)
}

pub proof fn lemma_qa_pairs_len(
    m: Seq<Seq<Seq<char>>>,
    headers: Seq<Seq<char>>,
    totals: Seq<Seq<char>>,
    avgs: Seq<Seq<char>>,
    k: int,
)
    requires
        k >= 0,
    ensures
        qa_pairs_upto(m, headers, totals, avgs, k).len() == 3 * k,
    decreases k,
{
    if k > 0 {
        lemma_qa_pairs_len(m, headers, totals, avgs, k - 1);
    }
}

// ---------------------------------------------------------------------------
// Exec synthesis
// ---------------------------------------------------------------------------

/// The qualifying column indices, in increasing order.
pub fn qualifying_columns(state: &Aggregates) -> (cols: Vec<usize>)
    ensures
        cols@.map_values(|u: usize| u as int) == qualifying_of(state.model()),
        forall|k: int| #![auto]
            0 <= k < cols@.len() ==> (cols@[k] as int) < state.cols@.len()
                && state.model()[cols@[k] as int].len() > 0,
{
    let ghost m = state.model();
    let mut cols: Vec<usize> = Vec::new();
    let mut i: usize = 0;
    while i < state.cols.len()
        invariant
            m == state.model(),
            i <= state.cols@.len(),
            m.len() == state.cols@.len(),
            cols@.map_values(|u: usize| u as int) == qualifying_upto(m, i as int),
            forall|k: int| #![auto] 0 <= k < cols@.len() ==> (cols@[k] as int) < m.len(),
        decreases state.cols@.len() - i,
    {
        if state.cols[i].values.len() > 0 {
            cols.push(i);
            proof {
                assert(m[i as int].len() > 0);
                assert(cols@.map_values(|u: usize| u as int) =~= qualifying_upto(m, i + 1));
            }
        } else {
            proof {
                assert(m[i as int].len() == 0);
                assert(cols@.map_values(|u: usize| u as int) =~= qualifying_upto(m, i + 1));
            }
        }
        i = i + 1;
    }
    proof {
        lemma_qualifying_props(m, m.len() as int);
        assert forall|k: int| #![auto] 0 <= k < cols@.len() implies (cols@[k] as int)
            < state.cols@.len() && state.model()[cols@[k] as int].len() > 0 by {
            assert(qualifying_of(m)[k] == cols@[k] as int);
        }
    }
    cols
}

/// Synthesize the ordered question/answer list.
///
/// `totals` and `averages` hold the already formatted total and average
/// answers, one per qualifying column, in the same increasing column order
/// that `qualifying_columns` yields.
pub fn synthesize(
    state: &Aggregates,
    headers: &Vec<String>,
    totals: &Vec<String>,
    averages: &Vec<String>,
) -> (res: Result<Vec<QuestionAnswer>, QaError>)
    requires
        totals@.len() == qualifying_of(state.model()).len(),
        averages@.len() == qualifying_of(state.model()).len(),
    ensures
        match res {
            Ok(pairs) => qualifying_of(state.model()).len() > 0 && pairs_view(pairs@)
                == qa_pairs_spec(
                state.model(),
                crate::aggregate::row_view(headers@),
                strs_view(totals@),
                strs_view(averages@),
            ),
            Err(e) => e == QaError::NoNumericColumns && qualifying_of(state.model()).len() == 0,
        },
{
    let ghost m = state.model();
    let ghost hv = crate::aggregate::row_view(headers@);
    let ghost tv = strs_view(totals@);
    let ghost av = strs_view(averages@);
    let cols = qualifying_columns(state);
    if cols.len() == 0 {
        return Err(QaError::NoNumericColumns);
    }
    let mut pairs: Vec<QuestionAnswer> = Vec::new();
    let mut k: usize = 0;
    while k < cols.len()
        invariant
            m == state.model(),
            hv == crate::aggregate::row_view(headers@),
            tv == strs_view(totals@),
            av == strs_view(averages@),
            k <= cols@.len(),
            cols@.map_values(|u: usize| u as int) == qualifying_of(m),
            forall|j: int| #![auto]
                0 <= j < cols@.len() ==> (cols@[j] as int) < state.cols@.len()
                    && state.model()[cols@[j] as int].len() > 0,
            totals@.len() == cols@.len(),
            averages@.len() == cols@.len(),
            pairs_view(pairs@) == qa_pairs_upto(m, hv, tv, av, k as int),
        decreases cols@.len() - k,
    {
        let idx = cols[k];
        proof {
            assert(qualifying_of(m)[k as int] == idx as int);
        }
        let name = resolve_name(headers, idx);
        let count = state.cols[idx].values.len();
        proof {
            assert(m[idx as int].len() == count);
        }
        let ghost before = pairs@;
        let q1 = build_question("What is the total of column \"", name.as_str());
        let a1 = totals[k].clone();
        pairs.push(QuestionAnswer { question: q1, answer: a1 });
        let q2 = build_question("What is the average of column \"", name.as_str());
        let a2 = averages[k].clone();
        pairs.push(QuestionAnswer { question: q2, answer: a2 });
        let q3 = build_question(
            "How many rows contain a numeric value in column \"",
            name.as_str(),
        );
        let a3 = format_count(count);
        pairs.push(QuestionAnswer { question: q3, answer: a3 });
        proof {
            assert(pairs_view(pairs@) =~= pairs_view(before) + column_pairs(
                display_name(hv, idx as int),
                tv[k as int],
                av[k as int],
                count as int,
            ));
        }
        k = k + 1;
    }
    Ok(pairs)
}

} // verus!
