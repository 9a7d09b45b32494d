//! Properties of a column profile over whole value streams.

use vstd::prelude::*;

use crate::classify::{class_of, is_f64_literal, is_numeric_class, lemma_integer_is_float, ValueClass};
use crate::diagnose::warnings_for;
use crate::profile::{fresh, outcome_of, step, view_wf, ColumnKind, Outcome, ProfileView};

verus! {

/// The outlier verdict for the `i`-th value; false where none is given.
pub open spec fn far_at(fars: Seq<bool>, i: int) -> bool {
    0 <= i < fars.len() && fars[i]
}

/// Profile `p` after taking `vals` in order, with outlier verdicts `fars`.
pub open spec fn run(p: ProfileView, vals: Seq<Seq<char>>, fars: Seq<bool>) -> ProfileView
    decreases vals.len(),
{
    if vals.len() == 0 {
        p
    } else {
        step(run(p, vals.drop_last(), fars), vals.last(), far_at(fars, vals.len() - 1))
    }
}

/// Number of empty values in `vals`.
pub open spec fn count_empty(vals: Seq<Seq<char>>) -> nat
    decreases vals.len(),
{
    if vals.len() == 0 {
        0
    } else {
        count_empty(vals.drop_last()) + if vals.last().len() == 0 {
            1nat
        } else {
            0nat
        }
    }
}

/// The distinct non-empty values of `vals`.
pub open spec fn nonempty_values(vals: Seq<Seq<char>>) -> Set<Seq<char>> {
    Set::new(|v: Seq<char>| vals.contains(v) && v.len() > 0)
}

/// No value of `vals` is numeric.
pub open spec fn none_numeric(vals: Seq<Seq<char>>) -> bool {
    forall|i: int| 0 <= i < vals.len() ==> !is_numeric_class(class_of(#[trigger] vals[i]))
}

/// Every value of `vals` is a non-empty float literal.
pub open spec fn all_float_literals(vals: Seq<Seq<char>>) -> bool {
    forall|i: int| 0 <= i < vals.len() ==> (#[trigger] vals[i]).len() > 0 && is_f64_literal(vals[i])
}

/// An update keeps a profile well formed.
pub proof fn lemma_step_wf(p: ProfileView, v: Seq<char>, far_out: bool)
    requires
        view_wf(p),
    ensures
        view_wf(step(p, v, far_out)),
{
    let q = step(p, v, far_out);
    if outcome_of(p, v) == Outcome::Category && !p.uniques.contains(v) {
        assert(q.uniques == p.uniques.push(v));
        assert forall|i: int, j: int|
            0 <= i < q.uniques.len() && 0 <= j < q.uniques.len() && i != j implies q.uniques[i]
            != q.uniques[j] by {
            if i == p.uniques.len() as int {
                assert(p.uniques.contains(q.uniques[j]));
            } else if j == p.uniques.len() as int {
                assert(p.uniques.contains(q.uniques[i]));
            }
        }
    }
}

/// Any stream of updates keeps a profile well formed.
pub proof fn lemma_run_wf(p: ProfileView, vals: Seq<Seq<char>>, fars: Seq<bool>)
    requires
        view_wf(p),
    ensures
        view_wf(run(p, vals, fars)),
    decreases vals.len(),
{
    if vals.len() > 0 {
        lemma_run_wf(p, vals.drop_last(), fars);
        lemma_step_wf(run(p, vals.drop_last(), fars), vals.last(), far_at(fars, vals.len() - 1));
    }
}

/// Promotion is one-way: a numeric column stays numeric whatever follows.
pub proof fn lemma_numeric_is_final(p: ProfileView, vals: Seq<Seq<char>>, fars: Seq<bool>)
    requires
        p.kind == ColumnKind::Numeric,
    ensures
        run(p, vals, fars).kind == ColumnKind::Numeric,
    decreases vals.len(),
{
    if vals.len() > 0 {
        lemma_numeric_is_final(p, vals.drop_last(), fars);
    }
}

/// The value that promotes a categorical column is its first numeric
/// sample: the column turns numeric with exactly one sample and no distinct
/// set.
pub proof fn lemma_promoting_value_is_first_sample(p: ProfileView, v: Seq<char>, far_out: bool)
    requires
        view_wf(p),
        p.kind == ColumnKind::Categorical,
        v.len() > 0,
        is_numeric_class(class_of(v)),
    ensures
        outcome_of(p, v) == Outcome::Sample,
        step(p, v, far_out).kind == ColumnKind::Numeric,
        step(p, v, far_out).samples == 1,
        step(p, v, far_out).outliers == 0,
        step(p, v, far_out).failures == 0,
        step(p, v, far_out).uniques.len() == 0,
{
    if class_of(v) == ValueClass::Integer {
        lemma_integer_is_float(v);
    }
}

/// The missing count grows by exactly the number of empty values; no
/// non-empty value, parse failures included, changes it.
pub proof fn lemma_missing_counts_empty_values(p: ProfileView, vals: Seq<Seq<char>>, fars: Seq<bool>)
    ensures
        run(p, vals, fars).missing == p.missing + count_empty(vals),
    decreases vals.len(),
{
    if vals.len() > 0 {
        lemma_missing_counts_empty_values(p, vals.drop_last(), fars);
    }
}

/// The outlier test never flags the first or second sample of a column:
/// there are either no outliers or at least two more samples than outliers.
pub proof fn lemma_first_two_samples_never_flagged(
    name: Seq<char>,
    kind: ColumnKind,
    vals: Seq<Seq<char>>,
    fars: Seq<bool>,
)
    ensures
        run(fresh(name, kind), vals, fars).outliers == 0 || run(fresh(name, kind), vals, fars).outliers
            + 2 <= run(fresh(name, kind), vals, fars).samples,
    decreases vals.len(),
{
    if vals.len() > 0 {
        lemma_first_two_samples_never_flagged(name, kind, vals.drop_last(), fars);
        lemma_run_wf(fresh(name, kind), vals.drop_last(), fars);
    }
}

/// In a numeric column every non-empty float literal becomes a sample: a
/// stream of them adds one sample per value and no parse failure.
pub proof fn lemma_float_stream_all_sampled(p: ProfileView, vals: Seq<Seq<char>>, fars: Seq<bool>)
    requires
        p.kind == ColumnKind::Numeric,
        all_float_literals(vals),
    ensures
        run(p, vals, fars).samples == p.samples + vals.len(),
        run(p, vals, fars).failures == p.failures,
        run(p, vals, fars).missing == p.missing,
    decreases vals.len(),
{
    if vals.len() > 0 {
        assert(all_float_literals(vals.drop_last()));
        lemma_float_stream_all_sampled(p, vals.drop_last(), fars);
        lemma_numeric_is_final(p, vals.drop_last(), fars);
        assert(vals.last() == vals[vals.len() - 1]);
    }
}

/// With no numeric value, a fresh categorical column stays categorical and
/// its distinct set is exactly the set of non-empty values given.
pub proof fn lemma_categorical_distinct_set(name: Seq<char>, vals: Seq<Seq<char>>, fars: Seq<bool>)
    requires
        none_numeric(vals),
    ensures
        run(fresh(name, ColumnKind::Categorical), vals, fars).kind == ColumnKind::Categorical,
        run(fresh(name, ColumnKind::Categorical), vals, fars).uniques.to_set() == nonempty_values(
            vals,
        ),
    decreases vals.len(),
{
    let p = fresh(name, ColumnKind::Categorical);
    if vals.len() == 0 {
        assert(p.uniques.to_set() =~= nonempty_values(vals));
    } else {
        let init = vals.drop_last();
        let v = vals.last();
        assert(none_numeric(init)) by {
            assert forall|i: int| 0 <= i < init.len() implies !is_numeric_class(
                class_of(#[trigger] init[i]),
            ) by {
                assert(init[i] == vals[i]);
            }
        }
        assert(!is_numeric_class(class_of(vals[vals.len() - 1])));
        lemma_categorical_distinct_set(name, init, fars);
        let q = run(p, init, fars);
        let r = run(p, vals, fars);
        assert forall|x: Seq<char>| #[trigger] vals.contains(x) <==> init.contains(x) || x == v by {
            if vals.contains(x) {
                let i = choose|i: int| 0 <= i < vals.len() && vals[i] == x;
                if i < init.len() {
                    assert(init[i] == x);
                }
            }
            if init.contains(x) {
                let i = choose|i: int| 0 <= i < init.len() && init[i] == x;
                assert(vals[i] == x);
            }
            if x == v {
                assert(vals[vals.len() - 1] == x);
            }
        }
        if v.len() > 0 && !q.uniques.contains(v) {
            assert(r.uniques == q.uniques.push(v));
            q.uniques.lemma_push_to_set_commute(v);
        }
        assert(r.uniques.to_set() =~= nonempty_values(vals));
    }
}

/// The number of distinct values of an all-categorical column is the number
/// of distinct non-empty values given, whatever their order: two
/// permutations of one stream give the same count.
pub proof fn lemma_distinct_count_ignores_order(
    name: Seq<char>,
    vals: Seq<Seq<char>>,
    other: Seq<Seq<char>>,
    fars: Seq<bool>,
    other_fars: Seq<bool>,
)
    requires
        none_numeric(vals),
        other.to_multiset() == vals.to_multiset(),
    ensures
        run(fresh(name, ColumnKind::Categorical), vals, fars).uniques.len() == nonempty_values(
            vals,
        ).len(),
        run(fresh(name, ColumnKind::Categorical), other, other_fars).uniques.len()
            == run(fresh(name, ColumnKind::Categorical), vals, fars).uniques.len(),
{
    let p = fresh(name, ColumnKind::Categorical);
    assert forall|x: Seq<char>| #[trigger] other.contains(x) <==> vals.contains(x) by {
        vals.to_multiset_ensures();
        other.to_multiset_ensures();
        assert(other.to_multiset().count(x) == vals.to_multiset().count(x));
        assert(other.contains(x) <==> other.to_multiset().count(x) > 0);
        assert(vals.contains(x) <==> vals.to_multiset().count(x) > 0);
    }
    assert(none_numeric(other)) by {
        assert forall|i: int| 0 <= i < other.len() implies !is_numeric_class(
            class_of(#[trigger] other[i]),
        ) by {
            assert(other.contains(other[i]));
            let j = choose|j: int| 0 <= j < vals.len() && vals[j] == other[i];
            assert(!is_numeric_class(class_of(vals[j])));
        }
    }
    lemma_categorical_distinct_set(name, vals, fars);
    lemma_categorical_distinct_set(name, other, other_fars);
    assert(nonempty_values(vals) =~= nonempty_values(other));
    lemma_run_wf(p, vals, fars);
    lemma_run_wf(p, other, other_fars);
    run(p, vals, fars).uniques.unique_seq_to_set();
    run(p, other, other_fars).uniques.unique_seq_to_set();
}

/// Diagnosis is a function of the profile's state, the range verdict and the
/// row count: repeating it on the same inputs gives the identical ordered
/// list.
pub proof fn lemma_diagnosis_repeatable(
    p: ProfileView,
    q: ProfileView,
    narrow_range: bool,
    total_rows: nat,
)
    requires
        p == q,
    ensures
        warnings_for(p, narrow_range, total_rows) == warnings_for(q, narrow_range, total_rows),
{
}

} // verus!
