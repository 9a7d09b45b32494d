//! Rule-based data-quality warnings over a finished column profile.

use vstd::prelude::*;

use crate::profile::{ColumnKind, ColumnProfile, ProfileView};

verus! {

/// One data-quality finding, in the order the rules are applied.
#[derive(Clone, Copy, Debug, PartialEq, Eq, Structural)]
pub enum Warning {
    /// More than 5% of the rows left the column empty.
    MissingValues { missing: usize, total_rows: usize },
    /// More than 95% of the non-missing values of a categorical column are
    /// distinct.
    HighCardinality { unique: usize, non_missing: usize },
    /// The numeric samples span a negligible range.
    NearConstant,
    /// A numeric column holds values that do not parse as numbers.
    MixedTypes,
    /// Samples at least five standard deviations from the running mean.
    ExtremeOutliers { count: usize },
}

/// `missing / total_rows > 0.05`, read exactly; with no rows any missing
/// value exceeds it.
pub open spec fn missing_rule(missing: nat, total_rows: nat) -> bool {
    20 * missing > total_rows
}

/// `unique / non_missing > 0.95`, read exactly, for a positive
/// `non_missing`.
pub open spec fn cardinality_rule(unique: nat, non_missing: nat) -> bool {
    non_missing > 0 && 20 * unique > 19 * non_missing
}

/// Rows that gave the column a value, out of `total_rows`.
pub open spec fn non_missing_of(p: ProfileView, total_rows: nat) -> nat {
    if total_rows >= p.missing {
        (total_rows - p.missing) as nat
    } else {
        0
    }
}

pub open spec fn when(c: bool, w: Warning) -> Seq<Warning> {
    if c {
        seq![w]
    } else {
        Seq::empty()
    }
}

/// The warnings for profile `p` of a table of `total_rows` rows, in rule
/// order. `narrow_range` says whether the samples' maximum and minimum lie
/// within 1e-12 of each other; it counts only once there is a sample.
pub open spec fn warnings_for(p: ProfileView, narrow_range: bool, total_rows: nat) -> Seq<Warning> {
    let missing = when(
        missing_rule(p.missing, total_rows),
        Warning::MissingValues { missing: p.missing as usize, total_rows: total_rows as usize },
    );
    match p.kind {
        ColumnKind::Categorical => missing + when(
            cardinality_rule(p.uniques.len(), non_missing_of(p, total_rows)),
            Warning::HighCardinality {
                unique: p.uniques.len() as usize,
                non_missing: non_missing_of(p, total_rows) as usize,
            },
        ),
        ColumnKind::Numeric => missing + when(p.samples > 0 && narrow_range, Warning::NearConstant)
            + when(p.failures > 0, Warning::MixedTypes) + when(
            p.outliers > 0,
            Warning::ExtremeOutliers { count: p.outliers as usize },
        ),
    }
}

/// The data-quality warnings for `profile`, in rule order: missing share,
/// then for a categorical column its cardinality, for a numeric column a
/// narrow range, parse failures and outliers. An empty result means the
/// column is clean.
pub fn diagnose(profile: &ColumnProfile, narrow_range: bool, total_rows: usize) -> (r: Vec<Warning>)
    requires
        profile.wf(),
    ensures
        r@ == warnings_for(profile@, narrow_range, total_rows as nat),
{
    let missing = profile.missing();
    let mut r: Vec<Warning> = Vec::new();
    if missing > total_rows / 20 {
        r.push(Warning::MissingValues { missing, total_rows });
    }
    let ghost first = r@;
    match profile.kind() {
        ColumnKind::Categorical => {
            let non_missing = if total_rows >= missing {
                total_rows - missing
            } else {
                0
            };
            let unique = profile.unique_count();
            if non_missing > 0 && (unique as u128) * 20 > (non_missing as u128) * 19 {
                r.push(Warning::HighCardinality { unique, non_missing });
            }
        },
        ColumnKind::Numeric => {
            if profile.sample_count() > 0 && narrow_range {
                r.push(Warning::NearConstant);
            }
            if profile.numeric_parse_failures() > 0 {
                r.push(Warning::MixedTypes);
            }
            let outliers = profile.outlier_count();
            if outliers > 0 {
                r.push(Warning::ExtremeOutliers { count: outliers });
            }
        },
    }
    assert(r@ =~= warnings_for(profile@, narrow_range, total_rows as nat));
    r
}

} // verus!
