//! The per-column streaming aggregator and its kind state machine.

use vstd::prelude::*;

use crate::classify::{
    class_of, classify, is_f64_literal, is_numeric_class, parses_as_f64, ValueClass,
};

verus! {

/// The inferred kind of a column.
#[derive(Clone, Copy, Debug, PartialEq, Eq, Structural)]
pub enum ColumnKind {
    Numeric,
    Categorical,
}

/// What an update did with the value it was given.
#[derive(Clone, Copy, Debug, PartialEq, Eq, Structural)]
pub enum Outcome {
    /// The value was empty and counted as missing.
    Missing,
    /// The value was taken as the next numeric sample.
    Sample,
    /// The column is numeric and the value did not parse as a number.
    ParseFailure,
    /// The column is categorical and the value joined its distinct set.
    Category,
}

/// The abstract state of a column profile.
pub struct ProfileView {
    pub name: Seq<char>,
    pub kind: ColumnKind,
    pub total: nat,
    pub missing: nat,
    /// Values folded into the numeric moments.
    pub samples: nat,
    pub failures: nat,
    pub outliers: nat,
    /// Distinct non-empty values seen while categorical, in order of arrival.
    pub uniques: Seq<Seq<char>>,
}

/// The kind a column takes when `kind` meets the non-empty value `v`: a
/// categorical column is promoted by a numeric value, and nothing demotes a
/// numeric one.
pub open spec fn next_kind(kind: ColumnKind, v: Seq<char>) -> ColumnKind {
    if kind == ColumnKind::Categorical && is_numeric_class(class_of(v)) {
        ColumnKind::Numeric
    } else {
        kind
    }
}

/// The kind a column is created with, from its first value: numeric for a
/// numeric value, categorical otherwise (an empty value included).
pub open spec fn seed_kind(v: Seq<char>) -> ColumnKind {
    if v.len() > 0 && is_numeric_class(class_of(v)) {
        ColumnKind::Numeric
    } else {
        ColumnKind::Categorical
    }
}

/// A fresh profile with nothing seen.
pub open spec fn fresh(name: Seq<char>, kind: ColumnKind) -> ProfileView {
    ProfileView {
        name,
        kind,
        total: 0,
        missing: 0,
        samples: 0,
        failures: 0,
        outliers: 0,
        uniques: Seq::empty(),
    }
}

/// What an update of `p` with `v` does with the value.
pub open spec fn outcome_of(p: ProfileView, v: Seq<char>) -> Outcome {
    if v.len() == 0 {
        Outcome::Missing
    } else if next_kind(p.kind, v) == ColumnKind::Numeric {
        if is_f64_literal(v) {
            Outcome::Sample
        } else {
            Outcome::ParseFailure
        }
    } else {
        Outcome::Category
    }
}

/// The profile after one update of `p` with `v`. `far_out` says whether `v`
/// lies at least five running standard deviations from the running mean of
/// the samples before it; it counts only from the third sample on.
pub open spec fn step(p: ProfileView, v: Seq<char>, far_out: bool) -> ProfileView {
    let kind = if v.len() == 0 {
        p.kind
    } else {
        next_kind(p.kind, v)
    };
    let uniques = if kind != p.kind {
        Seq::empty()
    } else {
        p.uniques
    };
    let base = ProfileView { total: p.total + 1, kind, uniques, ..p };
    match outcome_of(p, v) {
        Outcome::Missing => ProfileView { missing: p.missing + 1, ..base },
        Outcome::Sample => ProfileView {
            samples: p.samples + 1,
            outliers: if p.samples >= 2 && far_out {
                p.outliers + 1
            } else {
                p.outliers
            },
            ..base
        },
        Outcome::ParseFailure => ProfileView { failures: p.failures + 1, ..base },
        Outcome::Category => ProfileView {
            uniques: if p.uniques.contains(v) {
                p.uniques
            } else {
                p.uniques.push(v)
            },
            ..base
        },
    }
}

/// The state every reachable profile is in.
pub open spec fn view_wf(p: ProfileView) -> bool {
    &&& p.missing + p.samples + p.failures <= p.total
    &&& p.outliers <= p.samples
    &&& p.kind == ColumnKind::Categorical ==> p.samples == 0 && p.failures == 0
    &&& p.kind == ColumnKind::Numeric ==> p.uniques.len() == 0
    &&& p.uniques.no_duplicates()
    &&& forall|i: int| 0 <= i < p.uniques.len() ==> (#[trigger] p.uniques[i]).len() > 0
}

/// Per-column aggregator: counts, the numeric sample count with its outlier
/// tally, and the distinct values of a categorical column.
pub struct ColumnProfile {
    name: String,
    kind: ColumnKind,
    total: usize,
    missing: usize,
    samples: usize,
    numeric_parse_failures: usize,
    outlier_count: usize,
    uniques: Vec<String>,
}

impl View for ColumnProfile {
    type V = ProfileView;

    closed spec fn view(&self) -> ProfileView {
        ProfileView {
            name: self.name@,
            kind: self.kind,
            total: self.total as nat,
            missing: self.missing as nat,
            samples: self.samples as nat,
            failures: self.numeric_parse_failures as nat,
            outliers: self.outlier_count as nat,
            uniques: self.uniques@.map_values(|u: String| u@),
        }
    }
}

impl ColumnProfile {
    pub open spec fn wf(&self) -> bool {
        view_wf(self@)
    }

    /// A profile named `name` that starts with kind `kind` and has seen
    /// nothing.
    pub fn new(name: &str, kind: ColumnKind) -> (r: ColumnProfile)
        ensures
            r.wf(),
            r@ == fresh(name@, kind),
    {
        let r = ColumnProfile {
            name: name.to_owned(),
            kind,
            total: 0,
            missing: 0,
            samples: 0,
            numeric_parse_failures: 0,
            outlier_count: 0,
            uniques: Vec::new(),
        };
        assert(r@.uniques =~= Seq::empty());
        r
    }

    /// Takes one raw value of this column. An empty value counts as missing.
    /// A numeric value promotes a categorical column to numeric, dropping its
    /// distinct set, and becomes the first sample. In a numeric column a
    /// value that parses as a float is the next sample, another a parse
    /// failure; in a categorical column the value joins the distinct set.
    /// `far_out` is the caller's verdict whether the value lies at least five
    /// running standard deviations from the mean of the earlier samples; an
    /// outlier is counted only for a sample with two or more before it.
    pub fn update(&mut self, value: &str, far_out: bool) -> (o: Outcome)
        requires
            old(self).wf(),
            old(self)@.total < usize::MAX,
        ensures
            final(self).wf(),
            final(self)@ == step(old(self)@, value@, far_out),
            o == outcome_of(old(self)@, value@),
    {
        let ghost p = self@;
        self.total = self.total + 1;
        if value.is_empty() {
            self.missing = self.missing + 1;
            return Outcome::Missing;
        }
        if self.kind == ColumnKind::Categorical {
            let c = classify(value);
            if c == ValueClass::Integer || c == ValueClass::Float {
                self.kind = ColumnKind::Numeric;
                self.uniques = Vec::new();
                assert(self@.uniques =~= Seq::empty());
            }
        }
        match self.kind {
            ColumnKind::Numeric => {
                if parses_as_f64(value) {
                    if self.samples >= 2 && far_out {
                        self.outlier_count = self.outlier_count + 1;
                    }
                    self.samples = self.samples + 1;
                    Outcome::Sample
                } else {
                    self.numeric_parse_failures = self.numeric_parse_failures + 1;
                    Outcome::ParseFailure
                }
            },
            ColumnKind::Categorical => {
                let owned = value.to_owned();
                let mut i: usize = 0;
                while i < self.uniques.len()
                    invariant
                        i <= self.uniques.len(),
                        owned@ == value@,
                        value@.len() > 0,
                        view_wf(p),
                        p == old(self)@,
                        self.kind == ColumnKind::Categorical,
                        p.kind == ColumnKind::Categorical,
                        !is_numeric_class(class_of(value@)),
                        self@ == (ProfileView { total: p.total + 1, ..p }),
                        forall|j: int| 0 <= j < i ==> (#[trigger] self.uniques@[j])@ != value@,
                    decreases self.uniques.len() - i,
                {
                    if self.uniques[i] == owned {
                        assert(self@.uniques[i as int] == value@);
                        assert(p.uniques.contains(value@));
                        return Outcome::Category;
                    }
                    i = i + 1;
                }
                let ghost before = self.uniques@;
                self.uniques.push(owned);
                assert(self.uniques@.map_values(|u: String| u@) =~= before.map_values(
                    |u: String| u@,
                ).push(value@));
                assert(!p.uniques.contains(value@)) by {
                    if p.uniques.contains(value@) {
                        let j = choose|j: int| 0 <= j < p.uniques.len() && p.uniques[j] == value@;
                        assert(before[j]@ == value@);
                    }
                }
                Outcome::Category
            },
        }
    }
    /// The column's label.
    pub fn name(&self) -> (r: &str)
        ensures
            r@ == self@.name,
    {
        self.name.as_str()
    }

    pub fn kind(&self) -> (r: ColumnKind)
        ensures
            r == self@.kind,
    {
        self.kind
    }

    /// Values seen, empty ones included.
    pub fn total(&self) -> (r: usize)
        ensures
            r == self@.total,
    {
        self.total
    }

    /// Empty values seen.
    pub fn missing(&self) -> (r: usize)
        ensures
            r == self@.missing,
    {
        self.missing
    }

    /// Values folded into the numeric moments.
    pub fn sample_count(&self) -> (r: usize)
        ensures
            r == self@.samples,
    {
        self.samples
    }

    /// Values of a numeric column that did not parse as numbers.
    pub fn numeric_parse_failures(&self) -> (r: usize)
        ensures
            r == self@.failures,
    {
        self.numeric_parse_failures
    }

    /// Samples flagged as extreme outliers.
    pub fn outlier_count(&self) -> (r: usize)
        ensures
            r == self@.outliers,
    {
        self.outlier_count
    }

    /// Number of distinct non-empty values of a categorical column.
    pub fn unique_count(&self) -> (r: usize)
        requires
            self.wf(),
        ensures
            r == self@.uniques.len(),
            r == self@.uniques.to_set().len(),
    {
        proof {
            self@.uniques.unique_seq_to_set();
        }
        self.uniques.len()
    }

    /// The distinct non-empty values of a categorical column, in order of
    /// first arrival.
    pub fn unique_values(&self) -> (r: Vec<String>)
        ensures
            r@.map_values(|u: String| u@) == self@.uniques,
    {
        let r = self.uniques.clone();
        assert(r@.map_values(|u: String| u@) =~= self@.uniques);
        r
    }
}

} // verus!
