//! Row ingestion over a header: one lazily created profile per column.

use vstd::prelude::*;

use crate::classify::{classify, ValueClass};
use crate::profile::{
    fresh, outcome_of, seed_kind, step, view_wf, ColumnKind, ColumnProfile, Outcome, ProfileView,
};

verus! {

/// The abstract state of a table of profiles.
pub struct TableView {
    pub headers: Seq<Seq<char>>,
    pub columns: Seq<Option<ProfileView>>,
    pub rows: nat,
}

/// Column `c` after taking value `v`: an absent column is first created,
/// named `name`, with the kind its first value suggests.
pub open spec fn column_after(c: Option<ProfileView>, name: Seq<char>, v: Seq<char>, far_out: bool) -> ProfileView {
    step(column_before(c, name, v), v, far_out)
}

/// Column `c` as value `v` finds it: an absent column is created, named
/// `name`, with the kind `v` suggests.
pub open spec fn column_before(c: Option<ProfileView>, name: Seq<char>, v: Seq<char>) -> ProfileView {
    match c {
        Some(p) => p,
        None => fresh(name, seed_kind(v)),
    }
}

pub open spec fn table_wf(t: TableView) -> bool {
    &&& t.columns.len() == t.headers.len()
    &&& forall|i: int|
        0 <= i < t.columns.len() && (#[trigger] t.columns[i]) is Some ==> {
            let p = t.columns[i]->0;
            view_wf(p) && p.total <= t.rows && p.name == t.headers[i]
        }
}

/// The kind a column is created with, from its first value.
pub fn initial_kind(value: &str) -> (r: ColumnKind)
    ensures
        r == seed_kind(value@),
{
    if value.is_empty() {
        ColumnKind::Categorical
    } else {
        match classify(value) {
            ValueClass::Integer | ValueClass::Float => ColumnKind::Numeric,
            _ => ColumnKind::Categorical,
        }
    }
}

/// Profiles of the columns of a row stream, one per header entry, created
/// the first time a row reaches the column.
pub struct ProfileTable {
    headers: Vec<String>,
    columns: Vec<Option<ColumnProfile>>,
    rows: usize,
}

impl View for ProfileTable {
    type V = TableView;

    closed spec fn view(&self) -> TableView {
        TableView {
            headers: self.headers@.map_values(|h: String| h@),
            columns: self.columns@.map_values(
                |c: Option<ColumnProfile>|
                    match c {
                        Some(p) => Some(p@),
                        None => None,
                    },
            ),
            rows: self.rows as nat,
        }
    }
}

impl ProfileTable {
    pub open spec fn wf(&self) -> bool {
        table_wf(self@)
    }

    /// An empty table over the column names `headers`.
    pub fn new(headers: Vec<String>) -> (r: ProfileTable)
        ensures
            r.wf(),
            r@.headers == headers@.map_values(|h: String| h@),
            r@.rows == 0,
            forall|i: int| 0 <= i < r@.columns.len() ==> r@.columns[i] is None,
    {
        let mut columns: Vec<Option<ColumnProfile>> = Vec::new();
        let n = headers.len();
        let mut i: usize = 0;
        while i < n
            invariant
                i <= n,
                n == headers.len(),
                columns.len() == i,
                forall|j: int| 0 <= j < i ==> (#[trigger] columns@[j]) is None,
            decreases n - i,
        {
            columns.push(None);
            i = i + 1;
        }
        ProfileTable { headers, columns, rows: 0 }
    }

    /// Takes one row, index-aligned with the header. `far_out[i]` is the
    /// caller's outlier verdict for `row[i]` against column `i`'s earlier
    /// samples. Returns what each column did with its value.
    pub fn ingest(&mut self, row: &Vec<String>, far_out: &Vec<bool>) -> (r: Vec<Outcome>)
        requires
            old(self).wf(),
            row.len() == old(self)@.headers.len(),
            far_out.len() == row.len(),
            old(self)@.rows < usize::MAX,
        ensures
            final(self).wf(),
            final(self)@.headers == old(self)@.headers,
            final(self)@.rows == old(self)@.rows + 1,
            final(self)@.columns.len() == old(self)@.columns.len(),
            r.len() == row.len(),
            forall|i: int|
                0 <= i < row.len() ==> #[trigger] r@[i] == outcome_of(
                    column_before(old(self)@.columns[i], old(self)@.headers[i], row@[i]@),
                    row@[i]@,
                ),
            forall|i: int|
                0 <= i < row.len() ==> #[trigger] final(self)@.columns[i] == Some(
                    column_after(old(self)@.columns[i], old(self)@.headers[i], row@[i]@, far_out@[i]),
                ),
    {
        let ghost t = self@;
        self.rows = self.rows + 1;
        let n = row.len();
        let mut outcomes: Vec<Outcome> = Vec::new();
        let mut i: usize = 0;
        while i < n
            invariant
                t == old(self)@,
                outcomes.len() == i,
                forall|j: int|
                    0 <= j < i ==> #[trigger] outcomes@[j] == outcome_of(
                        column_before(t.columns[j], t.headers[j], row@[j]@),
                        row@[j]@,
                    ),
                table_wf(t),
                n == row.len(),
                n == self.columns.len(),
                n == self.headers.len(),
                far_out.len() == n,
                i <= n,
                self@.headers == t.headers,
                self@.rows == t.rows + 1,
                t.rows < usize::MAX,
                forall|j: int|
                    0 <= j < i ==> #[trigger] self@.columns[j] == Some(
                        column_after(t.columns[j], t.headers[j], row@[j]@, far_out@[j]),
                    ),
                forall|j: int| i <= j < n ==> #[trigger] self@.columns[j] == t.columns[j],
                table_wf(self@),
            decreases n - i,
        {
            let value = row[i].as_str();
            let mut slot: Option<ColumnProfile> = None;
            let ghost before = self@;
            assert(before.columns[i as int] == t.columns[i as int]);
            self.columns.set_and_swap(i, &mut slot);
            assert(match slot {
                Some(q) => t.columns[i as int] == Some(q@),
                None => t.columns[i as int] is None,
            });
            assert(self.headers@[i as int]@ == t.headers[i as int]);
            let mut p = match slot {
                Some(p) => p,
                None => ColumnProfile::new(self.headers[i].as_str(), initial_kind(value)),
            };
            assert(p@ == match t.columns[i as int] {
                Some(q) => q,
                None => fresh(t.headers[i as int], seed_kind(row@[i as int]@)),
            });
            let o = p.update(value, far_out[i]);
            outcomes.push(o);
            self.columns.set(i, Some(p));
            assert(self@.columns =~= before.columns.update(i as int, Some(p@)));
            i = i + 1;
        }
        outcomes
    }

    /// Rows ingested so far.
    pub fn row_count(&self) -> (r: usize)
        ensures
            r == self@.rows,
    {
        self.rows
    }

    /// Number of columns.
    pub fn column_count(&self) -> (r: usize)
        ensures
            r == self@.columns.len(),
    {
        self.columns.len()
    }

    /// The profile of column `i`, absent until a row reached it.
    pub fn column(&self, i: usize) -> (r: Option<&ColumnProfile>)
        requires
            i < self@.columns.len(),
        ensures
            match r {
                Some(p) => self@.columns[i as int] == Some(p@),
                None => self@.columns[i as int] is None,
            },
    {
        match &self.columns[i] {
            Some(p) => Some(p),
            None => None,
        }
    }

    /// The kind inferred for column `i` so far, absent until a row reached it.
    pub fn kind_of(&self, i: usize) -> (r: Option<ColumnKind>)
        requires
            i < self@.columns.len(),
        ensures
            match r {
                Some(k) => self@.columns[i as int] is Some && self@.columns[i as int]->0.kind == k,
                None => self@.columns[i as int] is None,
            },
    {
        match &self.columns[i] {
            Some(p) => Some(p.kind()),
            None => None,
        }
    }
}

} // verus!
