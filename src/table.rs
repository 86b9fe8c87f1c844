use vstd::prelude::*;

verus! {

/// What a column is, as the wire format sees it: its name, whether it is
/// declared nullable, and, for an `Int32` column, its raw value buffer and its
/// validity flags (`None` for a column of any other element type).
pub type ColumnModel = (Seq<char>, bool, Option<(Seq<i32>, Seq<bool>)>);

/// The row count that the first column declares (0 for a table with no column).
pub open spec fn declared_rows(s: Seq<ColumnModel>) -> nat {
    if s.len() == 0 {
        0
    } else {
        match s[0].2 {
            Some(d) => d.0.len(),
            None => 0,
        }
    }
}

/// One column fits a table of `rows` rows: it holds `Int32` values, one value
/// and one validity flag per row, and no null unless it is declared nullable.
pub open spec fn column_fits(c: ColumnModel, rows: nat) -> bool {
    match c.2 {
        Some(d) => d.0.len() == rows && d.1.len() == rows && (!c.1 ==> forall|k: int|
            0 <= k < rows ==> #[trigger] d.1[k]),
        None => false,
    }
}

/// A well-formed table: every column fits the row count of the first one.
pub open spec fn table_fits(s: Seq<ColumnModel>) -> bool {
    forall|i: int| 0 <= i < s.len() ==> column_fits(#[trigger] s[i], declared_rows(s))
}

/// The cells of a column: a value where the validity flag is set, else null.
pub open spec fn cells_of(values: Seq<i32>, validity: Seq<bool>) -> Seq<Option<i32>> {
    Seq::new(values.len(), |k: int| if validity[k] { Some(values[k]) } else { None })
}

/// A column of 32-bit signed integers: a value buffer and a parallel validity
/// bitmap (`true` = present, `false` = null).
pub struct Column {
    pub name: String,
    pub nullable: bool,
    pub values: Vec<i32>,
    pub validity: Vec<bool>,
}

impl Column {
    pub open spec fn model(&self) -> ColumnModel {
        (self.name@, self.nullable, Some((self.values@, self.validity@)))
    }

    pub open spec fn cells(&self) -> Seq<Option<i32>> {
        cells_of(self.values@, self.validity@)
    }

    /// The cell at `row`: its value, or `None` where the row is null.
    pub fn get(&self, row: usize) -> (r: Option<i32>)
        requires
            row < self.values.len(),
            row < self.validity.len(),
        ensures
            r == self.cells()[row as int],
    {
        if self.validity[row] {
            Some(self.values[row])
        } else {
            None
        }
    }
}

/// A table batch: columns that all share one row count.
pub struct TableBatch {
    pub columns: Vec<Column>,
}

impl TableBatch {
    pub open spec fn model(&self) -> Seq<ColumnModel> {
        self.columns@.map_values(|c: Column| c.model())
    }

    pub open spec fn wf(&self) -> bool {
        table_fits(self.model())
    }

    pub open spec fn rows(&self) -> nat {
        declared_rows(self.model())
    }

    pub open spec fn column_view(&self, i: int) -> Column {
        self.columns@[i]
    }

    /// A batch of the given columns, or `None` where they do not fit together.
    pub fn try_new(columns: Vec<Column>) -> (r: Option<TableBatch>)
        ensures
            match r {
                Some(t) => t.columns@ == columns@ && t.wf(),
                None => !table_fits(columns@.map_values(|c: Column| c.model())),
            },
    {
        let t = TableBatch { columns };
        if t.check_fits() {
            Some(t)
        } else {
            None
        }
    }

    /// Whether the columns fit together.
    pub fn check_fits(&self) -> (r: bool)
        ensures
            r == self.wf(),
    {
        let n = self.columns.len();
        if n == 0 {
            return true;
        }
        let rows = self.columns[0].values.len();
        let mut i: usize = 0;
        while i < n
            invariant
                n == self.columns.len(),
                0 < n,
                i <= n,
                rows == self.rows(),
                forall|j: int| 0 <= j < i ==> column_fits(#[trigger] self.model()[j], self.rows()),
            decreases n - i,
        {
            let c = &self.columns[i];
            if c.values.len() != rows || c.validity.len() != rows {
                assert(!column_fits(self.model()[i as int], self.rows()));
                return false;
            }
            if !c.nullable {
                let mut k: usize = 0;
                while k < rows
                    invariant
                        k <= rows,
                        i < n,
                        n == self.columns.len(),
                        *c == self.columns@[i as int],
                        rows == self.rows(),
                        c.validity.len() == rows,
                        c.values.len() == rows,
                        !c.nullable,
                        forall|q: int| 0 <= q < k ==> #[trigger] c.validity@[q],
                    decreases rows - k,
                {
                    if !c.validity[k] {
                        assert(!column_fits(self.model()[i as int], self.rows()));
                        return false;
                    }
                    k += 1;
                }
            }
            assert(column_fits(self.model()[i as int], self.rows()));
            i += 1;
        }
        true
    }

    /// The number of rows that every column holds.
    pub fn num_rows(&self) -> (r: usize)
        requires
            self.wf(),
        ensures
            r == self.rows(),
    {
        if self.columns.len() == 0 {
            0
        } else {
            self.columns[0].values.len()
        }
    }

    pub fn num_columns(&self) -> (r: usize)
        ensures
            r == self.columns@.len(),
    {
        self.columns.len()
    }

    pub fn column(&self, i: usize) -> (r: &Column)
        requires
            i < self.columns@.len(),
        ensures
            *r == self.columns@[i as int],
    {
        &self.columns[i]
    }
}

} // verus!
