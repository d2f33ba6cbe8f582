//! Labels: an immutable relation annotating one axis of a block.
//!
//! A `Labels` value has named columns and rows of integer tuples; rows are
//! unique, keep their insertion order, and all have one value per column
//! name. It is built incrementally with [`LabelsBuilder`] and immutable once
//! finished, so it can be shared by reference (through `Arc`) across many
//! blocks.

use vstd::prelude::*;

use crate::error::Error;

verus! {

/// One coordinate of a label tuple: a 32-bit signed integer cell.
#[derive(Debug, Clone, Copy, PartialEq, Eq, Structural, Hash, PartialOrd, Ord)]
pub struct LabelValue(pub i32);

impl View for LabelValue {
    type V = int;

    open spec fn view(&self) -> int {
        self.0 as int
    }
}

impl DeepView for LabelValue {
    type V = int;

    open spec fn deep_view(&self) -> int {
        self.view()
    }
}

impl LabelValue {
    /// Wrap a plain integer as a label coordinate.
    pub fn new(value: i32) -> (r: LabelValue)
        ensures
            r@ == value as int,
    {
        LabelValue(value)
    }

    /// The plain integer held by this coordinate.
    pub fn value(&self) -> (r: i32)
        ensures
            r as int == self@,
    {
        self.0
    }
}

/// No two positions of the sequence hold the same element.
pub open spec fn all_distinct<T>(s: Seq<T>) -> bool {
    forall|i: int, j: int| 0 <= i < j < s.len() ==> s[i] != s[j]
}

/// The mathematical content of a `Labels` (or of a `LabelsBuilder`): the
/// column names and the rows, in insertion order.
#[verifier::ext_equal]
pub struct LabelsView {
    pub names: Seq<Seq<char>>,
    pub rows: Seq<Seq<int>>,
}

impl LabelsView {
    /// How many columns the relation has.
    pub open spec fn width(self) -> nat {
        self.names.len()
    }

    /// How many rows the relation has.
    pub open spec fn count(self) -> nat {
        self.rows.len()
    }

    /// The row is one of the rows of the relation.
    pub open spec fn has_row(self, row: Seq<int>) -> bool {
        exists|i: int| 0 <= i < self.rows.len() && self.rows[i] == row
    }

    /// Validity: names are unique, rows are unique, and every row is exactly
    /// as wide as the name list.
    pub open spec fn wf(self) -> bool {
        &&& all_distinct(self.names)
        &&& all_distinct(self.rows)
        &&& forall|i: int| 0 <= i < self.rows.len() ==> (#[trigger] self.rows[i]).len()
            == self.names.len()
    }
}

/// An immutable relation: named columns and unique rows of [`LabelValue`],
/// in insertion order.
#[derive(Debug)]
pub struct Labels {
    names: Vec<String>,
    entries: Vec<Vec<LabelValue>>,
}

impl View for Labels {
    type V = LabelsView;

    closed spec fn view(&self) -> LabelsView {
        LabelsView { names: self.names.deep_view(), rows: self.entries.deep_view() }
    }
}

impl DeepView for Labels {
    type V = LabelsView;

    open spec fn deep_view(&self) -> LabelsView {
        self.view()
    }
}

/// Compare two rows of coordinates for equality.
pub fn rows_equal(a: &Vec<LabelValue>, b: &Vec<LabelValue>) -> (r: bool)
    ensures
        r == (a.deep_view() == b.deep_view()),
{
    if a.len() != b.len() {
        proof {
            assert(a.deep_view().len() != b.deep_view().len());
        }
        return false;
    }
    let mut i: usize = 0;
    while i < a.len()
        invariant
            i <= a.len(),
            a@.len() == b@.len(),
            forall|k: int| 0 <= k < i ==> a.deep_view()[k] == b.deep_view()[k],
        decreases a.len() - i,
    {
        if a[i].0 != b[i].0 {
            proof {
                assert(a.deep_view()[i as int] != b.deep_view()[i as int]);
            }
            return false;
        }
        i = i + 1;
    }
    proof {
        assert(a.deep_view() =~= b.deep_view());
    }
    true
}

/// Compare two lists of column names for equality.
pub fn names_equal(a: &Vec<String>, b: &Vec<String>) -> (r: bool)
    ensures
        r == (a.deep_view() == b.deep_view()),
{
    if a.len() != b.len() {
        proof {
            assert(a.deep_view().len() != b.deep_view().len());
        }
        return false;
    }
    let mut i: usize = 0;
    while i < a.len()
        invariant
            i <= a.len(),
            a@.len() == b@.len(),
            forall|k: int| 0 <= k < i ==> a.deep_view()[k] == b.deep_view()[k],
        decreases a.len() - i,
    {
        if !a[i].eq(&b[i]) {
            proof {
                assert(a.deep_view()[i as int] != b.deep_view()[i as int]);
            }
            return false;
        }
        i = i + 1;
    }
    proof {
        assert(a.deep_view() =~= b.deep_view());
    }
    true
}

/// Copy a row of coordinates.
pub fn copy_row(row: &Vec<LabelValue>) -> (r: Vec<LabelValue>)
    ensures
        r@ == row@,
{
    let mut r: Vec<LabelValue> = Vec::new();
    let mut i: usize = 0;
    while i < row.len()
        invariant
            i <= row.len(),
            r@ == row@.take(i as int),
        decreases row.len() - i,
    {
        r.push(row[i]);
        proof {
            assert(r@ =~= row@.take(i + 1));
        }
        i = i + 1;
    }
    proof {
        assert(row@.take(row@.len() as int) =~= row@);
    }
    r
}

/// Copy a list of column names.
pub fn copy_names(names: &Vec<String>) -> (r: Vec<String>)
    ensures
        r.deep_view() == names.deep_view(),
{
    let mut r: Vec<String> = Vec::new();
    let mut i: usize = 0;
    while i < names.len()
        invariant
            i <= names.len(),
            r.deep_view() =~= names.deep_view().take(i as int),
        decreases names.len() - i,
    {
        let ghost prev = r.deep_view();
        r.push(names[i].clone());
        proof {
            assert(r.deep_view() =~= prev.push(names.deep_view()[i as int]));
            assert(r.deep_view() =~= names.deep_view().take(i + 1));
        }
        i = i + 1;
    }
    proof {
        assert(names.deep_view().take(names@.len() as int) =~= names.deep_view());
    }
    r
}

/// Compare two label relations for equality: same names, same rows, in the
/// same order.
pub fn labels_equal(a: &Labels, b: &Labels) -> (r: bool)
    ensures
        r == (a@ == b@),
{
    if !names_equal(a.names(), b.names()) {
        return false;
    }
    if a.count() != b.count() {
        proof {
            assert(a@.rows.len() != b@.rows.len());
        }
        return false;
    }
    let mut i: usize = 0;
    while i < a.count()
        invariant
            i <= a@.rows.len(),
            a@.rows.len() == b@.rows.len(),
            a@.names == b@.names,
            forall|k: int| 0 <= k < i ==> a@.rows[k] == b@.rows[k],
        decreases a@.rows.len() - i,
    {
        if !rows_equal(a.row(i), b.row(i)) {
            return false;
        }
        i = i + 1;
    }
    proof {
        assert(a@.rows =~= b@.rows);
        assert(a@ == b@);
    }
    true
}

/// Concatenate two rows of coordinates.
pub fn concat_rows(a: &Vec<LabelValue>, b: &Vec<LabelValue>) -> (r: Vec<LabelValue>)
    ensures
        r.deep_view() == a.deep_view() + b.deep_view(),
{
    let mut r: Vec<LabelValue> = copy_row(a);
    let mut i: usize = 0;
    while i < b.len()
        invariant
            i <= b.len(),
            r@ == a@ + b@.take(i as int),
        decreases b.len() - i,
    {
        r.push(b[i]);
        proof {
            assert(r@ =~= a@ + b@.take(i + 1));
        }
        i = i + 1;
    }
    proof {
        assert(b@.take(b@.len() as int) =~= b@);
        assert(r.deep_view() =~= a.deep_view() + b.deep_view());
    }
    r
}

/// Concatenate two lists of column names.
pub fn concat_names(a: &Vec<String>, b: &Vec<String>) -> (r: Vec<String>)
    ensures
        r.deep_view() == a.deep_view() + b.deep_view(),
{
    let mut r: Vec<String> = copy_names(a);
    let mut i: usize = 0;
    while i < b.len()
        invariant
            i <= b.len(),
            r.deep_view() =~= a.deep_view() + b.deep_view().take(i as int),
        decreases b.len() - i,
    {
        let ghost prev = r.deep_view();
        r.push(b[i].clone());
        proof {
            assert(r.deep_view() =~= prev.push(b.deep_view()[i as int]));
            assert(r.deep_view() =~= a.deep_view() + b.deep_view().take(i + 1));
        }
        i = i + 1;
    }
    proof {
        assert(b.deep_view().take(b@.len() as int) =~= b.deep_view());
    }
    r
}

impl Labels {
    #[verifier::type_invariant]
    pub(crate) open spec fn type_inv(self) -> bool {
        self@.wf()
    }

    /// The trivial relation with zero columns and a single (empty) row,
    /// modeling "no extra key dimension".
    pub fn single() -> (r: Labels)
        ensures
            r@.names =~= Seq::<Seq<char>>::empty(),
            r@.rows =~= seq![Seq::<int>::empty()],
    {
        let names: Vec<String> = Vec::new();
        let mut entries: Vec<Vec<LabelValue>> = Vec::new();
        let row: Vec<LabelValue> = Vec::new();
        entries.push(row);
        let r = Labels { names, entries };
        proof {
            assert(r@.names =~= Seq::<Seq<char>>::empty());
            assert(r@.rows[0] =~= Seq::<int>::empty());
            assert(r@.rows =~= seq![Seq::<int>::empty()]);
        }
        r
    }

    /// The column names, in order.
    pub fn names(&self) -> (r: &Vec<String>)
        ensures
            r.deep_view() == self@.names,
    {
        &self.names
    }

    /// The number of columns.
    pub fn size(&self) -> (r: usize)
        ensures
            r == self@.width(),
    {
        self.names.len()
    }

    /// The number of rows.
    pub fn count(&self) -> (r: usize)
        ensures
            r == self@.count(),
    {
        self.entries.len()
    }

    /// The row at the given position.
    pub fn row(&self, i: usize) -> (r: &Vec<LabelValue>)
        requires
            i < self@.count(),
        ensures
            r.deep_view() == self@.rows[i as int],
    {
        &self.entries[i]
    }

    /// All rows, in insertion order. Each call returns the identical
    /// sequence: a `Labels` is never modified after it is built.
    pub fn iter(&self) -> (r: &Vec<Vec<LabelValue>>)
        ensures
            r.deep_view() == self@.rows,
    {
        &self.entries
    }

    /// Reverse lookup: the position holding exactly this row, if any.
    pub fn position(&self, row: &Vec<LabelValue>) -> (r: Option<usize>)
        ensures
            match r {
                Some(i) => i < self@.count() && self@.rows[i as int] == row.deep_view(),
                None => !self@.has_row(row.deep_view()),
            },
    {
        let mut i: usize = 0;
        while i < self.entries.len()
            invariant
                i <= self.entries.len(),
                forall|k: int| 0 <= k < i ==> self@.rows[k] != row.deep_view(),
            decreases self.entries.len() - i,
        {
            if rows_equal(&self.entries[i], row) {
                return Some(i);
            }
            i = i + 1;
        }
        None
    }
}

/// In any valid labels relation every row is unique: no two positions hold
/// the same tuple.
pub proof fn lemma_valid_labels_rows_unique(v: LabelsView)
    requires
        v.wf(),
    ensures
        forall|i: int, j: int| 0 <= i < j < v.rows.len() ==> v.rows[i] != v.rows[j],
{
}

/// Iteration is restartable: any two results of `iter` on the same labels
/// are the identical sequence, the rows in their insertion order.
pub proof fn lemma_iter_restart(
    labels: &Labels,
    first: &Vec<Vec<LabelValue>>,
    second: &Vec<Vec<LabelValue>>,
)
    requires
        call_ensures(Labels::iter, (labels,), first),
        call_ensures(Labels::iter, (labels,), second),
    ensures
        first.deep_view() == labels@.rows,
        second.deep_view() == labels@.rows,
        first.deep_view() == second.deep_view(),
{
}

/// Incremental builder for [`Labels`]: fix the column names, add unique rows
/// one by one, then finish into an immutable relation.
#[derive(Debug)]
pub struct LabelsBuilder {
    names: Vec<String>,
    entries: Vec<Vec<LabelValue>>,
}

impl View for LabelsBuilder {
    type V = LabelsView;

    closed spec fn view(&self) -> LabelsView {
        LabelsView { names: self.names.deep_view(), rows: self.entries.deep_view() }
    }
}

impl LabelsBuilder {
    /// Start a builder with the given column names; fails if a name appears
    /// twice.
    pub fn new(names: Vec<String>) -> (r: Result<LabelsBuilder, Error>)
        ensures
            r.is_ok() <==> all_distinct(names.deep_view()),
            r matches Ok(b) ==> b@.names == names.deep_view() && b@.rows
                =~= Seq::<Seq<int>>::empty() && b@.wf(),
            r matches Err(e) ==> (e matches Error::DuplicateName { name } && exists|i: int, j: int|
                0 <= i < j < names.deep_view().len() && names.deep_view()[i]
                == names.deep_view()[j] && name@ == names.deep_view()[j]),
    {
        let mut j: usize = 1;
        while j < names.len()
            invariant
                1 <= j || names@.len() == 0,
                j <= names@.len() || names@.len() == 0,
                forall|x: int, y: int| 0 <= x < y < j && y < names@.len()
                    ==> names.deep_view()[x] != names.deep_view()[y],
            decreases names.len() - j,
        {
            let mut i: usize = 0;
            while i < j
                invariant
                    i <= j < names@.len(),
                    forall|x: int| 0 <= x < i
                        ==> names.deep_view()[x] != names.deep_view()[j as int],
                decreases j - i,
            {
                if names[i].eq(&names[j]) {
                    proof {
                        let dv = names.deep_view();
                        assert(dv[i as int] == dv[j as int]);
                        assert(!all_distinct(dv));
                    }
                    return Err(Error::DuplicateName { name: names[j].clone() });
                }
                proof {
                    assert(names.deep_view()[i as int] != names.deep_view()[j as int]);
                }
                i = i + 1;
            }
            j = j + 1;
        }
        let b = LabelsBuilder { names, entries: Vec::new() };
        proof {
            assert(b@.rows =~= Seq::<Seq<int>>::empty());
        }
        Ok(b)
    }

    /// Add one row. Fails if the row is not as wide as the name list, or if
    /// the same row was already added.
    pub fn add(&mut self, row: &Vec<LabelValue>) -> (r: Result<(), Error>)
        requires
            old(self)@.wf(),
        ensures
            final(self)@.names == old(self)@.names,
            final(self)@.wf(),
            r.is_ok() <==> (row.deep_view().len() == old(self)@.width() && !old(self)@.has_row(
                row.deep_view(),
            )),
            r.is_ok() ==> final(self)@.rows == old(self)@.rows.push(row.deep_view()),
            r.is_err() ==> *final(self) == *old(self),
            row.deep_view().len() != old(self)@.width() ==> (r matches Err(
                Error::WrongRowLength { expected, got },
            ) && expected == old(self)@.width() && got == row@.len()),
            row.deep_view().len() == old(self)@.width() && old(self)@.has_row(row.deep_view())
                ==> r matches Err(Error::DuplicateRow),
    {
        if row.len() != self.names.len() {
            return Err(
                Error::WrongRowLength { expected: self.names.len(), got: row.len() },
            );
        }
        let mut i: usize = 0;
        while i < self.entries.len()
            invariant
                *self == *old(self),
                old(self)@.wf(),
                row.deep_view().len() == old(self)@.width(),
                i <= self.entries.len(),
                forall|k: int| 0 <= k < i ==> self@.rows[k] != row.deep_view(),
            decreases self.entries.len() - i,
        {
            if rows_equal(&self.entries[i], row) {
                proof {
                    assert(old(self)@.rows[i as int] == row.deep_view());
                }
                return Err(Error::DuplicateRow);
            }
            i = i + 1;
        }
        self.add_unique(row);
        Ok(())
    }

    /// Add a row that the caller has proved fresh, without scanning for a
    /// duplicate. The axis-migration algorithm uses this: its proof shows
    /// every Cartesian-product row is new, so the builder need not re-check,
    /// and the construction stays linear in the number of rows it emits.
    pub fn add_unique(&mut self, row: &Vec<LabelValue>)
        requires
            old(self)@.wf(),
            row.deep_view().len() == old(self)@.width(),
            !old(self)@.has_row(row.deep_view()),
        ensures
            final(self)@.names == old(self)@.names,
            final(self)@.rows == old(self)@.rows.push(row.deep_view()),
            final(self)@.wf(),
    {
        self.entries.push(copy_row(row));
        proof {
            assert(self@.rows =~= old(self)@.rows.push(row.deep_view()));
            assert forall|i: int, j: int| 0 <= i < j < self@.rows.len() implies self@.rows[i]
                != self@.rows[j] by {
                if j == self@.rows.len() - 1 {
                    assert(self@.rows[i] == old(self)@.rows[i]);
                }
            }
        }
    }

    /// Finish the builder into an immutable `Labels`.
    pub fn finish(self) -> (r: Labels)
        requires
            self@.wf(),
        ensures
            r@ == self@,
    {
        let r = Labels { names: self.names, entries: self.entries };
        proof {
            assert(r@ =~= self@);
        }
        r
    }
}

} // verus!
