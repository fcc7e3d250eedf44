use vstd::prelude::*;

use crate::record::{
    copy_records, decode, decoded, field_names, header_of, records_view, LoadError, Record,
    RecordView,
};

verus! {

/// The table after loading `text` into a table holding `rows`: the decoded
/// records on success, `rows` unchanged on any error.
pub open spec fn after_load(rows: Seq<RecordView>, text: Seq<char>) -> Seq<RecordView> {
    match decoded(text) {
        Ok(new_rows) => new_rows,
        Err(_) => rows,
    }
}

/// A table's rows are empty, or exactly what one text decoded to.
pub open spec fn whole_load(rows: Seq<RecordView>) -> bool {
    rows.len() == 0 || exists|t: Seq<char>| #[trigger] decoded(t) == Ok::<Seq<RecordView>, LoadError>(rows)
}

/// The in-memory table of records, replaced as a whole by each successful load.
pub struct Table {
    records: Vec<Record>,
}

impl View for Table {
    type V = Seq<RecordView>;

    closed spec fn view(&self) -> Seq<RecordView> {
        records_view(self.records@)
    }
}

impl Table {
    /// The table's invariant: it holds no records or the records of one load.
    pub open spec fn wf(&self) -> bool {
        whole_load(self@)
    }

    /// An empty table.
    pub fn new() -> (t: Table)
        ensures
            t@.len() == 0,
            t.wf(),
    {
        Table { records: Vec::new() }
    }

    /// The table holding what `text` decodes to.
    pub fn from_decoded(text: &str) -> (r: Result<Table, LoadError>)
        ensures
            match r {
                Ok(t) => decoded(text@) == Ok::<Seq<RecordView>, LoadError>(t@) && t.wf(),
                Err(e) => decoded(text@) == Err::<Seq<RecordView>, LoadError>(e),
            },
    {
        match decode(text) {
            Ok(records) => Ok(Table { records }),
            Err(e) => Err(e),
        }
    }

    /// Decodes `text` and, on success only, replaces every record with the
    /// decoded ones.
    pub fn load(&mut self, text: &str) -> (r: Result<(), LoadError>)
        requires
            old(self).wf(),
        ensures
            final(self).wf(),
            final(self)@ == after_load(old(self)@, text@),
            match r {
                Ok(()) => decoded(text@) is Ok,
                Err(e) => decoded(text@) == Err::<Seq<RecordView>, LoadError>(e),
            },
    {
        match Table::from_decoded(text) {
            Ok(t) => {
                *self = t;
                Ok(())
            },
            Err(e) => Err(e),
        }
    }

    /// A copy of every record, in order.
    pub fn snapshot(&self) -> (r: Vec<Record>)
        ensures
            records_view(r@) == self@,
    {
        copy_records(&self.records)
    }

    /// The number of records.
    pub fn len(&self) -> (n: usize)
        ensures
            n == self@.len(),
    {
        self.records.len()
    }
}

/// A successful load replaces everything: after loading `a` and then a text
/// `b` that decodes, the table holds exactly `b`'s records, whatever it held
/// before and whatever became of `a`.
pub proof fn lemma_replace_all(rows: Seq<RecordView>, a: Seq<char>, b: Seq<char>)
    requires
        decoded(b) is Ok,
    ensures
        after_load(after_load(rows, a), b) == decoded(b)->Ok_0,
{
}

/// A load that fails leaves the table as it was.
pub proof fn lemma_failed_load_keeps_table(rows: Seq<RecordView>, text: Seq<char>)
    requires
        decoded(text) is Err,
    ensures
        after_load(rows, text) == rows,
{
}

/// Every record of a successful load has exactly the header's columns, in the
/// header's order, so its set of keys is the header's set of names.
pub proof fn lemma_records_follow_header(text: Seq<char>, i: int)
    requires
        decoded(text) is Ok,
        0 <= i < decoded(text)->Ok_0.len(),
    ensures
        field_names(decoded(text)->Ok_0[i]) == header_of(text),
        field_names(decoded(text)->Ok_0[i]).to_set() == header_of(text).to_set(),
{
    assert(field_names(decoded(text)->Ok_0[i]) =~= header_of(text));
}

/// Loading keeps the invariant that a table holds one load's records.
pub proof fn lemma_load_keeps_whole(rows: Seq<RecordView>, text: Seq<char>)
    requires
        whole_load(rows),
    ensures
        whole_load(after_load(rows, text)),
{
}

} // verus!
