use vstd::prelude::*;
use vstd::rwlock::{RwLock, RwLockPredicate};

use crate::query::{query, query_result, term_view, outcome_view, QueryOutcome};
use crate::record::{accepts_type, declared_view, decoded, records_view, type_accepted, LoadError, Record, RecordView};
use crate::table::{whole_load, Table};

verus! {

/// The lock's invariant: the guarded table holds no records or those of one load.
pub struct WholeTable {}

impl RwLockPredicate<Table> for WholeTable {
    open spec fn inv(self, t: Table) -> bool {
        t.wf()
    }
}

/// The table shared by concurrent loaders and readers. Readers share the lock;
/// a load decodes without it and holds it alone only to put the new table in.
pub struct Store {
    lock: RwLock<Table, WholeTable>,
}

impl Store {
    /// The lock guards its table with the whole-table invariant.
    pub closed spec fn wf(&self) -> bool {
        self.lock.pred() == WholeTable {}
    }

    /// A store with an empty table.
    pub fn new() -> (s: Store)
        ensures
            s.wf(),
    {
        Store { lock: RwLock::new(Table::new(), Ghost(WholeTable {})) }
    }

    /// Decodes `text` and, on success, replaces the whole table with its records
    /// in one step; on any error the table is not touched.
    pub fn load(&self, text: &str) -> (r: Result<(), LoadError>)
        requires
            self.wf(),
        ensures
            match r {
                Ok(()) => decoded(text@) is Ok,
                Err(e) => decoded(text@) == Err::<Seq<RecordView>, LoadError>(e),
            },
    {
        match Table::from_decoded(text) {
            Ok(t) => {
                let (_old, handle) = self.lock.acquire_write();
                handle.release_write(t);
                Ok(())
            },
            Err(e) => Err(e),
        }
    }

    /// Loads an upload: refuses a declared content type other than `text/csv`,
    /// then loads the text.
    pub fn upload(&self, declared: Option<&str>, text: &str) -> (r: Result<(), LoadError>)
        requires
            self.wf(),
        ensures
            !type_accepted(declared_view(declared)) ==> r == Err::<(), LoadError>(
                LoadError::WrongType,
            ),
            type_accepted(declared_view(declared)) ==> match r {
                Ok(()) => decoded(text@) is Ok,
                Err(e) => decoded(text@) == Err::<Seq<RecordView>, LoadError>(e),
            },
    {
        if !accepts_type(declared) {
            return Err(LoadError::WrongType);
        }
        self.load(text)
    }

    /// A copy of the records at one moment: none, or all the records of one
    /// load and nothing else.
    pub fn snapshot(&self) -> (r: Vec<Record>)
        requires
            self.wf(),
        ensures
            whole_load(records_view(r@)),
    {
        let handle = self.lock.acquire_read();
        let rows = handle.borrow().snapshot();
        handle.release_read();
        rows
    }

    /// Answers a query on a snapshot of the table.
    pub fn query(&self, term: Option<&str>) -> (r: QueryOutcome)
        requires
            self.wf(),
        ensures
            exists|rows: Seq<RecordView>|
                whole_load(rows) && outcome_view(r) == #[trigger] query_result(rows, term_view(term)),
    {
        let rows = self.snapshot();
        let r = query(&rows, term);
        assert(outcome_view(r) == query_result(records_view(rows@), term_view(term)));
        r
    }
}

} // verus!
