use vstd::prelude::*;

use crate::record::{records_view, Record, RecordView};
use crate::text::chars_of;

verus! {

/// What `str::to_lowercase` makes of a text.
pub uninterp spec fn lower_of(s: Seq<char>) -> Seq<char>;

/// Relies on `str::to_lowercase`: the lowercase form depends on the text alone.
#[verifier::external_body]
fn lowercase(s: &str) -> (r: String)
    ensures
        r@ == lower_of(s@),
{
    s.to_lowercase()
}

/// `needle` occurs in `hay` as a run of consecutive characters.
pub open spec fn contains(hay: Seq<char>, needle: Seq<char>) -> bool {
    exists|i: int|
        0 <= i && i + needle.len() <= hay.len() && #[trigger] hay.subrange(i, i + needle.len())
            == needle
}

/// Some field of the record holds the term, both taken in lowercase.
pub open spec fn record_matches(r: RecordView, term: Seq<char>) -> bool {
    exists|j: int| 0 <= j < r.len() && contains(lower_of(#[trigger] r[j].1), lower_of(term))
}

/// The records that match the term, each once, in table order.
pub open spec fn matching(rows: Seq<RecordView>, term: Seq<char>) -> Seq<RecordView>
    decreases rows.len(),
{
    if rows.len() == 0 {
        seq![]
    } else {
        let prev = matching(rows.drop_last(), term);
        if record_matches(rows.last(), term) {
            prev.push(rows.last())
        } else {
            prev
        }
    }
}

/// The answer to a query: `None` when the table holds no records, else every
/// record without a term and the matching ones with one.
pub open spec fn query_result(rows: Seq<RecordView>, term: Option<Seq<char>>) -> Option<
    Seq<RecordView>,
> {
    if rows.len() == 0 {
        None
    } else {
        match term {
            None => Some(rows),
            Some(t) => Some(matching(rows, t)),
        }
    }
}

/// The outcome of a query.
#[derive(Debug, PartialEq, Eq)]
pub enum QueryOutcome {
    /// The table holds no records yet.
    NoData,
    /// The records found; possibly none.
    Records(Vec<Record>),
}

/// The records of an outcome; `None` for `NoData`.
pub open spec fn outcome_view(o: QueryOutcome) -> Option<Seq<RecordView>> {
    match o {
        QueryOutcome::NoData => None,
        QueryOutcome::Records(v) => Some(records_view(v@)),
    }
}

/// The characters of an optional term.
pub open spec fn term_view(term: Option<&str>) -> Option<Seq<char>> {
    match term {
        Some(t) => Some(t@),
        None => None,
    }
}

/// Whether `needle` occurs in `hay`; both are taken as given, so callers pass
/// them already in lowercase.
pub fn contains_folded(hay: &str, needle: &str) -> (r: bool)
    ensures
        r == contains(hay@, needle@),
{
    let h = chars_of(hay);
    let n = chars_of(needle);
    if n.len() > h.len() {
        return false;
    }
    let hl = h.len();
    let last = hl - n.len();
    let mut i: usize = 0;
    loop
        invariant
            h@ == hay@,
            n@ == needle@,
            i <= last,
            hl == h@.len(),
            last == h@.len() - n@.len(),
            forall|k: int| 0 <= k < i ==> #[trigger] h@.subrange(k, k + n@.len()) != n@,
        ensures
            !contains(hay@, needle@),
        decreases last - i,
    {
        let mut j: usize = 0;
        while j < n.len()
            invariant
                i <= last,
                h@.len() == last + n@.len(),
                j <= n@.len(),
                hl == h@.len(),
                forall|k: int| 0 <= k < j ==> h@[i + k] == n@[k],
            ensures
                j == n@.len() || h@[i + j] != n@[j as int],
            decreases n.len() - j,
        {
            let at: usize = i + j;
            if h[at] != n[j] {
                break;
            }
            j = j + 1;
        }
        if j == n.len() {
            assert(h@.subrange(i as int, i + n@.len()) =~= n@);
            return true;
        }
        assert(h@.subrange(i as int, i + n@.len())[j as int] != n@[j as int]);
        if i == last {
            break;
        }
        i = i + 1;
    }
    false
}

/// Whether some field of the record, in lowercase, holds the lowercase term.
fn record_has(r: &Record, folded_term: &String, term: Ghost<Seq<char>>) -> (b: bool)
    requires
        folded_term@ == lower_of(term@),
    ensures
        b == record_matches(r@, term@),
{
    let mut j: usize = 0;
    while j < r.fields.len()
        invariant
            j <= r.fields@.len(),
            folded_term@ == lower_of(term@),
            forall|k: int| 0 <= k < j ==> !contains(lower_of(#[trigger] r@[k].1), lower_of(term@)),
        decreases r.fields.len() - j,
    {
        let v = r.fields[j].value.as_str();
        assert(v@ == r.fields@[j as int].value@);
        let folded = lowercase(v);
        assert(r@[j as int].1 == r.fields@[j as int].value@);
        let fs = folded.as_str();
        let ts = folded_term.as_str();
        assert(fs@ == lower_of(r@[j as int].1));
        assert(ts@ == lower_of(term@));
        if contains_folded(fs, ts) {
            assert(contains(lower_of(r@[j as int].1), lower_of(term@)));
            return true;
        }
        j = j + 1;
    }
    false
}

/// Answers a query on a snapshot: `NoData` for an empty snapshot; else every
/// record without a term, and with one each record that has a field holding
/// the term, ignoring case.
pub fn query(snapshot: &Vec<Record>, term: Option<&str>) -> (r: QueryOutcome)
    ensures
        outcome_view(r) == query_result(records_view(snapshot@), term_view(term)),
{
    if snapshot.len() == 0 {
        return QueryOutcome::NoData;
    }
    let ghost rows = records_view(snapshot@);
    match term {
        None => QueryOutcome::Records(crate::record::copy_records(snapshot)),
        Some(t) => {
            let folded_term = lowercase(t);
            let mut found: Vec<Record> = Vec::new();
            let mut i: usize = 0;
            while i < snapshot.len()
                invariant
                    i <= snapshot@.len(),
                    rows == records_view(snapshot@),
                    folded_term@ == lower_of(t@),
                    records_view(found@) == matching(rows.subrange(0, i as int), t@),
                decreases snapshot.len() - i,
            {
                assert(rows.subrange(0, i + 1).drop_last() =~= rows.subrange(0, i as int));
                if record_has(&snapshot[i], &folded_term, Ghost(t@)) {
                    found.push(snapshot[i].copied());
                    assert(records_view(found@) =~= matching(rows.subrange(0, i + 1), t@));
                } else {
                    assert(records_view(found@) =~= matching(rows.subrange(0, i + 1), t@));
                }
                i = i + 1;
            }
            assert(rows.subrange(0, i as int) =~= rows);
            QueryOutcome::Records(found)
        },
    }
}

proof fn lemma_matching_ignores_case(rows: Seq<RecordView>, a: Seq<char>, b: Seq<char>)
    requires
        lower_of(a) == lower_of(b),
    ensures
        matching(rows, a) == matching(rows, b),
    decreases rows.len(),
{
    if rows.len() > 0 {
        lemma_matching_ignores_case(rows.drop_last(), a, b);
        assert(record_matches(rows.last(), a) == record_matches(rows.last(), b));
    }
}

/// Terms that have the same lowercase form give the same answer.
pub proof fn lemma_query_ignores_case(rows: Seq<RecordView>, a: Seq<char>, b: Seq<char>)
    requires
        lower_of(a) == lower_of(b),
    ensures
        query_result(rows, Some(a)) == query_result(rows, Some(b)),
{
    lemma_matching_ignores_case(rows, a, b);
}

/// A query without a term on a table with records answers all of them.
pub proof fn lemma_query_without_term(rows: Seq<RecordView>)
    requires
        rows.len() > 0,
    ensures
        query_result(rows, None) == Some(rows),
{
}

/// A query on an empty table answers "no data", whatever the term.
pub proof fn lemma_empty_table_has_no_data(rows: Seq<RecordView>, term: Option<Seq<char>>)
    requires
        rows.len() == 0,
    ensures
        query_result(rows, term) is None,
{
}

} // verus!
