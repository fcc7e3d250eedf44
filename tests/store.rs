use csv_table::query::{contains_folded, query, QueryOutcome};
use csv_table::record::{accepts_type, decode, Field, LoadError, Record};
use csv_table::store::Store;
use csv_table::table::Table;

fn rec(pairs: &[(&str, &str)]) -> Record {
    Record {
        fields: pairs
            .iter()
            .map(|(n, v)| Field { name: n.to_string(), value: v.to_string() })
            .collect(),
    }
}

fn alice() -> Record {
    rec(&[("name", "Alice"), ("age", "30")])
}

fn bob() -> Record {
    rec(&[("name", "Bob"), ("age", "25")])
}

const PEOPLE: &str = "name,age\nAlice,30\nBob,25";

#[test]
fn load_two_rows() {
    let store = Store::new();
    assert_eq!(store.load(PEOPLE), Ok(()));
    assert_eq!(store.snapshot(), vec![alice(), bob()]);
}

#[test]
fn load_empty_text_is_refused() {
    let store = Store::new();
    assert_eq!(store.load(""), Err(LoadError::EmptyInput));
    assert_eq!(store.snapshot(), Vec::<Record>::new());
}

#[test]
fn load_white_space_only_is_refused() {
    let store = Store::new();
    assert_eq!(store.load("  \n\t \r\n"), Err(LoadError::EmptyInput));
}

#[test]
fn load_header_only_is_refused() {
    let store = Store::new();
    assert_eq!(store.load("name,age"), Err(LoadError::NoRecords));
    assert_eq!(store.load("name,age\n\n"), Err(LoadError::NoRecords));
}

#[test]
fn load_short_row_is_refused() {
    let store = Store::new();
    assert_eq!(store.load("name,age\nAlice"), Err(LoadError::ShortRow));
    assert_eq!(store.snapshot(), Vec::<Record>::new());
}

#[test]
fn load_ignores_extra_cells() {
    let store = Store::new();
    assert_eq!(store.load("name,age\nAlice,30,x"), Ok(()));
    assert_eq!(store.snapshot(), vec![alice()]);
}

#[test]
fn load_handles_crlf_and_surrounding_space() {
    let store = Store::new();
    assert_eq!(store.load("\n  name,age\r\nAlice,30\r\nBob,25\r\n\n"), Ok(()));
    assert_eq!(store.snapshot(), vec![alice(), bob()]);
    assert_eq!(store.load("a, b\r\n x ,y\t"), Ok(()));
    assert_eq!(store.snapshot(), vec![rec(&[("a", " x "), (" b", "y")])]);
}

#[test]
fn load_keeps_empty_cells() {
    let store = Store::new();
    assert_eq!(store.load("a,b\n,\nx,"), Ok(()));
    assert_eq!(
        store.snapshot(),
        vec![rec(&[("a", ""), ("b", "")]), rec(&[("a", "x"), ("b", "")])]
    );
}

#[test]
fn second_load_replaces_first() {
    let store = Store::new();
    assert_eq!(store.load(PEOPLE), Ok(()));
    assert_eq!(store.load("city\nOslo"), Ok(()));
    assert_eq!(store.snapshot(), vec![rec(&[("city", "Oslo")])]);
}

#[test]
fn failed_load_keeps_table() {
    let store = Store::new();
    assert_eq!(store.load(PEOPLE), Ok(()));
    let before = store.snapshot();
    assert_eq!(store.load(""), Err(LoadError::EmptyInput));
    assert_eq!(store.load("city"), Err(LoadError::NoRecords));
    assert_eq!(store.load("a,b\n1"), Err(LoadError::ShortRow));
    assert_eq!(store.snapshot(), before);
}

#[test]
fn records_carry_the_header_keys() {
    let rows = decode("id,name,mail\n1,Ann,a@x\n2,Ben,b@x").unwrap();
    assert_eq!(rows.len(), 2);
    for r in &rows {
        let names: Vec<&str> = r.fields.iter().map(|f| f.name.as_str()).collect();
        assert_eq!(names, vec!["id", "name", "mail"]);
    }
}

#[test]
fn query_ignores_case_of_term() {
    let store = Store::new();
    store.load(PEOPLE).unwrap();
    assert_eq!(store.query(Some("ALI")), store.query(Some("ali")));
    assert_eq!(store.query(Some("ABC")), store.query(Some("abc")));
    assert_eq!(store.query(Some("ALI")), QueryOutcome::Records(vec![alice()]));
}

#[test]
fn query_ignores_case_of_cells() {
    let store = Store::new();
    store.load("name\nALICE\nbob").unwrap();
    assert_eq!(store.query(Some("alice")), QueryOutcome::Records(vec![rec(&[("name", "ALICE")])]));
}

#[test]
fn query_without_term_is_snapshot() {
    let store = Store::new();
    store.load(PEOPLE).unwrap();
    assert_eq!(store.query(None), QueryOutcome::Records(store.snapshot()));
}

#[test]
fn query_on_empty_table_has_no_data() {
    let store = Store::new();
    assert_eq!(store.query(None), QueryOutcome::NoData);
    assert_eq!(store.query(Some("ali")), QueryOutcome::NoData);
    assert_eq!(store.query(Some("")), QueryOutcome::NoData);
}

#[test]
fn query_finds_ali() {
    let store = Store::new();
    store.load(PEOPLE).unwrap();
    assert_eq!(store.query(Some("ali")), QueryOutcome::Records(vec![alice()]));
}

#[test]
fn query_finds_nothing() {
    let store = Store::new();
    store.load(PEOPLE).unwrap();
    assert_eq!(store.query(Some("zzz")), QueryOutcome::Records(vec![]));
}

#[test]
fn query_lists_a_record_once() {
    let rows = decode("a,b\nxa,xb\nyy,zz").unwrap();
    assert_eq!(
        query(&rows, Some("x")),
        QueryOutcome::Records(vec![rec(&[("a", "xa"), ("b", "xb")])])
    );
}

#[test]
fn query_with_empty_term_matches_all() {
    let rows = decode(PEOPLE).unwrap();
    assert_eq!(query(&rows, Some("")), QueryOutcome::Records(vec![alice(), bob()]));
}

#[test]
fn query_matches_any_field() {
    let rows = decode(PEOPLE).unwrap();
    assert_eq!(query(&rows, Some("25")), QueryOutcome::Records(vec![bob()]));
}

#[test]
fn query_keeps_non_ascii() {
    let rows = decode("name\nÉLODIE\nZoë").unwrap();
    assert_eq!(query(&rows, Some("élo")), QueryOutcome::Records(vec![rec(&[("name", "ÉLODIE")])]));
    assert_eq!(query(&rows, Some("ZOË")), QueryOutcome::Records(vec![rec(&[("name", "Zoë")])]));
}

#[test]
fn contains_folded_cases() {
    assert!(contains_folded("alice", "li"));
    assert!(contains_folded("alice", ""));
    assert!(contains_folded("alice", "alice"));
    assert!(!contains_folded("alice", "alicee"));
    assert!(!contains_folded("alice", "Li"));
    assert!(!contains_folded("", "a"));
}

#[test]
fn upload_refuses_other_types() {
    let store = Store::new();
    assert_eq!(store.upload(Some("application/json"), PEOPLE), Err(LoadError::WrongType));
    assert_eq!(store.snapshot(), Vec::<Record>::new());
    assert_eq!(store.upload(Some("text/csv"), ""), Err(LoadError::EmptyInput));
    assert_eq!(store.upload(None, PEOPLE), Ok(()));
    assert_eq!(store.upload(Some("text/csv"), "x\n1"), Ok(()));
    assert_eq!(store.snapshot(), vec![rec(&[("x", "1")])]);
}

#[test]
fn accepts_only_csv() {
    assert!(accepts_type(None));
    assert!(accepts_type(Some("text/csv")));
    assert!(!accepts_type(Some("text/csvx")));
    assert!(!accepts_type(Some("text/cs")));
    assert!(!accepts_type(Some("TEXT/CSV")));
    assert!(!accepts_type(Some("")));
}

#[test]
fn table_load_and_snapshot() {
    let mut t = Table::new();
    assert_eq!(t.len(), 0);
    assert_eq!(t.load(PEOPLE), Ok(()));
    assert_eq!(t.len(), 2);
    assert_eq!(t.snapshot(), vec![alice(), bob()]);
    assert_eq!(t.load("q"), Err(LoadError::NoRecords));
    assert_eq!(t.snapshot(), vec![alice(), bob()]);
}

#[test]
fn snapshot_is_one_whole_load() {
    let store = Store::new();
    let first = store.snapshot();
    store.load(PEOPLE).unwrap();
    let second = store.snapshot();
    store.load("city\nOslo\nRome").unwrap();
    let third = store.snapshot();
    assert!(first.is_empty());
    assert_eq!(second, vec![alice(), bob()]);
    assert_eq!(third, vec![rec(&[("city", "Oslo")]), rec(&[("city", "Rome")])]);
}

