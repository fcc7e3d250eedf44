use vstd::prelude::*;

use crate::text::{
    chars_of, lemma_split_on_nonempty, lines_of, split_on, split_range, strip_cr, trim,
    trim_bounds, views,
};

verus! {

/// One cell of a record: the column's name and the cell's text.
#[derive(Debug, PartialEq, Eq)]
pub struct Field {
    pub name: String,
    pub value: String,
}

/// One decoded row: a field for each column of the header, in header order.
#[derive(Debug, PartialEq, Eq)]
pub struct Record {
    pub fields: Vec<Field>,
}

/// A record as (column name, cell text) pairs.
pub type RecordView = Seq<(Seq<char>, Seq<char>)>;

impl View for Record {
    type V = RecordView;

    open spec fn view(&self) -> RecordView {
        Seq::new(self.fields@.len(), |i: int| (self.fields@[i].name@, self.fields@[i].value@))
    }
}

/// Why a text could not be loaded.
#[derive(Debug, Clone, Copy, PartialEq, Eq, Structural)]
pub enum LoadError {
    /// Nothing but white space.
    EmptyInput,
    /// A header line and no data line.
    NoRecords,
    /// A data line with fewer cells than the header has columns.
    ShortRow,
    /// The upload declared a content type other than `text/csv`.
    WrongType,
}

/// The one content type accepted for an upload.
pub open spec fn csv_type() -> Seq<char> {
    seq!['t', 'e', 'x', 't', '/', 'c', 's', 'v']
}

/// An upload is accepted when it declares no content type or `text/csv`.
pub open spec fn type_accepted(declared: Option<Seq<char>>) -> bool {
    match declared {
        None => true,
        Some(t) => t == csv_type(),
    }
}

/// The characters of an optional declared content type.
pub open spec fn declared_view(declared: Option<&str>) -> Option<Seq<char>> {
    match declared {
        Some(t) => Some(t@),
        None => None,
    }
}

/// Whether an upload with this declared content type is accepted.
pub fn accepts_type(declared: Option<&str>) -> (r: bool)
    ensures
        r == type_accepted(declared_view(declared)),
{
    match declared {
        None => true,
        Some(t) => {
            let cs = chars_of(t);
            let want: Vec<char> = vec!['t', 'e', 'x', 't', '/', 'c', 's', 'v'];
            assert(want@ =~= csv_type());
            if cs.len() != want.len() {
                return false;
            }
            let mut i: usize = 0;
            while i < cs.len()
                invariant
                    cs@ == t@,
                    declared_view(declared) == Some(t@),
                    want@ == csv_type(),
                    cs@.len() == want@.len(),
                    i <= cs@.len(),
                    forall|k: int| 0 <= k < i ==> cs@[k] == want@[k],
                decreases cs.len() - i,
            {
                if cs[i] != want[i] {
                    assert(cs@[i as int] != csv_type()[i as int]);
                    return false;
                }
                i = i + 1;
            }
            assert(cs@ =~= want@);
            true
        },
    }
}

/// The views of a sequence of records.
pub open spec fn records_view(v: Seq<Record>) -> Seq<RecordView> {
    v.map_values(|r: Record| r@)
}

/// The column names of a record, in order.
pub open spec fn field_names(r: RecordView) -> Seq<Seq<char>> {
    r.map_values(|f: (Seq<char>, Seq<char>)| f.0)
}

/// The record made of a header and a row's cells; cells past the header are ignored.
pub open spec fn zip_record(header: Seq<Seq<char>>, cells: Seq<Seq<char>>) -> RecordView {
    Seq::new(header.len(), |i: int| (header[i], cells[i]))
}

/// The column names: the first line of the trimmed text, split at commas.
pub open spec fn header_of(text: Seq<char>) -> Seq<Seq<char>> {
    split_on(lines_of(trim(text))[0], ',')
}

/// The cells of each data line: every line after the first, split at commas.
pub open spec fn rows_of(text: Seq<char>) -> Seq<Seq<Seq<char>>> {
    lines_of(trim(text)).drop_first().map_values(|l: Seq<char>| split_on(l, ','))
}

/// What loading `text` gives: the records, or the first rule that it breaks.
pub open spec fn decoded(text: Seq<char>) -> Result<Seq<RecordView>, LoadError> {
    let header = header_of(text);
    let rows = rows_of(text);
    if trim(text).len() == 0 {
        Err(LoadError::EmptyInput)
    } else if rows.len() == 0 {
        Err(LoadError::NoRecords)
    } else if exists|i: int| 0 <= i < rows.len() && #[trigger] rows[i].len() < header.len() {
        Err(LoadError::ShortRow)
    } else {
        Ok(rows.map_values(|cells: Seq<Seq<char>>| zip_record(header, cells)))
    }
}

/// Relies on `String::push`: appends one character.
#[verifier::external_body]
fn push_char(s: &mut String, c: char)
    ensures
        final(s)@ == old(s)@.push(c),
{
    s.push(c)
}

/// A string holding the characters of `cs`.
pub fn string_of(cs: &Vec<char>) -> (r: String)
    ensures
        r@ == cs@,
{
    let mut r = String::new();
    let mut i: usize = 0;
    while i < cs.len()
        invariant
            i <= cs@.len(),
            r@ == cs@.subrange(0, i as int),
        decreases cs.len() - i,
    {
        push_char(&mut r, cs[i]);
        i = i + 1;
        assert(r@ =~= cs@.subrange(0, i as int));
    }
    assert(cs@.subrange(0, i as int) =~= cs@);
    r
}

impl Field {
    /// A field with the same name and text.
    pub fn copied(&self) -> (r: Field)
        ensures
            r.name@ == self.name@,
            r.value@ == self.value@,
    {
        Field { name: self.name.clone(), value: self.value.clone() }
    }
}

impl Record {
    /// A record with the same fields.
    pub fn copied(&self) -> (r: Record)
        ensures
            r@ == self@,
    {
        let mut fields: Vec<Field> = Vec::new();
        let mut i: usize = 0;
        while i < self.fields.len()
            invariant
                i <= self.fields@.len(),
                fields@.len() == i,
                forall|k: int|
                    0 <= k < i ==> fields@[k].name@ == self.fields@[k].name@
                        && fields@[k].value@ == self.fields@[k].value@,
            decreases self.fields.len() - i,
        {
            fields.push(self.fields[i].copied());
            i = i + 1;
        }
        let r = Record { fields };
        assert(r@ =~= self@);
        r
    }
}

/// Copies a sequence of records.
pub fn copy_records(v: &Vec<Record>) -> (r: Vec<Record>)
    ensures
        records_view(r@) == records_view(v@),
{
    let mut out: Vec<Record> = Vec::new();
    let mut i: usize = 0;
    while i < v.len()
        invariant
            i <= v@.len(),
            out@.len() == i,
            forall|k: int| 0 <= k < i ==> #[trigger] out@[k]@ == v@[k]@,
        decreases v.len() - i,
    {
        out.push(v[i].copied());
        i = i + 1;
    }
    assert(records_view(out@) =~= records_view(v@));
    out
}

/// Builds the record of one row.
fn make_record(header: &Vec<Vec<char>>, cells: &Vec<Vec<char>>) -> (r: Record)
    requires
        cells@.len() >= header@.len(),
    ensures
        r@ == zip_record(views(header@), views(cells@)),
{
    let mut fields: Vec<Field> = Vec::new();
    let mut j: usize = 0;
    while j < header.len()
        invariant
            j <= header@.len() <= cells@.len(),
            fields@.len() == j,
            forall|k: int|
                0 <= k < j ==> fields@[k].name@ == header@[k]@ && fields@[k].value@
                    == cells@[k]@,
        decreases header.len() - j,
    {
        let name = string_of(&header[j]);
        let value = string_of(&cells[j]);
        fields.push(Field { name, value });
        j = j + 1;
    }
    let r = Record { fields };
    assert(r@ =~= zip_record(views(header@), views(cells@)));
    r
}

/// The cells of one line: without a trailing carriage return, split at commas.
fn split_line(line: &Vec<char>) -> (r: Vec<Vec<char>>)
    ensures
        views(r@) == split_on(strip_cr(line@), ','),
{
    let n = line.len();
    let hi: usize = if n > 0 && line[n - 1] == '\r' {
        n - 1
    } else {
        n
    };
    assert(line@.subrange(0, hi as int) =~= strip_cr(line@));
    split_range(line, 0, hi, ',')
}

/// Decodes CSV text into records: the first line names the columns and every
/// further line is a row.
pub fn decode(text: &str) -> (r: Result<Vec<Record>, LoadError>)
    ensures
        match r {
            Ok(v) => decoded(text@) == Ok::<Seq<RecordView>, LoadError>(records_view(v@)),
            Err(e) => decoded(text@) == Err::<Seq<RecordView>, LoadError>(e),
        },
{
    let cs = chars_of(text);
    let (lo, hi) = trim_bounds(&cs);
    if lo == hi {
        return Err(LoadError::EmptyInput);
    }
    let lines = split_range(&cs, lo, hi, '\n');
    let ghost t = trim(text@);
    proof {
        lemma_split_on_nonempty(t, '\n');
    }
    assert(lines_of(t).len() == lines@.len());
    let header = split_line(&lines[0]);
    assert(views(header@) == header_of(text@));
    let ghost rows = rows_of(text@);
    assert(rows.len() == lines@.len() - 1);
    if lines.len() == 1 {
        return Err(LoadError::NoRecords);
    }
    let mut records: Vec<Record> = Vec::new();
    let mut i: usize = 1;
    while i < lines.len()
        invariant
            1 <= i <= lines@.len(),
            rows.len() == lines@.len() - 1,
            rows == rows_of(text@),
            views(header@) == header_of(text@),
            lines_of(t) == views(lines@).map_values(|l: Seq<char>| strip_cr(l)),
            views(lines@) == split_on(t, '\n'),
            t == trim(text@),
            records@.len() == i - 1,
            forall|k: int| 0 <= k < i - 1 ==> rows[k].len() >= header@.len(),
            forall|k: int|
                0 <= k < i - 1 ==> #[trigger] records@[k]@ == zip_record(views(header@), rows[k]),
        decreases lines.len() - i,
    {
        let cells = split_line(&lines[i]);
        assert(views(cells@) == rows[i - 1]);
        if cells.len() < header.len() {
            return Err(LoadError::ShortRow);
        }
        records.push(make_record(&header, &cells));
        i = i + 1;
    }
    assert(records_view(records@) =~= rows.map_values(
        |cells: Seq<Seq<char>>| zip_record(header_of(text@), cells),
    ));
    Ok(records)
}

} // verus!
