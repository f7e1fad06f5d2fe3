//! CSV texts split into a header row and records, through the csv crate, and fields looked up
//! by column name.
use vstd::prelude::*;

use crate::structs::Column;

verus! {

#[verifier::external_type_specification]
#[verifier::external_body]
pub struct ExCsvError(csv::Error);

/// A CSV text split into its header row and its records.
pub struct CsvTable {
    pub header: Vec<String>,
    pub rows: Vec<Vec<String>>,
}

impl View for CsvTable {
    type V = (Seq<Seq<char>>, Seq<Seq<Seq<char>>>);

    open spec fn view(&self) -> (Seq<Seq<char>>, Seq<Seq<Seq<char>>>) {
        (self.header.deep_view(), self.rows.deep_view())
    }
}

/// The header row and the records that csv's `Reader` (default configuration: comma
/// separated, first record is the header row) reads from `text`, or `None` where it reports
/// an error.
pub uninterp spec fn csv_table_of(text: Seq<char>) -> Option<(Seq<Seq<char>>, Seq<Seq<Seq<char>>>)>;

/// Relies on csv's `Reader::from_reader`, `Reader::headers` and `Reader::records`: the header
/// row and then every record, each field as a string.
#[verifier::external_body]
pub(crate) fn read_csv(text: &str) -> (r: Result<CsvTable, csv::Error>)
    ensures
        r is Err <==> csv_table_of(text@) is None,
        r matches Ok(t) ==> csv_table_of(text@) == Some(t@),
{
    let mut reader = csv::Reader::from_reader(text.as_bytes());
    let header = reader.headers()?.iter().map(String::from).collect();
    let mut rows = Vec::new();
    for record in reader.records() {
        rows.push(record?.iter().map(String::from).collect());
    }
    Ok(CsvTable { header, rows })
}

/// The position of the first header equal to `name`, or -1.
pub open spec fn column_index(header: Seq<Seq<char>>, name: Seq<char>) -> int
    decreases header.len(),
{
    if header.len() == 0 {
        -1
    } else if column_index(header.drop_last(), name) >= 0 {
        column_index(header.drop_last(), name)
    } else if header.last() == name {
        header.len() - 1
    } else {
        -1
    }
}

/// Whether some header is `name`.
pub open spec fn has_column(header: Seq<Seq<char>>, name: Seq<char>) -> bool {
    header.contains(name)
}

/// The field of `row` under the column `c`, if the header row has that column.
pub open spec fn field_of(header: Seq<Seq<char>>, row: Seq<Seq<char>>, c: Column) -> Option<
    Seq<char>,
> {
    let k = column_index(header, c.spec_name());
    if 0 <= k < row.len() {
        Some(row[k])
    } else {
        None
    }
}

proof fn lemma_column_index(header: Seq<Seq<char>>, name: Seq<char>)
    ensures
        -1 <= column_index(header, name) < header.len(),
        column_index(header, name) >= 0 ==> header[column_index(header, name)] == name,
        column_index(header, name) >= 0 ==> forall|j: int|
            0 <= j < column_index(header, name) ==> header[j] != name,
        column_index(header, name) < 0 ==> forall|j: int| 0 <= j < header.len() ==> header[j] != name,
    decreases header.len(),
{
    if header.len() > 0 {
        let d = header.drop_last();
        lemma_column_index(d, name);
        assert forall|j: int| 0 <= j < d.len() implies d[j] == header[j] by {}
    }
}

/// Whether the header row has a column named `name`.
pub fn has_header(header: &Vec<String>, name: &str) -> (r: bool)
    ensures
        r == has_column(header.deep_view(), name@),
{
    let target = name.to_owned();
    let mut i: usize = 0;
    while i < header.len()
        invariant
            i <= header@.len(),
            target@ == name@,
            forall|j: int| 0 <= j < i ==> header.deep_view()[j] != name@,
        decreases header@.len() - i,
    {
        if header[i] == target {
            assert(header.deep_view()[i as int] == name@);
            return true;
        }
        i = i + 1;
    }
    proof {
        if header.deep_view().contains(name@) {
            let j = choose|j: int| 0 <= j < header.deep_view().len() && header.deep_view()[j] == name@;
            assert(header.deep_view()[j] != name@);
        }
    }
    false
}

/// The position of column `c` in the header row.
pub fn find_column(header: &Vec<String>, c: Column) -> (r: Option<usize>)
    ensures
        match r {
            Some(k) => k as int == column_index(header.deep_view(), c.spec_name()),
            None => column_index(header.deep_view(), c.spec_name()) < 0,
        },
{
    proof {
        lemma_column_index(header.deep_view(), c.spec_name());
    }
    let target = c.name().to_owned();
    let mut i: usize = 0;
    while i < header.len()
        invariant
            i <= header@.len(),
            target@ == c.spec_name(),
            forall|j: int| 0 <= j < i ==> header.deep_view()[j] != c.spec_name(),
        decreases header@.len() - i,
    {
        if header[i] == target {
            assert(header.deep_view()[i as int] == c.spec_name());
            proof {
                lemma_column_index(header.deep_view(), c.spec_name());
            }
            return Some(i);
        }
        i = i + 1;
    }
    None
}

/// The field of record `row` under column `c`.
pub fn field<'a>(table: &'a CsvTable, row: usize, c: Column) -> (r: Option<&'a String>)
    requires
        row < table.rows@.len(),
    ensures
        match r {
            Some(f) => field_of(table@.0, table@.1[row as int], c) == Some(f@),
            None => field_of(table@.0, table@.1[row as int], c) is None,
        },
{
    match find_column(&table.header, c) {
        Some(k) => {
            if k < table.rows[row].len() {
                Some(&table.rows[row][k])
            } else {
                None
            }
        },
        None => None,
    }
}

} // verus!
