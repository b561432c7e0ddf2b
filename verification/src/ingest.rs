use vstd::prelude::*;
use crate::data_ingestor::{EntryView, Table, TableEntry};
use crate::text::same_text;

verus! {

/// The cells of one line of a source.
pub type Cells = Seq<Seq<char>>;

/// The cells of one record that a row is made of, as they stand in the
/// source.
#[derive(Debug)]
pub struct RawRow {
    pub location_desc: String,
    pub question: String,
    pub data_value: String,
    pub stratification_category1: String,
    pub stratification1: String,
}

pub struct RawRowView {
    pub location_desc: Seq<char>,
    pub question: Seq<char>,
    pub data_value: Seq<char>,
    pub stratification_category1: Seq<char>,
    pub stratification1: Seq<char>,
}

impl View for RawRow {
    type V = RawRowView;

    open spec fn view(&self) -> RawRowView {
        RawRowView {
            location_desc: self.location_desc@,
            question: self.question@,
            data_value: self.data_value@,
            stratification_category1: self.stratification_category1@,
            stratification1: self.stratification1@,
        }
    }
}

/// The cells of a line, each as its characters.
pub open spec fn cells_of(line: Seq<String>) -> Cells {
    Seq::new(line.len(), |i: int| line[i]@)
}

/// The cells of a record that was read, none for one that was not.
pub open spec fn record_cells(record: Option<Vec<String>>) -> Option<Cells> {
    match record {
        Some(line) => Some(cells_of(line@)),
        None => None,
    }
}

/// The cells of each record.
pub open spec fn records_cells(records: Seq<Option<Vec<String>>>) -> Seq<Option<Cells>> {
    Seq::new(records.len(), |i: int| record_cells(records[i]))
}

/// What was picked from each record, as plain values.
pub open spec fn raw_views(rows: Seq<Option<RawRow>>) -> Seq<Option<RawRowView>> {
    Seq::new(
        rows.len(),
        |i: int|
            match rows[i] {
                Some(r) => Some(r@),
                None => None,
            },
    )
}

/// The position of the column with a name among the first `n` cells of a
/// header: the last of them, where several have the name.
pub open spec fn column_of(header: Cells, name: Seq<char>, n: nat) -> Option<nat>
    decreases n,
{
    if n == 0 || n > header.len() {
        None
    } else if header[n - 1] == name {
        Some((n - 1) as nat)
    } else {
        column_of(header, name, (n - 1) as nat)
    }
}

/// Whether a header has the five columns that a row is made of.
pub open spec fn has_columns(header: Cells) -> bool {
    &&& column_of(header, "LocationDesc"@, header.len()) is Some
    &&& column_of(header, "Question"@, header.len()) is Some
    &&& column_of(header, "Data_Value"@, header.len()) is Some
    &&& column_of(header, "StratificationCategory1"@, header.len()) is Some
    &&& column_of(header, "Stratification1"@, header.len()) is Some
}

/// How many cells of a record have a column: a record may be shorter or
/// longer than the header.
pub open spec fn paired(header: Cells, record: Cells) -> nat {
    if header.len() < record.len() {
        header.len()
    } else {
        record.len()
    }
}

/// The cell of a record under the column with a name.
pub open spec fn cell_of(header: Cells, record: Cells, name: Seq<char>) -> Option<Seq<char>> {
    match column_of(header, name, paired(header, record)) {
        Some(i) => Some(record[i as int]),
        None => None,
    }
}

/// The cells of a record that a row is made of; none where one is missing.
pub open spec fn raw_row_of(header: Cells, record: Cells) -> Option<RawRowView> {
    if cell_of(header, record, "LocationDesc"@) is Some && cell_of(header, record, "Question"@) is Some
        && cell_of(header, record, "Data_Value"@) is Some && cell_of(
        header,
        record,
        "StratificationCategory1"@,
    ) is Some && cell_of(header, record, "Stratification1"@) is Some {
        Some(
            RawRowView {
                location_desc: cell_of(header, record, "LocationDesc"@)->0,
                question: cell_of(header, record, "Question"@)->0,
                data_value: cell_of(header, record, "Data_Value"@)->0,
                stratification_category1: cell_of(header, record, "StratificationCategory1"@)->0,
                stratification1: cell_of(header, record, "Stratification1"@)->0,
            },
        )
    } else {
        None
    }
}

/// What a record gives: its cells for a row, none for a record that was not
/// read or that lacks one of them.
pub open spec fn raw_of(header: Cells, record: Option<Cells>) -> Option<RawRowView> {
    match record {
        Some(cells) => raw_row_of(header, cells),
        None => None,
    }
}

/// What the records of a source give, one place for each record; nothing at
/// all under a header without the five columns.
pub open spec fn raws_of(header: Cells, records: Seq<Option<Cells>>) -> Option<
    Seq<Option<RawRowView>>,
> {
    if has_columns(header) {
        Some(Seq::new(records.len(), |i: int| raw_of(header, records[i])))
    } else {
        None
    }
}

/// What a source gives: nothing where its header cannot be read.
pub open spec fn source_raws(parsed: (Option<Cells>, Seq<Option<Cells>>)) -> Option<
    Seq<Option<RawRowView>>,
> {
    match parsed.0 {
        Some(header) => raws_of(header, parsed.1),
        None => None,
    }
}

/// Finds the column with a name among the first `n` cells of a header.
pub fn find_column(header: &Vec<String>, name: &str, n: usize) -> (at: Option<usize>)
    requires
        n <= header.len(),
    ensures
        match at {
            Some(i) => column_of(cells_of(header@), name@, n as nat) == Some(i as nat) && i < n,
            None => column_of(cells_of(header@), name@, n as nat) is None,
        },
{
    let mut k: usize = n;
    while k > 0
        invariant
            k <= n <= header.len(),
            column_of(cells_of(header@), name@, n as nat) == column_of(
                cells_of(header@),
                name@,
                k as nat,
            ),
        decreases k,
    {
        if same_text(header[k - 1].as_str(), name) {
            return Some(k - 1);
        }
        k -= 1;
    }
    None
}

/// Whether a header has the five columns that a row is made of.
pub fn has_required_columns(header: &Vec<String>) -> (yes: bool)
    ensures
        yes == has_columns(cells_of(header@)),
{
    let n = header.len();
    find_column(header, "LocationDesc", n).is_some() && find_column(header, "Question", n).is_some()
        && find_column(header, "Data_Value", n).is_some() && find_column(
        header,
        "StratificationCategory1",
        n,
    ).is_some() && find_column(header, "Stratification1", n).is_some()
}

fn cell(header: &Vec<String>, record: &Vec<String>, name: &str) -> (text: Option<String>)
    ensures
        match text {
            Some(t) => cell_of(cells_of(header@), cells_of(record@), name@) == Some(t@),
            None => cell_of(cells_of(header@), cells_of(record@), name@) is None,
        },
{
    let n = if header.len() < record.len() {
        header.len()
    } else {
        record.len()
    };
    match find_column(header, name, n) {
        Some(i) => Some(record[i].clone()),
        None => None,
    }
}

/// Picks the cells that a row is made of out of a record.
pub fn raw_row(header: &Vec<String>, record: &Vec<String>) -> (row: Option<RawRow>)
    ensures
        match row {
            Some(r) => raw_row_of(cells_of(header@), cells_of(record@)) == Some(r@),
            None => raw_row_of(cells_of(header@), cells_of(record@)) is None,
        },
{
    let location_desc = match cell(header, record, "LocationDesc") {
        Some(t) => t,
        None => {
            return None;
        },
    };
    let question = match cell(header, record, "Question") {
        Some(t) => t,
        None => {
            return None;
        },
    };
    let data_value = match cell(header, record, "Data_Value") {
        Some(t) => t,
        None => {
            return None;
        },
    };
    let stratification_category1 = match cell(header, record, "StratificationCategory1") {
        Some(t) => t,
        None => {
            return None;
        },
    };
    let stratification1 = match cell(header, record, "Stratification1") {
        Some(t) => t,
        None => {
            return None;
        },
    };
    Some(RawRow { location_desc, question, data_value, stratification_category1, stratification1 })
}

/// Picks the cells that rows are made of out of the records of a source, one
/// place for each record; a record that could not be read, or that lacks a
/// cell, gives none. A header without the five columns gives nothing at all.
pub fn read_records(header: &Vec<String>, records: &Vec<Option<Vec<String>>>) -> (raws: Option<
    Vec<Option<RawRow>>,
>)
    ensures
        match raws {
            Some(rows) => raws_of(cells_of(header@), records_cells(records@)) == Some(
                raw_views(rows@),
            ),
            None => raws_of(cells_of(header@), records_cells(records@)) is None,
        },
{
    if !has_required_columns(header) {
        return None;
    }
    let ghost head = cells_of(header@);
    let ghost lines = records_cells(records@);
    let mut rows: Vec<Option<RawRow>> = Vec::new();
    let mut n: usize = 0;
    while n < records.len()
        invariant
            n <= records.len(),
            rows@.len() == n,
            head == cells_of(header@),
            lines == records_cells(records@),
            forall|i: int| 0 <= i < n ==> (#[trigger] raw_views(rows@)[i]) == raw_of(head, lines[i]),
        decreases records.len() - n,
    {
        let ghost before = rows@;
        let row = match &records[n] {
            Some(record) => raw_row(header, record),
            None => None,
        };
        rows.push(row);
        proof {
            assert forall|i: int| 0 <= i < n + 1 implies (#[trigger] raw_views(rows@)[i]) == raw_of(
                head,
                lines[i],
            ) by {
                if i < n {
                    assert(rows@[i] == before[i]);
                    assert(raw_views(before)[i] == raw_of(head, lines[i]));
                }
            }
        }
        n += 1;
    }
    proof {
        assert(raw_views(rows@) =~= Seq::new(lines.len(), |i: int| raw_of(head, lines[i])));
    }
    Some(rows)
}

/// What a CSV text holds: the cells of its header line, none where that
/// cannot be read; and the cells of each record after it, none for a record
/// that cannot be read.
pub uninterp spec fn csv_parsed(data: Seq<u8>) -> (Option<Cells>, Seq<Option<Cells>>);

/// Reads CSV text held in memory with a `csv::Reader` in its default
/// configuration: `from_reader`, then `headers`, then every item of
/// `records`.
///
/// Trusted: what comes back depends on the text alone.
#[verifier::external_body]
pub(crate) fn csv_cells(data: &[u8]) -> (cells: (Option<Vec<String>>, Vec<Option<Vec<String>>>))
    ensures
        (record_cells(cells.0), records_cells(cells.1@)) == csv_parsed(data@),
{
    let mut reader = csv::Reader::from_reader(data);
    let header = reader.headers().ok().map(|line| line.iter().map(String::from).collect());
    let records = reader
        .records()
        .map(|record| record.ok().map(|line| line.iter().map(String::from).collect()))
        .collect();
    (header, records)
}

/// Reads a CSV text: for each record the cells that a row is made of, none
/// for a record that cannot be read or that lacks one of them. A text whose
/// header cannot be read, or lacks one of the five columns, gives nothing.
pub fn load_csv(data: &[u8]) -> (raws: Option<Vec<Option<RawRow>>>)
    ensures
        match raws {
            Some(rows) => source_raws(csv_parsed(data@)) == Some(raw_views(rows@)),
            None => source_raws(csv_parsed(data@)) is None,
        },
{
    let (header, records) = csv_cells(data);
    match header {
        Some(line) => read_records(&line, &records),
        None => None,
    }
}

/// The rows that the first `n` records give. A record gives a row where its
/// cells and the number of its value are there; the row has the record's
/// position, counted from 1, as its index.
pub open spec fn loaded(raws: Seq<Option<RawRowView>>, values: Seq<Option<u32>>, n: nat) -> Seq<
    EntryView,
>
    decreases n,
{
    if n == 0 || n > raws.len() || n > values.len() {
        Seq::empty()
    } else {
        let before = loaded(raws, values, (n - 1) as nat);
        match (raws[n - 1], values[n - 1]) {
            (Some(raw), Some(value)) => before.push(
                EntryView {
                    index: n as u32,
                    location_desc: raw.location_desc,
                    question: raw.question,
                    data_value: value,
                    stratification_category1: raw.stratification_category1,
                    stratification1: raw.stratification1,
                },
            ),
            _ => before,
        }
    }
}

/// Makes the table from the records' cells and the numbers that their values
/// stand for; `values[i]` is the bit pattern of the number that the value of
/// record `i` was read as, or nothing where it could not be read.
pub fn build_table(raws: &Vec<Option<RawRow>>, values: &Vec<Option<u32>>) -> (table: Table)
    requires
        raws.len() == values.len(),
        raws.len() <= u32::MAX,
    ensures
        table@ == loaded(raw_views(raws@), values@, raws@.len()),
{
    let ghost views = raw_views(raws@);
    let mut entries: Vec<TableEntry> = Vec::new();
    let mut n: usize = 0;
    while n < raws.len()
        invariant
            n <= raws.len(),
            raws.len() == values.len(),
            raws.len() <= u32::MAX,
            views == raw_views(raws@),
            entries@.len() == loaded(views, values@, n as nat).len(),
            forall|i: int|
                0 <= i < entries@.len() ==> (#[trigger] entries@[i])@ == loaded(
                    views,
                    values@,
                    n as nat,
                )[i],
        decreases raws.len() - n,
    {
        let ghost before = entries@;
        proof {
            assert(views[n as int] == match raws@[n as int] {
                Some(r) => Some(r@),
                None => None,
            });
        }
        if let Some(raw) = &raws[n] {
            if let Some(value) = values[n] {
                entries.push(
                    TableEntry {
                        index: (n + 1) as u32,
                        location_desc: raw.location_desc.clone(),
                        question: raw.question.clone(),
                        data_value: value,
                        stratification_category1: raw.stratification_category1.clone(),
                        stratification1: raw.stratification1.clone(),
                    },
                );
            }
        }
        proof {
            assert forall|i: int| 0 <= i < entries@.len() implies (#[trigger] entries@[i])@
                == loaded(views, values@, (n + 1) as nat)[i] by {
                if i < before.len() {
                    assert(entries@[i] == before[i]);
                }
            }
        }
        n += 1;
    }
    let table = Table { entries };
    proof {
        assert(table@ =~= loaded(views, values@, raws@.len()));
    }
    table
}

} // verus!
