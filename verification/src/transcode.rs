//! From tab-delimited event records to comma-delimited ones with a header.

use crate::event::{event_of, header_names, record_of, schema_fault, Event, SchemaFault};
use csv_async::{AsyncReaderBuilder, AsyncWriterBuilder, StringRecord};
use futures::{FutureExt, StreamExt};
use vstd::prelude::*;
use vstd::utf8::encode_utf8;

verus! {

/// The records that `csv_async` reads from tab-delimited bytes, or `None`
/// where it refuses them.
pub uninterp spec fn tab_records(data: Seq<u8>) -> Option<Seq<Seq<Seq<char>>>>;

/// The line that `csv_async` writes for one record, or `None` where it
/// refuses the record.
pub uninterp spec fn comma_record(fields: Seq<Seq<char>>) -> Option<Seq<u8>>;

/// Why a file of records could not be turned into comma-delimited text.
#[derive(Clone, Debug, PartialEq, Eq)]
pub enum TranscodeError {
    /// The bytes are not tab-delimited text; the reader's words are kept.
    Unreadable(String),
    /// The record at `row`, counted from zero, is not an event.
    Schema { row: usize, fault: SchemaFault },
    /// A record could not be written; the writer's words are kept.
    Unwritable(String),
}

/// A byte that makes the writer enclose a field in quotes: the comma, the
/// quote, the two line breaks and the tab.
pub open spec fn is_special(b: u8) -> bool {
    b == 44 || b == 34 || b == 13 || b == 10 || b == 9
}

/// The field holds a byte that makes the writer enclose it in quotes.
pub open spec fn needs_quotes(bytes: Seq<u8>) -> bool {
    exists|i: int| 0 <= i < bytes.len() && is_special(#[trigger] bytes[i])
}

/// The bytes of a field with every quote written twice.
pub open spec fn doubled(bytes: Seq<u8>) -> Seq<u8>
    decreases bytes.len(),
{
    if bytes.len() == 0 {
        Seq::empty()
    } else if bytes.last() == 34 {
        doubled(bytes.drop_last()) + seq![34u8, 34u8]
    } else {
        doubled(bytes.drop_last()) + seq![bytes.last()]
    }
}

/// A field as it stands in a line: as it is, or between quotes and with
/// its own quotes written twice where it holds a comma, a quote, a line
/// break or a tab.
pub open spec fn cell(bytes: Seq<u8>) -> Seq<u8> {
    if needs_quotes(bytes) {
        seq![34u8] + doubled(bytes) + seq![34u8]
    } else {
        bytes
    }
}

/// The fields of a record as they stand in a line, with a comma between
/// each two.
pub open spec fn cells(fields: Seq<Seq<char>>) -> Seq<u8>
    decreases fields.len(),
{
    if fields.len() == 0 {
        Seq::empty()
    } else if fields.len() == 1 {
        cell(encode_utf8(fields[0]))
    } else {
        cells(fields.drop_last()) + seq![44u8] + cell(encode_utf8(fields.last()))
    }
}

/// The line of one record: its fields, then a line feed. A record that
/// would leave the line empty is written as two quotes.
pub open spec fn csv_line(fields: Seq<Seq<char>>) -> Seq<u8> {
    if cells(fields).len() == 0 {
        seq![34u8, 34u8, 10u8]
    } else {
        cells(fields) + seq![10u8]
    }
}

/// The lines of `rows` one after another.
pub open spec fn csv_lines(rows: Seq<Seq<Seq<char>>>) -> Seq<u8>
    decreases rows.len(),
{
    if rows.len() == 0 {
        Seq::empty()
    } else {
        csv_lines(rows.drop_last()) + csv_line(rows.last())
    }
}

/// Reads `data` with a reader of `csv_async`: `AsyncReaderBuilder`, set for
/// no header row, the tab as delimiter and records of any length, then
/// `create_reader` and `into_records`, whose stream is collected, polled
/// once: the reader reads from memory and so never waits. Every record is
/// handed out as its fields; the first record that the reader refuses makes
/// the result its error, in words. The result is the reader's alone: the
/// contract only gives it the name `tab_records`, so that the same bytes are
/// known to give the same records.
#[verifier::external_body]
fn read_tab_records(data: &[u8]) -> (r: Result<Vec<Vec<String>>, String>)
    ensures
        tab_records(data@) == match r {
            Ok(rows) => Some(rows.deep_view()),
            Err(_) => None,
        },
{
    let reader = AsyncReaderBuilder::new().has_headers(false).delimiter(b'\t').flexible(
        true,
    ).create_reader(data);
    let read: Option<Vec<Result<StringRecord, csv_async::Error>>> =
        reader.into_records().collect().now_or_never();
    match read {
        Some(rows) => rows.into_iter().map(
            |row| match row {
                Ok(record) => Ok(record.iter().map(String::from).collect()),
                Err(e) => Err(e.to_string()),
            },
        ).collect(),
        None => Err(String::new()),
    }
}

/// Writes `fields` as one record with a writer of `csv_async`:
/// `AsyncWriterBuilder`, with the tab set as the comment character so that
/// the writer encloses a field that holds a tab in quotes, `create_writer`
/// around an empty vector, `write_record`, and `into_inner` for the bytes
/// written, each polled once: the writer writes to memory and so never
/// waits. The writer puts a comma between the fields and a line feed after
/// the last; it encloses a field in quotes, and writes the quotes in it
/// twice, where the field holds a comma, a quote, a line break or the
/// comment character; and it writes two quotes for a record that would
/// leave the line empty. Whether it fails is the writer's alone, under the
/// name `comma_record`.
#[verifier::external_body]
fn write_comma_record(fields: &Vec<String>) -> (r: Result<Vec<u8>, String>)
    ensures
        comma_record(fields.deep_view()) == match r {
            Ok(line) => Some(line@),
            Err(_) => None,
        },
        r matches Ok(line) ==> line@ == csv_line(fields.deep_view()),
{
    let mut writer = AsyncWriterBuilder::new().comment(Some(b'\t')).create_writer(Vec::new());
    let wrote = writer.write_record(fields).now_or_never();
    match wrote {
        Some(Ok(())) => match writer.into_inner().now_or_never() {
            Some(Ok(line)) => Ok(line),
            Some(Err(e)) => Err(e.to_string()),
            None => Err(String::new()),
        },
        Some(Err(e)) => Err(e.to_string()),
        None => Err(String::new()),
    }
}

/// Every record of `rows` is an event.
pub open spec fn all_events(rows: Seq<Seq<Seq<char>>>) -> bool {
    forall|i: int| 0 <= i < rows.len() ==> schema_fault(#[trigger] rows[i]) is None
}

/// The record at `row` is the first of `rows` that is no event, and `fault`
/// is the rule it breaks.
pub open spec fn is_first_fault(rows: Seq<Seq<Seq<char>>>, row: int, fault: SchemaFault) -> bool {
    &&& 0 <= row < rows.len()
    &&& schema_fault(rows[row]) == Some(fault)
    &&& all_events(rows.take(row))
}

/// The records of the output: the header, and then each event written
/// anew. For no input that is the header alone.
pub open spec fn document(rows: Seq<Seq<Seq<char>>>) -> Seq<Seq<Seq<char>>> {
    seq![header_names()] + Seq::new(rows.len(), |i: int| record_of(event_of(rows[i])))
}

/// The lines of `rows` one after another, or `None` where one of them cannot
/// be written.
pub open spec fn csv_text(rows: Seq<Seq<Seq<char>>>) -> Option<Seq<u8>>
    decreases rows.len(),
{
    if rows.len() == 0 {
        Some(Seq::empty())
    } else {
        match (csv_text(rows.drop_last()), comma_record(rows.last())) {
            (Some(front), Some(line)) => Some(front + line),
            _ => None,
        }
    }
}

/// Where the first records cannot be written, the whole cannot.
pub proof fn lemma_csv_text_prefix(rows: Seq<Seq<Seq<char>>>, k: int)
    requires
        0 <= k <= rows.len(),
        csv_text(rows.take(k)) is None,
    ensures
        csv_text(rows) is None,
    decreases rows.len(),
{
    if k == rows.len() {
        assert(rows.take(k) =~= rows);
    } else {
        assert(rows.drop_last().take(k) =~= rows.take(k));
        lemma_csv_text_prefix(rows.drop_last(), k);
    }
}

/// Checks every record of `rows` against the rules of an event and writes
/// each anew, after a header.
pub fn transcode_rows(rows: &Vec<Vec<String>>) -> (r: Result<Vec<Vec<String>>, TranscodeError>)
    ensures
        match r {
            Ok(out) => all_events(rows.deep_view()) && out.deep_view() == document(
                rows.deep_view(),
            ),
            Err(TranscodeError::Schema { row, fault }) => is_first_fault(
                rows.deep_view(),
                row as int,
                fault,
            ),
            Err(_) => false,
        },
{
    let ghost input = rows.deep_view();
    let mut out: Vec<Vec<String>> = Vec::new();
    out.push(Event::header());
    let mut i: usize = 0;
    assert(out.deep_view() =~= seq![header_names()] + Seq::new(
        0nat,
        |j: int| record_of(event_of(input[j])),
    ));
    while i < rows.len()
        invariant
            i <= rows.len(),
            input == rows.deep_view(),
            all_events(input.take(i as int)),
            out.deep_view() == seq![header_names()] + Seq::new(
                i as nat,
                |j: int| record_of(event_of(input[j])),
            ),
        decreases rows.len() - i,
    {
        assert(input[i as int] == rows@[i as int].deep_view());
        match Event::from_fields(&rows[i]) {
            Ok(event) => {
                let fields = event.to_fields();
                let ghost before = out.deep_view();
                out.push(fields);
                assert(out.deep_view() =~= before.push(record_of(event_of(input[i as int]))));
                assert(all_events(input.take(i + 1))) by {
                    assert forall|j: int| 0 <= j < i + 1 implies schema_fault(
                        #[trigger] input.take(i + 1)[j],
                    ) is None by {
                        if j < i {
                            assert(input.take(i as int)[j] == input[j]);
                        }
                    }
                }
                assert(out.deep_view() =~= seq![header_names()] + Seq::new(
                    (i + 1) as nat,
                    |j: int| record_of(event_of(input[j])),
                ));
            },
            Err(fault) => {
                return Err(TranscodeError::Schema { row: i, fault });
            },
        }
        i += 1;
    }
    assert(input.take(i as int) =~= input);
    assert(out.deep_view() =~= document(input));
    Ok(out)
}

/// Writes every record of `rows` as one comma-delimited line.
pub fn encode_rows(rows: &Vec<Vec<String>>) -> (r: Result<Vec<u8>, String>)
    ensures
        csv_text(rows.deep_view()) == match r {
            Ok(bytes) => Some(bytes@),
            Err(_) => None,
        },
        r matches Ok(bytes) ==> bytes@ == csv_lines(rows.deep_view()),
{
    let ghost input = rows.deep_view();
    let mut bytes: Vec<u8> = Vec::new();
    let mut i: usize = 0;
    assert(input.take(0) =~= Seq::empty());
    while i < rows.len()
        invariant
            i <= rows.len(),
            input == rows.deep_view(),
            csv_text(input.take(i as int)) == Some(bytes@),
            bytes@ == csv_lines(input.take(i as int)),
        decreases rows.len() - i,
    {
        assert(input[i as int] == rows@[i as int].deep_view());
        assert(input.take(i + 1).drop_last() =~= input.take(i as int));
        assert(input.take(i + 1).last() == input[i as int]);
        match write_comma_record(&rows[i]) {
            Ok(mut line) => {
                bytes.append(&mut line);
            },
            Err(reason) => {
                proof {
                    lemma_csv_text_prefix(input, i + 1);
                }
                return Err(reason);
            },
        }
        i += 1;
    }
    assert(input.take(i as int) =~= input);
    Ok(bytes)
}

/// Turns a file of tab-delimited event records into comma-delimited text
/// with a header row. Every record must be an event; the first that is not
/// ends the work and is named in the error.
pub fn transcode(data: &[u8]) -> (r: Result<Vec<u8>, TranscodeError>)
    ensures
        match r {
            Ok(bytes) => tab_records(data@) matches Some(rows) && all_events(rows) && csv_text(
                document(rows),
            ) == Some(bytes@) && bytes@ == csv_lines(document(rows)),
            Err(TranscodeError::Unreadable(_)) => tab_records(data@) is None,
            Err(TranscodeError::Schema { row, fault }) => tab_records(data@) matches Some(rows)
                && is_first_fault(rows, row as int, fault),
            Err(TranscodeError::Unwritable(_)) => tab_records(data@) matches Some(rows)
                && all_events(rows) && csv_text(document(rows)) is None,
        },
{
    let rows = match read_tab_records(data) {
        Ok(rows) => rows,
        Err(reason) => {
            return Err(TranscodeError::Unreadable(reason));
        },
    };
    let out = match transcode_rows(&rows) {
        Ok(out) => out,
        Err(e) => {
            return Err(e);
        },
    };
    match encode_rows(&out) {
        Ok(bytes) => Ok(bytes),
        Err(reason) => Err(TranscodeError::Unwritable(reason)),
    }
}

} // verus!
