//! Reading the tabular data source.
//!
//! The data arrives as raw delimited-text bytes.  Decoding them into records
//! is the csv crate's work, reached through the trusted declarations below
//! over an in-memory reader; rows of varying width are accepted, so a row
//! shorter than the header simply leaves its trailing columns without a
//! contribution.  What the bytes decode to is named by `csv_header_of` and
//! `csv_rows_of`, and the verified `read_table` assembles the whole table
//! from the incremental reads, mapping each failure to its own error kind.

use vstd::prelude::*;
use crate::QaError;
use crate::aggregate::{row_view, rows_view};

verus! {

/// The decoded table: the header row and every data row, each a sequence of
/// raw field strings.
#[derive(Debug)]
pub struct Table {
    pub headers: Vec<String>,
    pub rows: Vec<Vec<String>>,
}

#[verifier::external_type_specification]
#[verifier::external_body]
#[verifier::reject_recursive_types(R)]
pub struct ExCsvReader<R>(csv::Reader<R>);

#[verifier::external_type_specification]
#[verifier::external_body]
#[verifier::reject_recursive_types(T)]
pub struct ExCursor<T>(std::io::Cursor<T>);

/// What the csv crate decodes as the header row of these bytes: the fields
/// of the first record (empty at end of input), or nothing when reading the
/// first record fails.
pub uninterp spec fn csv_header_of(data: Seq<u8>) -> Option<Seq<Seq<char>>>;

/// What the csv crate decodes as the data rows of these bytes, in order:
/// each element the fields of one record, or nothing where reading that
/// record fails.
pub uninterp spec fn csv_rows_of(data: Seq<u8>) -> Seq<Option<Seq<Seq<char>>>>;

/// What `headers` will yield on this reader.
pub uninterp spec fn reader_header(r: csv::Reader<std::io::Cursor<Vec<u8>>>) -> Option<
    Seq<Seq<char>>,
>;

/// The outcomes of the successive `read_record` calls still ahead of this
/// reader.
pub uninterp spec fn reader_pending(r: csv::Reader<std::io::Cursor<Vec<u8>>>) -> Seq<
    Option<Seq<Seq<char>>>,
>;

/// Relies on csv::ReaderBuilder::new, ReaderBuilder::flexible and
/// ReaderBuilder::from_reader: a CSV reader over the in-memory bytes, with
/// records of varying width accepted and the first record treated as the
/// header row.
#[verifier::external_body]
fn reader_from_bytes(data: Vec<u8>) -> (r: csv::Reader<std::io::Cursor<Vec<u8>>>)
    ensures
        reader_header(r) == csv_header_of(data@),
        reader_pending(r) == csv_rows_of(data@),
{
    csv::ReaderBuilder::new().flexible(true).from_reader(std::io::Cursor::new(data))
}

/// Relies on csv::Reader::headers: the first record of the data, or the
/// error its decoding raised; reading it does not consume any data record.
#[verifier::external_body]
fn read_headers(r: &mut csv::Reader<std::io::Cursor<Vec<u8>>>) -> (res: Result<Vec<String>, String>)
    ensures
        match res {
            Ok(h) => reader_header(*old(r)) == Some(row_view(h@)) && reader_pending(*final(r))
                == reader_pending(*old(r)),
            Err(_) => reader_header(*old(r)) is None,
        },
{
    match r.headers() {
        Ok(h) => Ok(h.iter().map(|f| f.to_string()).collect()),
        Err(e) => Err(format!("{e}")),
    }
}

/// Relies on csv::Reader::read_record: the next data record, the end of the
/// input, or the error the record's decoding raised.
#[verifier::external_body]
fn read_row(r: &mut csv::Reader<std::io::Cursor<Vec<u8>>>) -> (res: Result<
    Option<Vec<String>>,
    String,
>)
    ensures
        match res {
            Ok(Some(row)) => reader_pending(*old(r)).len() > 0 && reader_pending(*old(r))[0]
                == Some(row_view(row@)) && reader_pending(*final(r)) == reader_pending(
                *old(r),
            ).drop_first(),
            Ok(None) => reader_pending(*old(r)).len() == 0,
            Err(_) => reader_pending(*old(r)).len() > 0 && reader_pending(*old(r))[0] is None,
        },
{
    let mut rec = csv::StringRecord::new();
    match r.read_record(&mut rec) {
        Ok(true) => Ok(Some(rec.iter().map(|f| f.to_string()).collect())),
        Ok(false) => Ok(None),
        Err(e) => Err(format!("{e}")),
    }
}

/// Every data record of these bytes decodes into fields.
pub open spec fn rows_ok(rs: Seq<Option<Seq<Seq<char>>>>) -> bool {
    forall|i: int| 0 <= i < rs.len() ==> rs[i] is Some
}

/// Decode the data source: one header row, then every data row, in order.
///
/// A failure while decoding the header is `HeaderUnreadable`; a failure
/// while decoding a data record is `RecordUnreadable`; both abort the scan
/// with no partial result.
pub fn read_table(data: Vec<u8>) -> (res: Result<Table, QaError>)
    ensures
        match res {
            Ok(t) => {
                &&& csv_header_of(data@) == Some(row_view(t.headers@))
                &&& rows_ok(csv_rows_of(data@))
                &&& rows_view(t.rows@).len() == csv_rows_of(data@).len()
                &&& forall|i: int|
                    0 <= i < csv_rows_of(data@).len() ==> csv_rows_of(data@)[i] == Some(
                        rows_view(t.rows@)[i],
                    )
            },
            Err(e) => match e {
                QaError::HeaderUnreadable(_) => csv_header_of(data@) is None,
                QaError::RecordUnreadable(_) => csv_header_of(data@) is Some && !rows_ok(
                    csv_rows_of(data@),
                ),
                _ => false,
            },
        },
{
    let ghost all = csv_rows_of(data@);
    let mut rdr = reader_from_bytes(data);
    let headers = match read_headers(&mut rdr) {
        Ok(h) => h,
        Err(msg) => {
            return Err(QaError::HeaderUnreadable(msg));
        },
    };
    let mut rows: Vec<Vec<String>> = Vec::new();
    let mut done = false;
    while !done
        invariant
            all == csv_rows_of(data@),
            csv_header_of(data@) is Some,
            rows@.len() <= all.len(),
            !done ==> reader_pending(rdr) == all.skip(rows@.len() as int),
            done ==> rows@.len() == all.len(),
            forall|i: int| 0 <= i < rows@.len() ==> all[i] == Some(rows_view(rows@)[i]),
        decreases all.len() - rows@.len() + (if done {
            0int
        } else {
            1int
        }),
    {
        let ghost pending = reader_pending(rdr);
        match read_row(&mut rdr) {
            Ok(Some(row)) => {
                proof {
                    assert(pending[0] == all[rows@.len() as int]);
                    assert(pending.drop_first() =~= all.skip(rows@.len() as int + 1));
                }
                let ghost prev = rows@;
                rows.push(row);
                proof {
                    assert(rows_view(rows@) =~= rows_view(prev).push(row_view(row@)));
                }
            },
            Ok(None) => {
                done = true;
            },
            Err(msg) => {
                proof {
                    assert(all[rows@.len() as int] is None);
                    assert(!rows_ok(all));
                }
                return Err(QaError::RecordUnreadable(msg));
            },
        }
    }
    Ok(Table { headers, rows })
}

} // verus!
