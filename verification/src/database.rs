//! The debug database: a PDB file held in memory, read through the `pdb`
//! crate.
//!
//! Nothing in this module is proved of the `pdb` crate itself. What is
//! believed of it is written on the trusted items below, each of which
//! names the function it stands for. They say what a call gives back; that
//! it comes back at all is believed for targets whose `usize` has 64 bits,
//! and as long as memory can be had for what the file claims to hold.

use vstd::prelude::*;
use vstd::string::StringExecFns;
use crate::error::{Failure, LookupError};
use crate::symbol::{DataSymbol, Pull, Record, SectionHeader, SymbolModel, SymbolSource};

verus! {

/// `pdb::PDB`, held as an opaque value.
#[verifier::external_type_specification]
#[verifier::external_body]
#[verifier::reject_recursive_types(S)]
pub struct ExPdb<'s, S>(pdb::PDB<'s, S>);

/// `std::io::Cursor`, held as an opaque value.
#[verifier::external_type_specification]
#[verifier::external_body]
#[verifier::reject_recursive_types(T)]
pub struct ExCursor<T>(std::io::Cursor<T>);

/// `pdb::SymbolTable`, held as an opaque value.
#[verifier::external_type_specification]
#[verifier::external_body]
pub struct ExSymbolTable<'s>(pdb::SymbolTable<'s>);

/// `pdb::SymbolIter`, held as an opaque value.
#[verifier::external_type_specification]
#[verifier::external_body]
pub struct ExSymbolIter<'t>(pdb::SymbolIter<'t>);

/// `pdb::Symbol`, held as an opaque value.
#[verifier::external_type_specification]
#[verifier::external_body]
pub struct ExSymbol<'t>(pdb::Symbol<'t>);

/// `pdb::Error`, held as an opaque value.
#[verifier::external_type_specification]
#[verifier::external_body]
pub struct ExPdbError(pdb::Error);

/// Whether `pdb::PDB::open` accepts a file of these bytes.
pub uninterp spec fn opens(bytes: Seq<u8>) -> bool;

/// The bytes of the file that a database reads from.
pub uninterp spec fn source_bytes(db: pdb::PDB<'static, std::io::Cursor<Vec<u8>>>) -> Seq<u8>;

/// What `pdb::PDB::raw_stream` gives for stream `index` of a file of these
/// bytes: `None` where it fails, `Some(None)` where the index names no
/// stream, and else the bytes of the stream.
pub uninterp spec fn stream_in(bytes: Seq<u8>, index: u16) -> Option<Option<Seq<u8>>>;

/// What `pdb::PDB::sections` gives for a file of these bytes: `None` where
/// it fails, `Some(None)` where the file holds no section headers, and else
/// the raw-data pointer of each section header, in the table's order.
pub uninterp spec fn sections_in(bytes: Seq<u8>) -> Option<Option<Seq<u32>>>;

/// What `pdb::PDB::global_symbols` gives for a file of these bytes: `None`
/// where it fails, and else the records of the global symbol table as
/// `table_records` speaks of them.
pub uninterp spec fn symbols_in(bytes: Seq<u8>) -> Option<Seq<Option<Seq<u8>>>>;

/// The records that an iterator over a symbol table yields from its start,
/// in order, each as its raw bytes. Where the iterator fails on a record,
/// that record stands as `None`, and nothing is said of what follows it.
pub uninterp spec fn table_records(table: pdb::SymbolTable<'static>) -> Seq<Option<Seq<u8>>>;

/// The records that a symbol iterator has yet to yield, as `table_records`
/// speaks of them.
pub uninterp spec fn remaining_records(iter: pdb::SymbolIter<'_>) -> Seq<Option<Seq<u8>>>;

/// The raw bytes of a symbol record: its kind and the data that follow it.
pub uninterp spec fn record_bytes(symbol: pdb::Symbol<'_>) -> Seq<u8>;

/// What `pdb::Symbol::parse` makes of a record of these bytes: `None` where
/// it fails, `Some(None)` where the record is not a data symbol, and else
/// the data symbol's raw name, section index and offset in the section.
pub uninterp spec fn parsed_data(record: Seq<u8>) -> Option<Option<(Seq<u8>, u16, u32)>>;

/// The text that `pdb::RawString::to_string` gives for a raw name.
pub uninterp spec fn name_text(raw: Seq<u8>) -> Seq<char>;

/// The kind of a symbol record: the little-endian number in its first two
/// bytes, and zero for a record shorter than that.
pub open spec fn record_kind(record: Seq<u8>) -> u16 {
    if record.len() >= 2 {
        (record[0] as int + 256 * (record[1] as int)) as u16
    } else {
        0
    }
}

/// Whether `kind` is one of the record kinds that `pdb` parses as data
/// symbols: local or global, managed or unmanaged, with either form of name.
pub open spec fn is_data_kind(kind: u16) -> bool {
    ||| kind == 0x1007
    ||| kind == 0x1008
    ||| kind == 0x1020
    ||| kind == 0x1021
    ||| kind == 0x110c
    ||| kind == 0x110d
    ||| kind == 0x111c
    ||| kind == 0x111d
}

/// The number of the stream that holds the debug information.
pub const DEBUG_INFORMATION: u16 = 3;

/// The length of the header of the debug information stream.
pub const DEBUG_HEADER_LENGTH: usize = 64;

/// The little-endian number in the four bytes of `bytes` from `at` on.
pub open spec fn le32(bytes: Seq<u8>, at: int) -> int {
    bytes[at] + 0x100 * bytes[at + 1] + 0x1_0000 * bytes[at + 2] + 0x100_0000 * bytes[at + 3]
}

/// The sizes that the header of the debug information stream gives for the
/// parts that stand between it and the list of optional streams, added up:
/// module list, section contributions, section map, file information, type
/// server map and EC names.
pub open spec fn substream_sizes(stream: Seq<u8>) -> int {
    le32(stream, 24) + le32(stream, 28) + le32(stream, 32) + le32(stream, 36) + le32(stream, 40)
        + le32(stream, 52)
}

/// Whether the sizes in the header of the debug information stream can be
/// added up in 32 bits. A stream that is too short to hold the header gives
/// no sizes to add.
pub open spec fn sizes_fit(stream: Seq<u8>) -> bool {
    stream.len() >= DEBUG_HEADER_LENGTH ==> substream_sizes(stream) <= u32::MAX
}

/// Whether the section headers of a file of these bytes can be asked for:
/// its debug information stream, where it can be had, gives sizes that fit.
pub open spec fn sections_readable(bytes: Seq<u8>) -> bool {
    match stream_in(bytes, DEBUG_INFORMATION) {
        Some(Some(stream)) => sizes_fit(stream),
        _ => true,
    }
}

/// What one record of a symbol table counts as in a lookup run.
///
/// Only a record of a data kind is parsed: it is broken where the parse
/// fails, and a data symbol, named by the text of its raw name, where the
/// parse gives one. Records of every other kind are passed over unread.
pub open spec fn pull_of(record: Option<Seq<u8>>) -> Pull {
    match record {
        None => Pull::Broken,
        Some(bytes) => if !is_data_kind(record_kind(bytes)) {
            Pull::Other
        } else {
            match parsed_data(bytes) {
                None => Pull::Broken,
                Some(None) => Pull::Other,
                Some(Some(fields)) => Pull::Data(
                    SymbolModel { name: name_text(fields.0), section: fields.1, offset: fields.2 },
                ),
            }
        },
    }
}

/// The section header table that a sequence of raw-data pointers stands for.
pub open spec fn section_table(pointers: Seq<u32>) -> Seq<SectionHeader> {
    Seq::new(pointers.len(), |i: int| SectionHeader { pointer_to_raw_data: pointers[i] })
}

/// What the records of a symbol table count as, in the same order.
pub open spec fn pulls_of(records: Seq<Option<Seq<u8>>>) -> Seq<Pull> {
    Seq::new(records.len(), |i: int| pull_of(records[i]))
}

/// `pdb::PDB::open` on a cursor over `bytes`: it succeeds on the files that
/// `opens` names, and the database it gives reads from those bytes.
#[verifier::external_body]
fn open_pdb(bytes: Vec<u8>) -> (opened: Result<
    pdb::PDB<'static, std::io::Cursor<Vec<u8>>>,
    pdb::Error,
>)
    ensures
        opened is Ok <==> opens(bytes@),
        opened matches Ok(db) ==> source_bytes(db) == bytes@,
{
    pdb::PDB::open(std::io::Cursor::new(bytes))
}

/// `pdb::PDB::raw_stream`: its result depends on the file's bytes and the
/// stream's index alone, and it leaves the bytes as they are.
#[verifier::external_body]
fn read_stream(db: &mut pdb::PDB<'static, std::io::Cursor<Vec<u8>>>, index: u16) -> (read: Result<
    Option<Vec<u8>>,
    pdb::Error,
>)
    ensures
        source_bytes(*final(db)) == source_bytes(*old(db)),
        match read {
            Ok(Some(stream)) => stream_in(source_bytes(*old(db)), index) == Some(Some(stream@)),
            Ok(None) => stream_in(source_bytes(*old(db)), index) == Some(None::<Seq<u8>>),
            Err(_) => stream_in(source_bytes(*old(db)), index) is None,
        },
{
    match db.raw_stream(pdb::StreamIndex(index)) {
        Ok(Some(stream)) => Ok(Some(stream.as_slice().to_vec())),
        Ok(None) => Ok(None),
        Err(error) => Err(error),
    }
}

/// `pdb::PDB::sections`: its result depends on the file's bytes alone, which
/// it leaves as they are. Of each section header only the raw-data pointer
/// is kept.
///
/// To find the section headers, `pdb` adds up the sizes in the header of the
/// debug information stream in 32 bits without a check, so the call is made
/// only where they fit.
#[verifier::external_body]
fn read_sections(db: &mut pdb::PDB<'static, std::io::Cursor<Vec<u8>>>) -> (read: Result<
    Option<Vec<u32>>,
    pdb::Error,
>)
    requires
        sections_readable(source_bytes(*old(db))),
    ensures
        source_bytes(*final(db)) == source_bytes(*old(db)),
        match read {
            Ok(Some(pointers)) => sections_in(source_bytes(*old(db))) == Some(Some(pointers@)),
            Ok(None) => sections_in(source_bytes(*old(db))) == Some(None::<Seq<u32>>),
            Err(_) => sections_in(source_bytes(*old(db))) is None,
        },
{
    match db.sections() {
        Ok(Some(headers)) => Ok(
            Some(headers.iter().map(|header| header.pointer_to_raw_data).collect()),
        ),
        Ok(None) => Ok(None),
        Err(error) => Err(error),
    }
}

/// `pdb::PDB::global_symbols`: its result depends on the file's bytes alone,
/// which it leaves as they are.
#[verifier::external_body]
fn read_global_symbols(db: &mut pdb::PDB<'static, std::io::Cursor<Vec<u8>>>) -> (read: Result<
    pdb::SymbolTable<'static>,
    pdb::Error,
>)
    ensures
        source_bytes(*final(db)) == source_bytes(*old(db)),
        match read {
            Ok(table) => symbols_in(source_bytes(*old(db))) == Some(table_records(table)),
            Err(_) => symbols_in(source_bytes(*old(db))) is None,
        },
{
    db.global_symbols()
}

/// `pdb::SymbolTable::iter`: an iterator that stands at the table's start.
#[verifier::external_body]
fn iterate<'t>(table: &'t pdb::SymbolTable<'static>) -> (iter: pdb::SymbolIter<'t>)
    ensures
        remaining_records(iter) == table_records(*table),
{
    table.iter()
}

/// `next` of `pdb::SymbolIter`: it yields the first of the remaining records
/// and steps past it, yields nothing once none remains, and fails where the
/// first remaining record cannot be read.
#[verifier::external_body]
fn next_symbol<'t>(iter: &mut pdb::SymbolIter<'t>) -> (next: Result<
    Option<pdb::Symbol<'t>>,
    pdb::Error,
>)
    ensures
        match next {
            Ok(Some(symbol)) => {
                &&& remaining_records(*old(iter)).len() > 0
                &&& remaining_records(*old(iter))[0] == Some(record_bytes(symbol))
                &&& remaining_records(*final(iter)) == remaining_records(*old(iter)).skip(1)
            },
            Ok(None) => {
                &&& remaining_records(*old(iter)).len() == 0
                &&& remaining_records(*final(iter)).len() == 0
            },
            Err(_) => {
                &&& remaining_records(*old(iter)).len() > 0
                &&& remaining_records(*old(iter))[0] is None
            },
        },
{
    pdb::FallibleIterator::next(iter)
}

/// `pdb::Symbol::raw_kind`: the kind of the record.
#[verifier::external_body]
fn raw_kind(symbol: &pdb::Symbol<'_>) -> (kind: u16)
    ensures
        kind == record_kind(record_bytes(*symbol)),
{
    symbol.raw_kind()
}

/// `pdb::Symbol::parse`: its result depends on the record's bytes alone. Of
/// a data symbol the raw name, the section index and the offset in the
/// section are kept.
///
/// The call is made on records of data kinds only. Their parser reads an
/// index, an offset and a name within the record's bounds; the parsers of
/// other kinds are not all known to return on every record.
#[verifier::external_body]
fn parse_data(symbol: &pdb::Symbol<'_>) -> (parsed: Result<Option<(Vec<u8>, u16, u32)>, pdb::Error>)
    requires
        is_data_kind(record_kind(record_bytes(*symbol))),
    ensures
        match parsed {
            Ok(Some(fields)) => parsed_data(record_bytes(*symbol)) == Some(
                Some((fields.0@, fields.1, fields.2)),
            ),
            Ok(None) => parsed_data(record_bytes(*symbol)) == Some(None::<(Seq<u8>, u16, u32)>),
            Err(_) => parsed_data(record_bytes(*symbol)) is None,
        },
{
    match symbol.parse() {
        Ok(pdb::SymbolData::Data(data)) => Ok(
            Some((data.name.as_bytes().to_vec(), data.offset.section, data.offset.offset)),
        ),
        Ok(_) => Ok(None),
        Err(error) => Err(error),
    }
}

/// `pdb::RawString::to_string`: the text of a raw name, which depends on the
/// name's bytes alone.
#[verifier::external_body]
fn raw_name_text(raw: &[u8]) -> (text: String)
    ensures
        text@ == name_text(raw@),
{
    pdb::RawString::from(raw).to_string().into_owned()
}

/// The words in which a `pdb::Error` describes itself.
#[verifier::external_body]
fn error_words(error: &pdb::Error) -> (words: String) {
    format!("{}", error)
}

/// Whether `kind` is one of the record kinds of data symbols.
pub fn is_data_record(kind: u16) -> (data: bool)
    ensures
        data == is_data_kind(kind),
{
    kind == 0x1007 || kind == 0x1008 || kind == 0x1020 || kind == 0x1021 || kind == 0x110c || kind
        == 0x110d || kind == 0x111c || kind == 0x111d
}

fn read_le32(bytes: &[u8], at: usize) -> (value: u32)
    requires
        at + 4 <= bytes.len(),
    ensures
        value == le32(bytes@, at as int),
{
    let low = bytes[at] as u32 + 0x100 * (bytes[at + 1] as u32);
    let high = bytes[at + 2] as u32 + 0x100 * (bytes[at + 3] as u32);
    low + 0x1_0000 * high
}

/// Whether the sizes in the header of the debug information stream can be
/// added up in 32 bits.
pub fn check_sizes(stream: &[u8]) -> (fit: bool)
    ensures
        fit == sizes_fit(stream@),
{
    if stream.len() < DEBUG_HEADER_LENGTH {
        return true;
    }
    let sum = read_le32(stream, 24) as u64 + read_le32(stream, 28) as u64 + read_le32(
        stream,
        32,
    ) as u64 + read_le32(stream, 36) as u64 + read_le32(stream, 40) as u64 + read_le32(
        stream,
        52,
    ) as u64;
    sum <= u32::MAX as u64
}

fn table_of(pointers: Vec<u32>) -> (table: Vec<SectionHeader>)
    ensures
        table@ == section_table(pointers@),
{
    let mut table: Vec<SectionHeader> = Vec::new();
    let mut i: usize = 0;
    while i < pointers.len()
        invariant
            i <= pointers.len(),
            table@ == section_table(pointers@.take(i as int)),
        decreases pointers.len() - i,
    {
        table.push(SectionHeader { pointer_to_raw_data: pointers[i] });
        i += 1;
        assert(table@ =~= section_table(pointers@.take(i as int)));
    }
    assert(pointers@.take(i as int) =~= pointers@);
    table
}

/// A debug database that was opened on the bytes of a PDB file.
pub struct Database {
    pdb: pdb::PDB<'static, std::io::Cursor<Vec<u8>>>,
}

/// The global symbol table of a debug database.
pub struct GlobalSymbols {
    table: pdb::SymbolTable<'static>,
}

/// One pass over the records of a global symbol table.
pub struct TableRecords<'t> {
    iter: pdb::SymbolIter<'t>,
}

impl Database {
    /// The bytes of the file that the database was opened on.
    pub closed spec fn bytes(&self) -> Seq<u8> {
        source_bytes(self.pdb)
    }

    /// Opens the database that a PDB file of these bytes holds.
    pub fn open(bytes: Vec<u8>) -> (opened: Result<Database, LookupError>)
        ensures
            match opened {
                Ok(db) => opens(bytes@) && db.bytes() == bytes@,
                Err(error) => !opens(bytes@) && error@ == Failure::Database,
            },
    {
        match open_pdb(bytes) {
            Ok(pdb) => Ok(Database { pdb }),
            Err(error) => Err(LookupError::Database(error_words(&error))),
        }
    }

    /// Loads the section header table.
    ///
    /// A database whose debug information gives sizes that do not fit is
    /// refused as one that cannot be read; one without section headers is
    /// refused as such.
    pub fn section_headers(&mut self) -> (loaded: Result<Vec<SectionHeader>, LookupError>)
        ensures
            final(self).bytes() == old(self).bytes(),
            if !sections_readable(old(self).bytes()) {
                loaded matches Err(error) && error@ == Failure::Database
            } else {
                match sections_in(old(self).bytes()) {
                    Some(Some(pointers)) => loaded matches Ok(headers) && headers@
                        == section_table(pointers),
                    Some(None) => loaded matches Err(error) && error@ == Failure::NoSections,
                    None => loaded matches Err(error) && error@ == Failure::Database,
                }
            },
    {
        if let Ok(Some(stream)) = read_stream(&mut self.pdb, DEBUG_INFORMATION) {
            if !check_sizes(stream.as_slice()) {
                return Err(
                    LookupError::Database(
                        String::from_str(
                            "the debug information header gives sizes that do not fit in 32 bits",
                        ),
                    ),
                );
            }
        }
        match read_sections(&mut self.pdb) {
            Ok(Some(pointers)) => Ok(table_of(pointers)),
            Ok(None) => Err(LookupError::NoSections),
            Err(error) => Err(LookupError::Database(error_words(&error))),
        }
    }

    /// Loads the global symbol table.
    pub fn global_symbols(&mut self) -> (loaded: Result<GlobalSymbols, LookupError>)
        ensures
            final(self).bytes() == old(self).bytes(),
            match symbols_in(old(self).bytes()) {
                Some(records) => loaded matches Ok(symbols) && symbols.stream() == pulls_of(
                    records,
                ),
                None => loaded matches Err(error) && error@ == Failure::Database,
            },
    {
        match read_global_symbols(&mut self.pdb) {
            Ok(table) => Ok(GlobalSymbols { table }),
            Err(error) => Err(LookupError::Database(error_words(&error))),
        }
    }
}

impl GlobalSymbols {
    /// What the records of the table count as in a lookup run, in the
    /// table's order.
    pub closed spec fn stream(&self) -> Seq<Pull> {
        pulls_of(table_records(self.table))
    }

    /// Starts a pass over the records of the table.
    pub fn records(&self) -> (records: TableRecords<'_>)
        ensures
            records.pending() == self.stream(),
    {
        TableRecords { iter: iterate(&self.table) }
    }
}

impl<'t> SymbolSource for TableRecords<'t> {
    closed spec fn pending(&self) -> Seq<Pull> {
        pulls_of(remaining_records(self.iter))
    }

    fn next_record(&mut self) -> (next: Option<Record>) {
        let ghost before = remaining_records(self.iter);
        match next_symbol(&mut self.iter) {
            Err(error) => Some(Record::Broken(error_words(&error))),
            Ok(None) => None,
            Ok(Some(symbol)) => {
                assert(pulls_of(before.skip(1)) =~= pulls_of(before).skip(1));
                if !is_data_record(raw_kind(&symbol)) {
                    Some(Record::Other)
                } else {
                    match parse_data(&symbol) {
                        Err(error) => Some(Record::Broken(error_words(&error))),
                        Ok(None) => Some(Record::Other),
                        Ok(Some(fields)) => Some(
                            Record::Data(
                                DataSymbol {
                                    name: raw_name_text(fields.0.as_slice()),
                                    section: fields.1,
                                    offset: fields.2,
                                },
                            ),
                        ),
                    }
                }
            },
        }
    }
}

} // verus!
