//! A whole lookup run over an image held in memory, fed by any source of
//! records or by the bytes of a debug database.

use vstd::prelude::*;
use crate::database::{
    opens, pulls_of, section_table, sections_in, sections_readable, symbols_in, Database,
};
use crate::error::{Failure, LookupError};
use crate::image::{bytes_until_null, string_at};
use crate::lookup::{
    all_found, lemma_scan_bounds, none_found, scan, texts, Halt, Lookup, PhaseModel,
};
use crate::row::{header_line, output_text, row_text, ResultRow, RowModel};
use crate::symbol::{Pull, SectionHeader, SymbolSource};

verus! {

/// Why a run ended.
pub enum Ending {
    /// The stream had no more records.
    Exhausted,
    /// Every requested name was found.
    Complete,
    /// The run could not go on.
    Failed(Failure),
}

/// How a run went: the rows it emitted, in order; why it ended; the flags
/// of the names as it left them; and the number of records that it took
/// from the stream.
pub struct Outcome {
    pub rows: Seq<RowModel>,
    pub ending: Ending,
    pub found: Seq<bool>,
    pub consumed: nat,
}

/// Runs a lookup for `names` over `stream`, reading strings from `image`.
///
/// The stream is scanned up to the first halt. A request is answered with the
/// string at its offset in the image: text that is not UTF-8 fails the run;
/// otherwise a row is emitted and the name is marked as found. The run ends
/// there if every name is found, and goes on with the rest of the stream
/// otherwise.
pub open spec fn run(
    image: Seq<u8>,
    names: Seq<Seq<char>>,
    sections: Seq<SectionHeader>,
    found: Seq<bool>,
    stream: Seq<Pull>,
) -> Outcome
    decreases stream.len(),
    via run_decreases
{
    let scanned = scan(names, sections, found, stream);
    match scanned.halt {
        Halt::Exhausted => Outcome {
            rows: Seq::empty(),
            ending: Ending::Exhausted,
            found,
            consumed: scanned.consumed,
        },
        Halt::Complete => Outcome {
            rows: Seq::empty(),
            ending: Ending::Complete,
            found,
            consumed: scanned.consumed,
        },
        Halt::Failed(failure) => Outcome {
            rows: Seq::empty(),
            ending: Ending::Failed(failure),
            found,
            consumed: scanned.consumed,
        },
        Halt::Request(request) => match string_at(image, request.offset as int) {
            None => Outcome {
                rows: Seq::empty(),
                ending: Ending::Failed(Failure::NotText { offset: request.offset }),
                found,
                consumed: scanned.consumed,
            },
            Some(value) => {
                let row = RowModel { offset: request.offset, name: request.name, value };
                let marked = found.update(request.index as int, true);
                if all_found(marked) {
                    Outcome {
                        rows: seq![row],
                        ending: Ending::Complete,
                        found: marked,
                        consumed: scanned.consumed,
                    }
                } else {
                    let rest = run(
                        image,
                        names,
                        sections,
                        marked,
                        stream.skip(scanned.consumed as int),
                    );
                    Outcome {
                        rows: seq![row] + rest.rows,
                        ending: rest.ending,
                        found: rest.found,
                        consumed: scanned.consumed + rest.consumed,
                    }
                }
            },
        },
    }
}

#[via_fn]
proof fn run_decreases(
    image: Seq<u8>,
    names: Seq<Seq<char>>,
    sections: Seq<SectionHeader>,
    found: Seq<bool>,
    stream: Seq<Pull>,
) {
    lemma_scan_bounds(names, sections, found, stream);
}

/// What a run hands back: the rows it emitted, in order, and the error that
/// ended it, if one did. Rows emitted before an error stay.
#[derive(Clone, Debug, PartialEq, Eq)]
pub struct Report {
    pub rows: Vec<ResultRow>,
    pub failure: Option<LookupError>,
}

/// What a sequence of rows stands for, in the same order.
pub open spec fn row_models(rows: Seq<ResultRow>) -> Seq<RowModel> {
    Seq::new(rows.len(), |i: int| rows[i]@)
}

impl Report {
    /// Whether the report holds the rows of `outcome`, and its failure
    /// where it ended in one.
    pub open spec fn matches_outcome(self, outcome: Outcome) -> bool {
        &&& row_models(self.rows@) == outcome.rows
        &&& match self.failure {
            Some(error) => outcome.ending == Ending::Failed(error@),
            None => !(outcome.ending is Failed),
        }
    }

    /// The lines that the run wrote: the header line, then one line for each
    /// row.
    pub fn lines(&self) -> (lines: Vec<String>)
        ensures
            texts(lines@) == output_text(row_models(self.rows@)),
    {
        let mut lines: Vec<String> = Vec::new();
        lines.push(header_line());
        let mut i: usize = 0;
        while i < self.rows.len()
            invariant
                i <= self.rows.len(),
                lines@.len() == i + 1,
                texts(lines@) == output_text(row_models(self.rows@).take(i as int)),
            decreases self.rows.len() - i,
        {
            let ghost before = lines@;
            lines.push(self.rows[i].line());
            i += 1;
            proof {
                let models = row_models(self.rows@);
                let wanted = output_text(models.take(i as int));
                assert(texts(lines@).len() == wanted.len());
                assert forall|k: int| 0 <= k < wanted.len() implies texts(lines@)[k]
                    == wanted[k] by {
                    if k < i {
                        assert(texts(lines@)[k] == texts(before)[k]);
                        assert(texts(before)[k] == output_text(models.take(i - 1))[k]);
                        if k > 0 {
                            assert(models.take(i - 1)[k - 1] == models.take(i as int)[k - 1]);
                        }
                    } else {
                        assert(wanted[k] == row_text(models.take(i as int)[k - 1]));
                    }
                }
                assert(texts(lines@) =~= wanted);
            }
        }
        assert(row_models(self.rows@).take(i as int) =~= row_models(self.rows@));
        lines
    }
}

/// Runs a lookup for `names` over the records of `source`, placing symbols
/// by `sections` and reading their strings from `image`.
///
/// Unless the source broke, it is left just behind the last record that the
/// run took.
pub fn resolve<S: SymbolSource>(
    image: &[u8],
    names: Vec<String>,
    sections: Vec<SectionHeader>,
    source: &mut S,
) -> (report: Report)
    ensures
        ({
            let outcome = run(
                image@,
                texts(names@),
                sections@,
                none_found(names@.len()),
                old(source).pending(),
            );
            &&& report.matches_outcome(outcome)
            &&& outcome.ending != Ending::Failed(Failure::Database)
                ==> final(source).pending() == old(source).pending().skip(
                outcome.consumed as int,
            )
        }),
{
    let ghost wanted = texts(names@);
    let ghost table = sections@;
    let ghost start = source.pending();
    let ghost mut pulled: nat = 0;
    let mut lookup = Lookup::new(names, sections);
    let mut rows: Vec<ResultRow> = Vec::new();
    assert(start.skip(0) =~= start);
    assert(row_models(rows@) + run(image@, wanted, table, lookup@.found, start).rows =~= run(
        image@,
        wanted,
        table,
        lookup@.found,
        start,
    ).rows);
    loop
        invariant
            start == old(source).pending(),
            wanted == texts(names@),
            table == sections@,
            lookup@.names == wanted,
            lookup@.sections == table,
            lookup@.phase == PhaseModel::Scanning,
            lookup@.well_formed(),
            pulled <= start.len(),
            source.pending() == start.skip(pulled as int),
            ({
                let whole = run(image@, wanted, table, none_found(wanted.len()), start);
                let rest = run(image@, wanted, table, lookup@.found, source.pending());
                &&& whole.rows == row_models(rows@) + rest.rows
                &&& whole.ending == rest.ending
                &&& whole.found == rest.found
                &&& whole.consumed == pulled + rest.consumed
            }),
        decreases source.pending().len(),
    {
        let ghost before = source.pending();
        let ghost scanned = scan(wanted, table, lookup@.found, before);
        proof {
            lemma_scan_bounds(wanted, table, lookup@.found, before);
            assert(before.skip(scanned.consumed as int) =~= start.skip(
                (pulled + scanned.consumed) as int,
            ));
        }
        match lookup.advance(source) {
            Err(error) => {
                assert(row_models(rows@) + Seq::<RowModel>::empty() =~= row_models(rows@));
                return Report { rows, failure: Some(error) };
            },
            Ok(None) => {
                assert(row_models(rows@) + Seq::<RowModel>::empty() =~= row_models(rows@));
                return Report { rows, failure: None };
            },
            Ok(Some(request)) => {
                let bytes = bytes_until_null(image, request.offset);
                let ghost earlier = row_models(rows@);
                match lookup.fulfil(bytes.as_slice()) {
                    Err(error) => {
                        assert(earlier + Seq::<RowModel>::empty() =~= earlier);
                        return Report { rows, failure: Some(error) };
                    },
                    Ok(None) => {
                        return Report { rows, failure: None };
                    },
                    Ok(Some(row)) => {
                        rows.push(row);
                        proof {
                            pulled = pulled + scanned.consumed;
                            assert(row_models(rows@) =~= earlier + seq![row@]);
                        }
                        if lookup.is_complete() {
                            return Report { rows, failure: None };
                        }
                        assert(earlier + (seq![row@] + run(
                            image@,
                            wanted,
                            table,
                            lookup@.found,
                            source.pending(),
                        ).rows) =~= row_models(rows@) + run(
                            image@,
                            wanted,
                            table,
                            lookup@.found,
                            source.pending(),
                        ).rows);
                    },
                }
            },
        }
    }
}

/// What a run over the database in the bytes `database` comes to.
///
/// The database is opened, its global symbol table is loaded, and then its
/// section headers are; the first of these that fails gives the failure of
/// the whole, before any record is pulled. Otherwise the run is the one for
/// `names` over the records of the symbol table, with the section headers of
/// the database.
pub open spec fn run_database(image: Seq<u8>, database: Seq<u8>, names: Seq<Seq<char>>) -> Result<
    Outcome,
    Failure,
> {
    if !opens(database) {
        Err(Failure::Database)
    } else {
        match symbols_in(database) {
            None => Err(Failure::Database),
            Some(records) => if !sections_readable(database) {
                Err(Failure::Database)
            } else {
                match sections_in(database) {
                    None => Err(Failure::Database),
                    Some(None) => Err(Failure::NoSections),
                    Some(Some(pointers)) => Ok(
                        run(
                            image,
                            names,
                            section_table(pointers),
                            none_found(names.len()),
                            pulls_of(records),
                        ),
                    ),
                }
            },
        }
    }
}

/// Runs a lookup for `names` over the debug database that the bytes
/// `database` hold, reading the strings from `image`.
///
/// An error is given where the database cannot be loaded, in which case no
/// run takes place; a failure of the run itself stands in the report, with
/// the rows emitted before it.
pub fn resolve_database(image: &[u8], database: Vec<u8>, names: Vec<String>) -> (resolved: Result<
    Report,
    LookupError,
>)
    ensures
        match resolved {
            Ok(report) => run_database(image@, database@, texts(names@)) matches Ok(outcome)
                && report.matches_outcome(outcome),
            Err(error) => run_database(image@, database@, texts(names@)) == Err::<
                Outcome,
                Failure,
            >(error@),
        },
{
    let mut db = match Database::open(database) {
        Ok(db) => db,
        Err(error) => {
            return Err(error);
        },
    };
    let symbols = match db.global_symbols() {
        Ok(symbols) => symbols,
        Err(error) => {
            return Err(error);
        },
    };
    let sections = match db.section_headers() {
        Ok(sections) => sections,
        Err(error) => {
            return Err(error);
        },
    };
    let mut records = symbols.records();
    Ok(resolve(image, names, sections, &mut records))
}

} // verus!
