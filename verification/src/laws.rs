//! What holds of every lookup run.

use vstd::prelude::*;
use crate::error::Failure;
use vstd::utf8::{decode_utf8, valid_utf8};
use crate::image::{lemma_terminated_run, string_at};
use crate::lookup::{
    absolute_offset, all_found, halts_on, lemma_scan_append, lemma_scan_bounds, lemma_scan_prefix,
    lemma_scan_reads, none_found, passed_over, scan, Halt, Verdict, verdict,
};
use crate::resolve::{run, run_database, Ending, Outcome};
use crate::row::{header_text, output_text, RowModel};
use crate::symbol::{Pull, SectionHeader, SymbolModel};

verus! {

/// A run takes no more records than the stream holds: all of them where the
/// stream runs out, and at least one where it ends for another reason. It
/// keeps one flag for each name and resets none, and where it ends because
/// every name is found, every flag is set.
pub proof fn lemma_run_bounds(
    image: Seq<u8>,
    names: Seq<Seq<char>>,
    sections: Seq<SectionHeader>,
    found: Seq<bool>,
    stream: Seq<Pull>,
)
    requires
        found.len() == names.len(),
    ensures
        ({
            let outcome = run(image, names, sections, found, stream);
            &&& outcome.consumed <= stream.len()
            &&& outcome.ending is Exhausted ==> outcome.consumed == stream.len()
            &&& !(outcome.ending is Exhausted) ==> outcome.consumed >= 1
            &&& outcome.found.len() == found.len()
            &&& forall|i: int| 0 <= i < found.len() && found[i] ==> outcome.found[i]
            &&& outcome.ending is Complete ==> all_found(outcome.found)
        }),
    decreases stream.len(),
{
    lemma_scan_reads(names, sections, found, stream);
    let scanned = scan(names, sections, found, stream);
    if let Halt::Request(request) = scanned.halt {
        names.index_of_first_ensures(request.name);
        if let Some(value) = string_at(image, request.offset as int) {
            let marked = found.update(request.index as int, true);
            if !all_found(marked) {
                let rest = stream.skip(scanned.consumed as int);
                lemma_run_bounds(image, names, sections, marked, rest);
                let after = run(image, names, sections, marked, rest);
                assert forall|i: int| 0 <= i < found.len() && found[i] implies after.found[i] by {
                    assert(marked[i]);
                }
            }
        }
    }
}

/// A run that ends before the stream runs out does not depend on the
/// records that follow the last one it took.
pub proof fn lemma_run_prefix(
    image: Seq<u8>,
    names: Seq<Seq<char>>,
    sections: Seq<SectionHeader>,
    found: Seq<bool>,
    stream: Seq<Pull>,
    further: Seq<Pull>,
)
    requires
        found.len() == names.len(),
        !(run(image, names, sections, found, stream).ending is Exhausted),
    ensures
        run(image, names, sections, found, stream).consumed <= stream.len(),
        run(
            image,
            names,
            sections,
            found,
            stream.take(run(image, names, sections, found, stream).consumed as int) + further,
        ) == run(image, names, sections, found, stream),
    decreases stream.len(),
{
    lemma_run_bounds(image, names, sections, found, stream);
    lemma_scan_reads(names, sections, found, stream);
    let scanned = scan(names, sections, found, stream);
    let outcome = run(image, names, sections, found, stream);
    let other = stream.take(outcome.consumed as int) + further;
    let tail = stream.subrange(scanned.consumed as int, outcome.consumed as int) + further;
    assert(other =~= stream.take(scanned.consumed as int) + tail);
    lemma_scan_prefix(names, sections, found, stream, tail);
    if let Halt::Request(request) = scanned.halt {
        names.index_of_first_ensures(request.name);
        if let Some(value) = string_at(image, request.offset as int) {
            let marked = found.update(request.index as int, true);
            if !all_found(marked) {
                let rest = stream.skip(scanned.consumed as int);
                lemma_run_bounds(image, names, sections, marked, rest);
                lemma_run_prefix(image, names, sections, marked, rest, further);
                let after = run(image, names, sections, marked, rest);
                assert(other.skip(scanned.consumed as int) =~= rest.take(after.consumed as int)
                    + further);
            }
        }
    }
}

/// A run that ends because the stream ran out goes on with what is put
/// behind the stream: the rows of both parts in order, the ending and the
/// flags of the second part, and the records of both.
pub proof fn lemma_run_append(
    image: Seq<u8>,
    names: Seq<Seq<char>>,
    sections: Seq<SectionHeader>,
    found: Seq<bool>,
    stream: Seq<Pull>,
    further: Seq<Pull>,
)
    requires
        found.len() == names.len(),
        run(image, names, sections, found, stream).ending is Exhausted,
    ensures
        ({
            let first = run(image, names, sections, found, stream);
            let second = run(image, names, sections, first.found, further);
            run(image, names, sections, found, stream + further) == (Outcome {
                rows: first.rows + second.rows,
                ending: second.ending,
                found: second.found,
                consumed: stream.len() + second.consumed,
            })
        }),
    decreases stream.len(),
{
    lemma_run_bounds(image, names, sections, found, stream);
    lemma_scan_reads(names, sections, found, stream);
    let scanned = scan(names, sections, found, stream);
    let first = run(image, names, sections, found, stream);
    let second = run(image, names, sections, first.found, further);
    let whole = stream + further;
    match scanned.halt {
        Halt::Exhausted => {
            lemma_scan_append(names, sections, found, stream, further);
            lemma_scan_bounds(names, sections, found, further);
            let behind = scan(names, sections, found, further);
            assert(whole.skip((stream.len() + behind.consumed) as int) =~= further.skip(
                behind.consumed as int,
            ));
            assert(first.rows + second.rows =~= second.rows);
        },
        Halt::Request(request) => {
            names.index_of_first_ensures(request.name);
            let value = string_at(image, request.offset as int).unwrap();
            let row = RowModel { offset: request.offset, name: request.name, value };
            let marked = found.update(request.index as int, true);
            let rest = stream.skip(scanned.consumed as int);
            assert(whole =~= stream.take(scanned.consumed as int) + (rest + further));
            lemma_scan_prefix(names, sections, found, stream, rest + further);
            assert(whole.skip(scanned.consumed as int) =~= rest + further);
            lemma_run_append(image, names, sections, marked, rest, further);
            let after = run(image, names, sections, marked, rest);
            assert(seq![row] + (after.rows + second.rows) =~= (seq![row] + after.rows)
                + second.rows);
        },
        _ => {},
    }
}

/// Whether `pull` is a data symbol called `name`.
pub open spec fn is_named(pull: Pull, name: Seq<char>) -> bool {
    match pull {
        Pull::Data(symbol) => symbol.name == name,
        _ => false,
    }
}

/// The position in `stream` of the first data symbol called `name`; the
/// length of the stream where there is none.
pub open spec fn first_named(stream: Seq<Pull>, name: Seq<char>) -> int
    decreases stream.len(),
{
    if stream.len() == 0 {
        0
    } else if is_named(stream[0], name) {
        0
    } else {
        1 + first_named(stream.skip(1), name)
    }
}

/// `first_named` lies within the stream or at its end, points at a data
/// symbol of the name unless it is the end, and no data symbol before it
/// bears the name.
pub proof fn lemma_first_named(stream: Seq<Pull>, name: Seq<char>)
    ensures
        0 <= first_named(stream, name) <= stream.len(),
        first_named(stream, name) < stream.len() ==> is_named(
            stream[first_named(stream, name)],
            name,
        ),
        forall|m: int|
            0 <= m < first_named(stream, name) ==> !is_named(#[trigger] stream[m], name),
    decreases stream.len(),
{
    if stream.len() > 0 && !is_named(stream[0], name) {
        let rest = stream.skip(1);
        lemma_first_named(rest, name);
        assert forall|m: int| 0 <= m < first_named(stream, name) implies !is_named(
            #[trigger] stream[m],
            name,
        ) by {
            if m > 0 {
                assert(stream[m] == rest[m - 1]);
            }
        }
    }
}

proof fn lemma_first_named_is(stream: Seq<Pull>, name: Seq<char>, k: int)
    requires
        0 <= k <= stream.len(),
        k < stream.len() ==> is_named(stream[k], name),
        forall|m: int| 0 <= m < k ==> !is_named(#[trigger] stream[m], name),
    ensures
        first_named(stream, name) == k,
{
    lemma_first_named(stream, name);
}

/// Whether `name` is requested and not marked as found.
pub open spec fn unfound(names: Seq<Seq<char>>, found: Seq<bool>, name: Seq<char>) -> bool {
    match names.index_of_first(name) {
        Some(index) => !found[index],
        None => false,
    }
}

/// Whether `row` is what the first data symbol of its name in `stream`
/// gives: the symbol's absolute offset, and the string that the image holds
/// there.
pub open spec fn row_of_first(
    image: Seq<u8>,
    sections: Seq<SectionHeader>,
    stream: Seq<Pull>,
    row: RowModel,
) -> bool {
    let first = first_named(stream, row.name);
    &&& 0 <= first < stream.len()
    &&& match stream[first] {
        Pull::Data(symbol) => absolute_offset(sections, symbol) == Some(row.offset),
        _ => false,
    }
    &&& string_at(image, row.offset as int) == Some(row.value)
}

/// Among data symbols that share a name, the first one in the stream wins.
///
/// Each row of a run is for a requested name that was not found before. It
/// comes from the first data symbol of that name in the stream, which is
/// among the records that the run took: its offset is that symbol's
/// absolute offset, and its value is the string that the image holds there.
/// No two rows bear the same name, and every flag that the run set has its
/// row.
pub proof fn lemma_first_symbol_wins(
    image: Seq<u8>,
    names: Seq<Seq<char>>,
    sections: Seq<SectionHeader>,
    found: Seq<bool>,
    stream: Seq<Pull>,
)
    requires
        found.len() == names.len(),
    ensures
        ({
            let outcome = run(image, names, sections, found, stream);
            &&& forall|i: int|
                0 <= i < outcome.rows.len() ==> {
                    &&& unfound(names, found, (#[trigger] outcome.rows[i]).name)
                    &&& first_named(stream, outcome.rows[i].name) < outcome.consumed
                    &&& row_of_first(image, sections, stream, outcome.rows[i])
                }
            &&& forall|i: int, j: int|
                0 <= i < j < outcome.rows.len() ==> (#[trigger] outcome.rows[i]).name != (
                #[trigger] outcome.rows[j]).name
            &&& forall|index: int|
                0 <= index < names.len() && #[trigger] outcome.found[index] && !found[index]
                    ==> exists|i: int|
                    0 <= i < outcome.rows.len() && (#[trigger] outcome.rows[i]).name
                        == names[index]
        }),
    decreases stream.len(),
{
    lemma_scan_reads(names, sections, found, stream);
    let scanned = scan(names, sections, found, stream);
    let outcome = run(image, names, sections, found, stream);
    if let Halt::Request(request) = scanned.halt {
        let at = scanned.consumed - 1;
        names.index_of_first_ensures(request.name);
        assert(halts_on(names, sections, found, stream[at], scanned.halt));
        assert(is_named(stream[at], request.name));
        assert forall|m: int| 0 <= m < at implies !is_named(
            #[trigger] stream[m],
            request.name,
        ) by {
            assert(passed_over(names, sections, found, stream[m]));
        }
        lemma_first_named_is(stream, request.name, at);
        if let Some(value) = string_at(image, request.offset as int) {
            let row = RowModel { offset: request.offset, name: request.name, value };
            let marked = found.update(request.index as int, true);
            assert(row_of_first(image, sections, stream, row));
            assert(unfound(names, found, row.name));
            if all_found(marked) {
                assert(outcome.rows[0] == row);
                assert forall|index: int|
                    0 <= index < names.len() && #[trigger] outcome.found[index]
                        && !found[index] implies exists|i: int|
                    0 <= i < outcome.rows.len() && (#[trigger] outcome.rows[i]).name
                        == names[index] by {
                    assert(index == request.index);
                    assert(outcome.rows[0].name == names[index]);
                }
            } else {
                let rest = stream.skip(scanned.consumed as int);
                let after = run(image, names, sections, marked, rest);
                lemma_first_symbol_wins(image, names, sections, marked, rest);
                lemma_run_bounds(image, names, sections, marked, rest);
                assert(outcome.rows[0] == row);
                assert forall|i: int| 1 <= i < outcome.rows.len() implies {
                    &&& unfound(names, found, (#[trigger] outcome.rows[i]).name)
                    &&& first_named(stream, outcome.rows[i].name) < outcome.consumed
                    &&& row_of_first(image, sections, stream, outcome.rows[i])
                    &&& outcome.rows[i].name != row.name
                } by {
                    let later = after.rows[i - 1];
                    assert(outcome.rows[i] == later);
                    assert(unfound(names, marked, later.name));
                    names.index_of_first_ensures(later.name);
                    let behind = first_named(rest, later.name);
                    lemma_first_named(rest, later.name);
                    assert(later.name != row.name);
                    assert forall|m: int| 0 <= m < scanned.consumed + behind implies !is_named(
                        #[trigger] stream[m],
                        later.name,
                    ) by {
                        if m < at {
                            assert(passed_over(names, sections, found, stream[m]));
                        } else if m >= scanned.consumed {
                            assert(stream[m] == rest[m - scanned.consumed]);
                        }
                    }
                    assert(stream[scanned.consumed + behind] == rest[behind]);
                    lemma_first_named_is(stream, later.name, scanned.consumed + behind);
                }
                assert forall|i: int, j: int| 0 <= i < j < outcome.rows.len() implies (
                #[trigger] outcome.rows[i]).name != (#[trigger] outcome.rows[j]).name by {
                    if i > 0 {
                        assert(outcome.rows[i] == after.rows[i - 1]);
                        assert(outcome.rows[j] == after.rows[j - 1]);
                    }
                }
                assert forall|index: int|
                    0 <= index < names.len() && #[trigger] outcome.found[index]
                        && !found[index] implies exists|i: int|
                    0 <= i < outcome.rows.len() && (#[trigger] outcome.rows[i]).name
                        == names[index] by {
                    if index == request.index {
                        assert(outcome.rows[0].name == names[index]);
                    } else {
                        assert(after.found[index] && !marked[index]);
                        let i = choose|i: int|
                            0 <= i < after.rows.len() && (#[trigger] after.rows[i]).name
                                == names[index];
                        assert(outcome.rows[i + 1] == after.rows[i]);
                    }
                }
            }
        }
    }
}

/// No wanted symbol is passed by: where a run takes the first data symbol of
/// a name that is requested and not found before, it emits a row for that
/// name, unless it fails on that very symbol.
pub proof fn lemma_first_symbol_is_answered(
    image: Seq<u8>,
    names: Seq<Seq<char>>,
    sections: Seq<SectionHeader>,
    found: Seq<bool>,
    stream: Seq<Pull>,
    at: int,
    symbol: SymbolModel,
)
    requires
        found.len() == names.len(),
        0 <= at < run(image, names, sections, found, stream).consumed,
        at < stream.len(),
        stream[at] == Pull::Data(symbol),
        first_named(stream, symbol.name) == at,
        unfound(names, found, symbol.name),
    ensures
        ({
            let outcome = run(image, names, sections, found, stream);
            ||| exists|i: int|
                0 <= i < outcome.rows.len() && (#[trigger] outcome.rows[i]).name == symbol.name
            ||| outcome.consumed == at + 1 && outcome.ending is Failed
        }),
    decreases stream.len(),
{
    lemma_scan_reads(names, sections, found, stream);
    lemma_first_named(stream, symbol.name);
    names.index_of_first_ensures(symbol.name);
    let scanned = scan(names, sections, found, stream);
    let outcome = run(image, names, sections, found, stream);
    if scanned.halt is Exhausted {
        assert(passed_over(names, sections, found, stream[at]));
    } else if at < scanned.consumed - 1 {
        assert(passed_over(names, sections, found, stream[at]));
    } else if at == scanned.consumed - 1 {
        assert(halts_on(names, sections, found, stream[at], scanned.halt));
        if let Halt::Request(request) = scanned.halt {
            if string_at(image, request.offset as int) is Some {
                assert(outcome.rows[0].name == symbol.name);
            }
        }
    } else {
        let request = scanned.halt->Request_0;
        names.index_of_first_ensures(request.name);
        assert(halts_on(
            names,
            sections,
            found,
            stream[scanned.consumed - 1],
            scanned.halt,
        ));
        assert(is_named(stream[scanned.consumed - 1], request.name));
        let marked = found.update(request.index as int, true);
        let rest = stream.skip(scanned.consumed as int);
        let after = run(image, names, sections, marked, rest);
        let behind = at - scanned.consumed;
        assert(rest[behind] == stream[at]);
        assert forall|m: int| 0 <= m < behind implies !is_named(
            #[trigger] rest[m],
            symbol.name,
        ) by {
            assert(rest[m] == stream[m + scanned.consumed]);
        }
        lemma_first_named_is(rest, symbol.name, behind);
        lemma_first_symbol_is_answered(image, names, sections, marked, rest, behind, symbol);
        if exists|i: int|
            0 <= i < after.rows.len() && (#[trigger] after.rows[i]).name == symbol.name {
            let i = choose|i: int|
                0 <= i < after.rows.len() && (#[trigger] after.rows[i]).name == symbol.name;
            assert(outcome.rows[i + 1] == after.rows[i]);
        }
    }
}

/// The value of a row is the text of the terminated run at its offset: where
/// the image holds `bytes`, free of zero bytes, at the offset of a row and a
/// zero byte behind them, `bytes` are UTF-8 and the row's value is the text
/// that they encode.
pub proof fn lemma_rows_hold_their_strings(
    image: Seq<u8>,
    names: Seq<Seq<char>>,
    sections: Seq<SectionHeader>,
    found: Seq<bool>,
    stream: Seq<Pull>,
    i: int,
    bytes: Seq<u8>,
)
    requires
        found.len() == names.len(),
        0 <= i < run(image, names, sections, found, stream).rows.len(),
        ({
            let offset = run(image, names, sections, found, stream).rows[i].offset as int;
            &&& offset + bytes.len() < image.len()
            &&& image.subrange(offset, offset + bytes.len()) == bytes
            &&& image[offset + bytes.len()] == 0
        }),
        forall|k: int| 0 <= k < bytes.len() ==> bytes[k] != 0,
    ensures
        valid_utf8(bytes),
        run(image, names, sections, found, stream).rows[i].value == decode_utf8(bytes),
{
    let row = run(image, names, sections, found, stream).rows[i];
    lemma_first_symbol_wins(image, names, sections, found, stream);
    assert(row_of_first(image, sections, stream, row));
    lemma_terminated_run(image, row.offset as int, bytes);
}

/// Whether no data symbol of `stream` bears one of `names`.
pub open spec fn none_wanted(names: Seq<Seq<char>>, stream: Seq<Pull>) -> bool {
    forall|k: int|
        0 <= k < stream.len() ==> match #[trigger] stream[k] {
            Pull::Data(symbol) => !names.contains(symbol.name),
            _ => true,
        }
}

/// Where no data symbol bears a requested name, a run emits no row, so that
/// its output is the header line alone, and it sets no flag. It fails only
/// where the last record it took is broken, which is then a failure of the
/// database.
pub proof fn lemma_nothing_wanted(
    image: Seq<u8>,
    names: Seq<Seq<char>>,
    sections: Seq<SectionHeader>,
    found: Seq<bool>,
    stream: Seq<Pull>,
)
    requires
        found.len() == names.len(),
        none_wanted(names, stream),
    ensures
        ({
            let outcome = run(image, names, sections, found, stream);
            &&& outcome.rows == Seq::<RowModel>::empty()
            &&& output_text(outcome.rows) == seq![header_text()]
            &&& outcome.found == found
            &&& outcome.ending is Failed ==> outcome.ending == Ending::Failed(Failure::Database)
            &&& outcome.ending is Failed <==> outcome.consumed > 0 && stream[outcome.consumed
                - 1] is Broken
        }),
{
    lemma_scan_reads(names, sections, found, stream);
    let scanned = scan(names, sections, found, stream);
    let outcome = run(image, names, sections, found, stream);
    if !(scanned.halt is Exhausted) {
        let last = stream[scanned.consumed - 1];
        assert(halts_on(names, sections, found, last, scanned.halt));
        if let Pull::Data(symbol) = last {
            names.index_of_first_ensures(symbol.name);
        }
    } else if stream.len() > 0 {
        assert(passed_over(names, sections, found, stream[stream.len() - 1]));
    }
    assert(output_text(Seq::<RowModel>::empty()) =~= seq![header_text()]);
}

/// A run is a function of what it is given: two runs over the same image,
/// names, sections, flags and stream emit the same rows in the same order,
/// write the same lines, and end in the same way.
pub proof fn lemma_run_repeats(
    image: Seq<u8>,
    names: Seq<Seq<char>>,
    sections: Seq<SectionHeader>,
    found: Seq<bool>,
    stream: Seq<Pull>,
    image_again: Seq<u8>,
    names_again: Seq<Seq<char>>,
    sections_again: Seq<SectionHeader>,
    found_again: Seq<bool>,
    stream_again: Seq<Pull>,
)
    requires
        image =~= image_again,
        names =~~= names_again,
        sections =~= sections_again,
        found =~= found_again,
        stream =~~= stream_again,
    ensures
        run(image, names, sections, found, stream) == run(
            image_again,
            names_again,
            sections_again,
            found_again,
            stream_again,
        ),
        output_text(run(image, names, sections, found, stream).rows) == output_text(
            run(image_again, names_again, sections_again, found_again, stream_again).rows,
        ),
{
}

/// A run over a database is a function of the image, the bytes of the
/// database and the names: two such runs over the same three come to the
/// same.
pub proof fn lemma_database_run_repeats(
    image: Seq<u8>,
    database: Seq<u8>,
    names: Seq<Seq<char>>,
    image_again: Seq<u8>,
    database_again: Seq<u8>,
    names_again: Seq<Seq<char>>,
)
    requires
        image =~= image_again,
        database =~= database_again,
        names =~~= names_again,
    ensures
        run_database(image, database, names) == run_database(
            image_again,
            database_again,
            names_again,
        ),
{
}

/// A run that leaves every name found, and did not start so, ended because
/// every name was found.
pub proof fn lemma_all_found_is_complete(
    image: Seq<u8>,
    names: Seq<Seq<char>>,
    sections: Seq<SectionHeader>,
    found: Seq<bool>,
    stream: Seq<Pull>,
)
    requires
        found.len() == names.len(),
        !all_found(found),
        all_found(run(image, names, sections, found, stream).found),
    ensures
        run(image, names, sections, found, stream).ending is Complete,
    decreases stream.len(),
{
    lemma_scan_reads(names, sections, found, stream);
    let scanned = scan(names, sections, found, stream);
    if let Halt::Request(request) = scanned.halt {
        names.index_of_first_ensures(request.name);
        if let Some(value) = string_at(image, request.offset as int) {
            let marked = found.update(request.index as int, true);
            if !all_found(marked) {
                lemma_all_found_is_complete(
                    image,
                    names,
                    sections,
                    marked,
                    stream.skip(scanned.consumed as int),
                );
            }
        }
    }
}

/// Once every requested name is found, no further record is taken: a run
/// that ends because every name is found took only records of the stream's
/// front, and is the same whatever follows them.
pub proof fn lemma_short_circuit(
    image: Seq<u8>,
    names: Seq<Seq<char>>,
    sections: Seq<SectionHeader>,
    found: Seq<bool>,
    stream: Seq<Pull>,
    further: Seq<Pull>,
)
    requires
        found.len() == names.len(),
        run(image, names, sections, found, stream).ending is Complete,
    ensures
        all_found(run(image, names, sections, found, stream).found),
        run(image, names, sections, found, stream).consumed <= stream.len(),
        run(
            image,
            names,
            sections,
            found,
            stream.take(run(image, names, sections, found, stream).consumed as int) + further,
        ) == run(image, names, sections, found, stream),
{
    lemma_run_bounds(image, names, sections, found, stream);
    lemma_run_prefix(image, names, sections, found, stream, further);
}

/// A wanted symbol whose section index is zero or past the end of the table
/// aborts the run: where a fresh run gets as far as the first data symbol of
/// a requested name, and that symbol has no absolute offset, the run fails on
/// it with the rows it had emitted before, and takes no further record.
pub proof fn lemma_bad_section_aborts(
    image: Seq<u8>,
    names: Seq<Seq<char>>,
    sections: Seq<SectionHeader>,
    stream: Seq<Pull>,
    at: int,
    symbol: SymbolModel,
)
    requires
        0 <= at < stream.len(),
        stream[at] == Pull::Data(symbol),
        names.contains(symbol.name),
        first_named(stream, symbol.name) == at,
        absolute_offset(sections, symbol) is None,
        run(image, names, sections, none_found(names.len()), stream.take(at)).ending is Exhausted,
    ensures
        ({
            let before = run(image, names, sections, none_found(names.len()), stream.take(at));
            let outcome = run(image, names, sections, none_found(names.len()), stream);
            &&& outcome.rows == before.rows
            &&& outcome.ending == Ending::Failed(
                Failure::BadSection { section: symbol.section, sections: sections.len() },
            )
            &&& outcome.consumed == at + 1
        }),
{
    let fresh = none_found(names.len());
    let front = stream.take(at);
    let back = stream.skip(at);
    let before = run(image, names, sections, fresh, front);
    assert(stream =~= front + back);
    lemma_run_append(image, names, sections, fresh, front, back);
    lemma_run_bounds(image, names, sections, fresh, front);
    lemma_first_symbol_wins(image, names, sections, fresh, front);
    lemma_first_named(stream, symbol.name);
    names.index_of_first_ensures(symbol.name);
    let index = names.index_of_first(symbol.name).unwrap();
    if before.found[index] {
        let i = choose|i: int|
            0 <= i < before.rows.len() && (#[trigger] before.rows[i]).name == names[index];
        let earlier = first_named(front, symbol.name);
        lemma_first_named(front, symbol.name);
        assert(row_of_first(image, sections, front, before.rows[i]));
        assert(is_named(front[earlier], symbol.name));
        assert(front[earlier] == stream[earlier]);
        assert(false);
    }
    assert(back[0] == stream[at]);
    assert(verdict(names, sections, before.found, symbol) == Verdict::Reject(
        Failure::BadSection { section: symbol.section, sections: sections.len() },
    ));
    let behind = run(image, names, sections, before.found, back);
    assert(behind.rows =~= Seq::<RowModel>::empty());
    assert(before.rows + behind.rows =~= before.rows);
}

} // verus!
