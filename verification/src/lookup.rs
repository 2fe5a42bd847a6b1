//! The lookup state machine: which symbols are wanted, what each pulled
//! record asks for, and what becomes of the bytes that were read for it.

use vstd::prelude::*;
use vstd::utf8::{decode_utf8, valid_utf8};
use crate::error::{Failure, LookupError};
use crate::image::decode_text;
use crate::row::{ResultRow, RowModel};
use crate::symbol::{DataSymbol, Pull, Record, SectionHeader, SymbolModel, SymbolSource};

verus! {

/// A read that the run asks for: the bytes of the null-terminated string at
/// `offset` in the image file, wanted for the requested name at `index`,
/// which the symbol called `name` matched.
#[derive(Clone, Debug, PartialEq, Eq)]
pub struct Request {
    pub index: usize,
    pub offset: u64,
    pub name: String,
}

/// What a `Request` stands for in contracts.
pub struct RequestModel {
    pub index: nat,
    pub offset: nat,
    pub name: Seq<char>,
}

impl View for Request {
    type V = RequestModel;

    open spec fn view(&self) -> RequestModel {
        RequestModel { index: self.index as nat, offset: self.offset as nat, name: self.name@ }
    }
}

/// What one data symbol asks of the run.
#[derive(Clone, Debug, PartialEq, Eq)]
pub enum Decision {
    /// The symbol is not wanted, or its name was found before.
    Ignore,
    /// The symbol is wanted but cannot be placed in the image.
    Reject(LookupError),
    /// The symbol is wanted, and its string is to be read.
    Read(Request),
}

/// What a `Decision` stands for in contracts.
pub enum Verdict {
    Ignore,
    Reject(Failure),
    Read(RequestModel),
}

impl View for Decision {
    type V = Verdict;

    open spec fn view(&self) -> Verdict {
        match self {
            Decision::Ignore => Verdict::Ignore,
            Decision::Reject(error) => Verdict::Reject(error@),
            Decision::Read(request) => Verdict::Read(request@),
        }
    }
}

/// Where a run stands.
#[derive(Clone, Debug, PartialEq, Eq)]
pub enum Phase {
    /// Records are being pulled.
    Scanning,
    /// A read was asked for, and its bytes are awaited.
    Awaiting(Request),
    /// The run is over.
    Done,
}

/// What a `Phase` stands for in contracts.
pub enum PhaseModel {
    Scanning,
    Awaiting(RequestModel),
    Done,
}

impl View for Phase {
    type V = PhaseModel;

    open spec fn view(&self) -> PhaseModel {
        match self {
            Phase::Scanning => PhaseModel::Scanning,
            Phase::Awaiting(request) => PhaseModel::Awaiting(request@),
            Phase::Done => PhaseModel::Done,
        }
    }
}

/// The texts of a sequence of strings, in the same order.
pub open spec fn texts(strings: Seq<String>) -> Seq<Seq<char>> {
    Seq::new(strings.len(), |i: int| strings[i]@)
}

/// Flags for `count` names, none of them found.
pub open spec fn none_found(count: nat) -> Seq<bool> {
    Seq::new(count, |i: int| false)
}

/// Whether every flag is set.
pub open spec fn all_found(found: Seq<bool>) -> bool {
    forall|i: int| 0 <= i < found.len() ==> found[i]
}

/// The offset in the image file at which the data of `symbol` starts: the
/// raw offset of its section plus its offset in the section. The section
/// index counts from one; there is no such place where it is zero or past the
/// end of the table.
pub open spec fn absolute_offset(sections: Seq<SectionHeader>, symbol: SymbolModel) -> Option<nat> {
    if 1 <= symbol.section <= sections.len() {
        Some((sections[symbol.section - 1].pointer_to_raw_data + symbol.offset) as nat)
    } else {
        None
    }
}

/// What the data symbol `symbol` asks of a run that wants `names`, has
/// `found` some of them, and places symbols by `sections`.
///
/// The symbol counts for the first requested name that equals its own. Where
/// there is none, or that name was found before, it is ignored. Otherwise
/// its string is to be read at its absolute offset, and it is rejected where
/// it has none.
pub open spec fn verdict(
    names: Seq<Seq<char>>,
    sections: Seq<SectionHeader>,
    found: Seq<bool>,
    symbol: SymbolModel,
) -> Verdict {
    match names.index_of_first(symbol.name) {
        None => Verdict::Ignore,
        Some(index) => {
            if found[index] {
                Verdict::Ignore
            } else {
                match absolute_offset(sections, symbol) {
                    None => Verdict::Reject(
                        Failure::BadSection { section: symbol.section, sections: sections.len() },
                    ),
                    Some(offset) => Verdict::Read(
                        RequestModel { index: index as nat, offset, name: symbol.name },
                    ),
                }
            }
        },
    }
}

/// Why a scan came to a halt.
pub enum Halt {
    /// The stream has no more records.
    Exhausted,
    /// Every requested name is found.
    Complete,
    /// A wanted symbol was met, and its string is to be read.
    Request(RequestModel),
    /// The run cannot go on.
    Failed(Failure),
}

/// How a scan went: how many records it took from the stream, and why it
/// stopped there.
pub struct Scan {
    pub consumed: nat,
    pub halt: Halt,
}

/// Scans `stream` up to the first record that brings the scan to a halt.
///
/// A broken record fails the scan. Records that are not data symbols are
/// passed over. A data symbol is judged by `verdict`: a wanted one halts the
/// scan with a request or a failure; after an ignored one the scan is
/// complete when every name is found, and goes on otherwise.
pub open spec fn scan(
    names: Seq<Seq<char>>,
    sections: Seq<SectionHeader>,
    found: Seq<bool>,
    stream: Seq<Pull>,
) -> Scan
    decreases stream.len(),
{
    if stream.len() == 0 {
        Scan { consumed: 0, halt: Halt::Exhausted }
    } else {
        let rest = scan(names, sections, found, stream.skip(1));
        let onward = Scan { consumed: rest.consumed + 1, halt: rest.halt };
        match stream[0] {
            Pull::Broken => Scan { consumed: 1, halt: Halt::Failed(Failure::Database) },
            Pull::Other => onward,
            Pull::Data(symbol) => match verdict(names, sections, found, symbol) {
                Verdict::Reject(failure) => Scan { consumed: 1, halt: Halt::Failed(failure) },
                Verdict::Read(request) => Scan { consumed: 1, halt: Halt::Request(request) },
                Verdict::Ignore => if all_found(found) {
                    Scan { consumed: 1, halt: Halt::Complete }
                } else {
                    onward
                },
            },
        }
    }
}

/// A scan takes no more records than the stream holds: all of them where
/// the stream runs out, and at least one where it halts for another reason.
pub proof fn lemma_scan_bounds(
    names: Seq<Seq<char>>,
    sections: Seq<SectionHeader>,
    found: Seq<bool>,
    stream: Seq<Pull>,
)
    ensures
        scan(names, sections, found, stream).consumed <= stream.len(),
        scan(names, sections, found, stream).halt is Exhausted ==> scan(
            names,
            sections,
            found,
            stream,
        ).consumed == stream.len(),
        !(scan(names, sections, found, stream).halt is Exhausted) ==> scan(
            names,
            sections,
            found,
            stream,
        ).consumed >= 1,
    decreases stream.len(),
{
    if stream.len() > 0 {
        lemma_scan_bounds(names, sections, found, stream.skip(1));
    }
}

/// Whether a scan passes over `pull` and goes on: it is no data symbol, or
/// it is an ignored one while some name is still to be found.
pub open spec fn passed_over(
    names: Seq<Seq<char>>,
    sections: Seq<SectionHeader>,
    found: Seq<bool>,
    pull: Pull,
) -> bool {
    match pull {
        Pull::Broken => false,
        Pull::Other => true,
        Pull::Data(symbol) => verdict(names, sections, found, symbol) == Verdict::Ignore
            && !all_found(found),
    }
}

/// Whether a scan halts on `pull`, and for the reason `halt`.
pub open spec fn halts_on(
    names: Seq<Seq<char>>,
    sections: Seq<SectionHeader>,
    found: Seq<bool>,
    pull: Pull,
    halt: Halt,
) -> bool {
    match pull {
        Pull::Broken => halt == Halt::Failed(Failure::Database),
        Pull::Other => false,
        Pull::Data(symbol) => match verdict(names, sections, found, symbol) {
            Verdict::Ignore => all_found(found) && halt == Halt::Complete,
            Verdict::Reject(failure) => halt == Halt::Failed(failure),
            Verdict::Read(request) => halt == Halt::Request(request),
        },
    }
}

/// A scan passes over every record before the one it halts on, and over
/// every record where the stream runs out.
pub proof fn lemma_scan_reads(
    names: Seq<Seq<char>>,
    sections: Seq<SectionHeader>,
    found: Seq<bool>,
    stream: Seq<Pull>,
)
    ensures
        ({
            let scanned = scan(names, sections, found, stream);
            if scanned.halt is Exhausted {
                &&& scanned.consumed == stream.len()
                &&& forall|m: int|
                    0 <= m < stream.len() ==> passed_over(
                        names,
                        sections,
                        found,
                        #[trigger] stream[m],
                    )
            } else {
                &&& 1 <= scanned.consumed <= stream.len()
                &&& forall|m: int|
                    0 <= m < scanned.consumed - 1 ==> passed_over(
                        names,
                        sections,
                        found,
                        #[trigger] stream[m],
                    )
                &&& halts_on(names, sections, found, stream[scanned.consumed - 1], scanned.halt)
            }
        }),
    decreases stream.len(),
{
    if stream.len() > 0 {
        let rest = stream.skip(1);
        lemma_scan_reads(names, sections, found, rest);
        let scanned = scan(names, sections, found, stream);
        let after = scan(names, sections, found, rest);
        if passed_over(names, sections, found, stream[0]) {
            assert(scanned.consumed == after.consumed + 1);
            assert(scanned.halt == after.halt);
            if scanned.halt is Exhausted {
                assert forall|m: int| 0 <= m < stream.len() implies passed_over(
                    names,
                    sections,
                    found,
                    #[trigger] stream[m],
                ) by {
                    if m > 0 {
                        assert(stream[m] == rest[m - 1]);
                    }
                }
            } else {
                assert forall|m: int| 0 <= m < scanned.consumed - 1 implies passed_over(
                    names,
                    sections,
                    found,
                    #[trigger] stream[m],
                ) by {
                    if m > 0 {
                        assert(stream[m] == rest[m - 1]);
                    }
                }
                assert(stream[scanned.consumed - 1] == rest[after.consumed - 1]);
            }
        }
    }
}

/// A scan that halts before the stream runs out does not depend on the
/// records that follow the one it halts on.
pub proof fn lemma_scan_prefix(
    names: Seq<Seq<char>>,
    sections: Seq<SectionHeader>,
    found: Seq<bool>,
    stream: Seq<Pull>,
    further: Seq<Pull>,
)
    requires
        !(scan(names, sections, found, stream).halt is Exhausted),
    ensures
        scan(names, sections, found, stream).consumed <= stream.len(),
        scan(
            names,
            sections,
            found,
            stream.take(scan(names, sections, found, stream).consumed as int) + further,
        ) == scan(names, sections, found, stream),
    decreases stream.len(),
{
    lemma_scan_bounds(names, sections, found, stream);
    let scanned = scan(names, sections, found, stream);
    let other = stream.take(scanned.consumed as int) + further;
    assert(other[0] == stream[0]);
    if passed_over(names, sections, found, stream[0]) {
        let rest = stream.skip(1);
        let after = scan(names, sections, found, rest);
        lemma_scan_prefix(names, sections, found, rest, further);
        assert(other.skip(1) =~= rest.take(after.consumed as int) + further);
    }
}

/// A scan that runs out of records goes on, as if from its start, with what
/// is put behind them.
pub proof fn lemma_scan_append(
    names: Seq<Seq<char>>,
    sections: Seq<SectionHeader>,
    found: Seq<bool>,
    stream: Seq<Pull>,
    further: Seq<Pull>,
)
    requires
        scan(names, sections, found, stream).halt is Exhausted,
    ensures
        scan(names, sections, found, stream + further).halt == scan(
            names,
            sections,
            found,
            further,
        ).halt,
        scan(names, sections, found, stream + further).consumed == stream.len() + scan(
            names,
            sections,
            found,
            further,
        ).consumed,
    decreases stream.len(),
{
    if stream.len() == 0 {
        assert(stream + further =~= further);
    } else {
        let whole = stream + further;
        assert(whole[0] == stream[0]);
        assert(whole.skip(1) =~= stream.skip(1) + further);
        lemma_scan_append(names, sections, found, stream.skip(1), further);
    }
}

/// What a `Lookup` stands for in contracts: the requested names, the section
/// header table, one flag for each name that says whether it was found, and
/// the phase of the run.
pub struct LookupModel {
    pub names: Seq<Seq<char>>,
    pub sections: Seq<SectionHeader>,
    pub found: Seq<bool>,
    pub phase: PhaseModel,
}

impl LookupModel {
    /// There is one flag for each name; a read that is awaited is for a name
    /// that is not found yet, and the symbol that asked for it bears that
    /// name.
    pub open spec fn well_formed(self) -> bool {
        &&& self.found.len() == self.names.len()
        &&& self.phase matches PhaseModel::Awaiting(request) ==> {
            &&& request.index < self.names.len()
            &&& !self.found[request.index as int]
            &&& self.names[request.index as int] == request.name
        }
    }
}

/// The state of one lookup run.
pub struct Lookup {
    names: Vec<String>,
    sections: Vec<SectionHeader>,
    found: Vec<bool>,
    phase: Phase,
}

impl View for Lookup {
    type V = LookupModel;

    closed spec fn view(&self) -> LookupModel {
        LookupModel {
            names: texts(self.names@),
            sections: self.sections@,
            found: self.found@,
            phase: self.phase@,
        }
    }
}

fn copy_request(request: &Request) -> (copy: Request)
    ensures
        copy@ == request@,
{
    Request { index: request.index, offset: request.offset, name: request.name.clone() }
}

impl Lookup {
    #[verifier::type_invariant]
    spec fn sound(self) -> bool {
        self@.well_formed()
    }

    /// A run that wants `names`, has found none of them, and places symbols
    /// by `sections`.
    pub fn new(names: Vec<String>, sections: Vec<SectionHeader>) -> (lookup: Lookup)
        ensures
            lookup@ == (LookupModel {
                names: texts(names@),
                sections: sections@,
                found: none_found(names@.len()),
                phase: PhaseModel::Scanning,
            }),
    {
        let mut found: Vec<bool> = Vec::new();
        let mut i: usize = 0;
        while i < names.len()
            invariant
                i <= names.len(),
                found@ == none_found(i as nat),
            decreases names.len() - i,
        {
            found.push(false);
            i += 1;
            assert(found@ =~= none_found(i as nat));
        }
        assert(texts(names@).len() == names@.len());
        Lookup { names, sections, found, phase: Phase::Scanning }
    }

    /// The phase of the run.
    pub fn phase(&self) -> (phase: Phase)
        ensures
            phase@ == self@.phase,
    {
        match &self.phase {
            Phase::Scanning => Phase::Scanning,
            Phase::Awaiting(request) => Phase::Awaiting(copy_request(request)),
            Phase::Done => Phase::Done,
        }
    }

    /// Whether the requested name at `index` was found; `false` where there
    /// is no such name.
    pub fn is_found(&self, index: usize) -> (found: bool)
        ensures
            found == (index < self@.found.len() && self@.found[index as int]),
    {
        index < self.found.len() && self.found[index]
    }

    /// Whether every requested name was found.
    pub fn is_complete(&self) -> (complete: bool)
        ensures
            complete == all_found(self@.found),
    {
        let mut i: usize = 0;
        while i < self.found.len()
            invariant
                i <= self.found.len(),
                forall|j: int| 0 <= j < i ==> self.found@[j],
            decreases self.found.len() - i,
        {
            if !self.found[i] {
                return false;
            }
            i += 1;
        }
        true
    }

    /// The position of the first requested name that equals `name`.
    pub fn find(&self, name: &String) -> (index: Option<usize>)
        ensures
            match index {
                Some(i) => self@.names.index_of_first(name@) == Some(i as int),
                None => self@.names.index_of_first(name@) is None,
            },
    {
        let mut i: usize = 0;
        while i < self.names.len()
            invariant
                i <= self.names.len(),
                forall|j: int| 0 <= j < i ==> texts(self.names@)[j] != name@,
            decreases self.names.len() - i,
        {
            if self.names[i] == *name {
                proof {
                    texts(self.names@).index_of_first_ensures(name@);
                    assert(texts(self.names@)[i as int] == name@);
                }
                return Some(i);
            }
            i += 1;
        }
        proof {
            texts(self.names@).index_of_first_ensures(name@);
        }
        None
    }

    /// Judges one data symbol against the state of the run, which it leaves
    /// as it is.
    pub fn consider(&self, symbol: &DataSymbol) -> (decision: Decision)
        ensures
            decision@ == verdict(self@.names, self@.sections, self@.found, symbol@),
    {
        proof {
            use_type_invariant(self);
            texts(self.names@).index_of_first_ensures(symbol.name@);
        }
        match self.find(&symbol.name) {
            None => Decision::Ignore,
            Some(index) => {
                if self.found[index] {
                    Decision::Ignore
                } else if symbol.section == 0 || symbol.section as usize > self.sections.len() {
                    Decision::Reject(
                        LookupError::BadSection {
                            section: symbol.section,
                            sections: self.sections.len(),
                        },
                    )
                } else {
                    let base = self.sections[(symbol.section - 1) as usize].pointer_to_raw_data;
                    Decision::Read(
                        Request {
                            index,
                            offset: base as u64 + symbol.offset as u64,
                            name: symbol.name.clone(),
                        },
                    )
                }
            },
        }
    }

    /// Pulls records from `source` until one of them brings the scan to a
    /// halt, and says what the run needs next: `Some` request where the
    /// string of a wanted symbol is to be read, `None` where the run is
    /// over, an error where it cannot go on.
    ///
    /// While a read is awaited the same request is given again, and once the
    /// run is over `None` is; in both cases nothing is pulled.
    pub fn advance<S: SymbolSource>(&mut self, source: &mut S) -> (step: Result<
        Option<Request>,
        LookupError,
    >)
        ensures
            final(self)@.well_formed(),
            final(self)@.names == old(self)@.names,
            final(self)@.sections == old(self)@.sections,
            final(self)@.found == old(self)@.found,
            match old(self)@.phase {
                PhaseModel::Done => {
                    &&& step matches Ok(None)
                    &&& final(self)@.phase == PhaseModel::Done
                    &&& final(source).pending() == old(source).pending()
                },
                PhaseModel::Awaiting(request) => {
                    &&& step matches Ok(Some(again))
                    &&& again@ == request
                    &&& final(self)@.phase == PhaseModel::Awaiting(request)
                    &&& final(source).pending() == old(source).pending()
                },
                PhaseModel::Scanning => {
                    let scanned = scan(
                        old(self)@.names,
                        old(self)@.sections,
                        old(self)@.found,
                        old(source).pending(),
                    );
                    &&& scanned.halt != Halt::Failed(Failure::Database)
                        ==> final(source).pending() == old(source).pending().skip(
                        scanned.consumed as int,
                    )
                    &&& match scanned.halt {
                        Halt::Exhausted | Halt::Complete => {
                            &&& step matches Ok(None)
                            &&& final(self)@.phase == PhaseModel::Done
                        },
                        Halt::Request(request) => {
                            &&& step matches Ok(Some(asked))
                            &&& asked@ == request
                            &&& final(self)@.phase == PhaseModel::Awaiting(request)
                        },
                        Halt::Failed(failure) => {
                            &&& step matches Err(error)
                            &&& error@ == failure
                            &&& final(self)@.phase == PhaseModel::Done
                        },
                    }
                },
            },
    {
        proof {
            use_type_invariant(&*self);
        }
        match &self.phase {
            Phase::Done => {
                return Ok(None);
            },
            Phase::Awaiting(request) => {
                return Ok(Some(copy_request(request)));
            },
            Phase::Scanning => {},
        }
        let ghost start = source.pending();
        let ghost mut pulled: nat = 0;
        assert(start.skip(0) =~= start);
        loop
            invariant
                self@ == old(self)@,
                self@.phase == PhaseModel::Scanning,
                self@.well_formed(),
                start == old(source).pending(),
                pulled <= start.len(),
                source.pending() == start.skip(pulled as int),
                scan(self@.names, self@.sections, self@.found, start).halt == scan(
                    self@.names,
                    self@.sections,
                    self@.found,
                    source.pending(),
                ).halt,
                scan(self@.names, self@.sections, self@.found, start).consumed == scan(
                    self@.names,
                    self@.sections,
                    self@.found,
                    source.pending(),
                ).consumed + pulled,
            decreases source.pending().len(),
        {
            let ghost before = source.pending();
            match source.next_record() {
                None => {
                    self.phase = Phase::Done;
                    assert(start.skip(pulled as int) =~= start.skip(start.len() as int));
                    return Ok(None);
                },
                Some(record) => {
                    match record {
                        Record::Broken(words) => {
                            self.phase = Phase::Done;
                            return Err(LookupError::Database(words));
                        },
                        Record::Other => {},
                        Record::Data(symbol) => {
                            match self.consider(&symbol) {
                                Decision::Reject(error) => {
                                    self.phase = Phase::Done;
                                    assert(before.skip(1) =~= start.skip(pulled as int + 1));
                                    return Err(error);
                                },
                                Decision::Read(request) => {
                                    proof {
                                        self@.names.index_of_first_ensures(symbol@.name);
                                    }
                                    self.phase = Phase::Awaiting(copy_request(&request));
                                    assert(before.skip(1) =~= start.skip(pulled as int + 1));
                                    return Ok(Some(request));
                                },
                                Decision::Ignore => {
                                    if self.is_complete() {
                                        self.phase = Phase::Done;
                                        assert(before.skip(1) =~= start.skip(pulled as int + 1));
                                        return Ok(None);
                                    }
                                },
                            }
                        },
                    }
                    proof {
                        assert(before.skip(1) =~= start.skip(pulled as int + 1));
                        pulled = pulled + 1;
                    }
                },
            }
        }
    }

    /// Takes the bytes that were read for the awaited request: the run of
    /// bytes at the request's offset, without its terminator.
    ///
    /// Where the bytes are UTF-8, the requested name is marked as found, the
    /// row for it is given, and the run is over if every name is found now;
    /// it goes back to scanning otherwise. Where they are not, the run is
    /// over and nothing is marked. Where no read is awaited, nothing changes
    /// and no row is given.
    pub fn fulfil(&mut self, bytes: &[u8]) -> (outcome: Result<Option<ResultRow>, LookupError>)
        ensures
            final(self)@.well_formed(),
            final(self)@.names == old(self)@.names,
            final(self)@.sections == old(self)@.sections,
            match old(self)@.phase {
                PhaseModel::Awaiting(request) => {
                    if valid_utf8(bytes@) {
                        &&& outcome matches Ok(Some(row))
                        &&& row@ == (RowModel {
                            offset: request.offset,
                            name: request.name,
                            value: decode_utf8(bytes@),
                        })
                        &&& final(self)@.found == old(self)@.found.update(
                            request.index as int,
                            true,
                        )
                        &&& final(self)@.phase == if all_found(final(self)@.found) {
                            PhaseModel::Done
                        } else {
                            PhaseModel::Scanning
                        }
                    } else {
                        &&& outcome matches Err(error)
                        &&& error@ == (Failure::NotText { offset: request.offset })
                        &&& final(self)@.found == old(self)@.found
                        &&& final(self)@.phase == PhaseModel::Done
                    }
                },
                _ => {
                    &&& outcome matches Ok(None)
                    &&& final(self)@ == old(self)@
                },
            },
    {
        proof {
            use_type_invariant(&*self);
        }
        let request = match &self.phase {
            Phase::Awaiting(request) => copy_request(request),
            _ => {
                return Ok(None);
            },
        };
        match decode_text(bytes) {
            None => {
                self.phase = Phase::Done;
                Err(LookupError::NotText { offset: request.offset })
            },
            Some(value) => {
                self.phase = Phase::Scanning;
                self.found[request.index] = true;
                if self.is_complete() {
                    self.phase = Phase::Done;
                }
                Ok(Some(ResultRow { offset: request.offset, name: request.name, value }))
            },
        }
    }
}

} // verus!
