//! Global data symbols, section headers, and the sources that yield symbol
//! records one at a time.

use vstd::prelude::*;

verus! {

/// One entry of the section header table: the offset in the image file at
/// which the section's raw bytes begin.
#[derive(Clone, Copy, Debug, PartialEq, Eq, Structural)]
pub struct SectionHeader {
    pub pointer_to_raw_data: u32,
}

/// A global data symbol: its name, the one-based index of its section, and
/// its offset within that section.
#[derive(Clone, Debug, PartialEq, Eq)]
pub struct DataSymbol {
    pub name: String,
    pub section: u16,
    pub offset: u32,
}

/// What a `DataSymbol` stands for in contracts.
pub struct SymbolModel {
    pub name: Seq<char>,
    pub section: u16,
    pub offset: u32,
}

impl View for DataSymbol {
    type V = SymbolModel;

    open spec fn view(&self) -> SymbolModel {
        SymbolModel { name: self.name@, section: self.section, offset: self.offset }
    }
}

/// What one pull on a symbol source yields: a data symbol, a record of
/// another kind, or a record that the database could not read, with the
/// database's words about it.
#[derive(Clone, Debug, PartialEq, Eq)]
pub enum Record {
    Data(DataSymbol),
    Other,
    Broken(String),
}

/// What a `Record` stands for in contracts. The words that come with a
/// broken record are not part of it.
pub enum Pull {
    Data(SymbolModel),
    Other,
    Broken,
}

impl View for Record {
    type V = Pull;

    open spec fn view(&self) -> Pull {
        match self {
            Record::Data(symbol) => Pull::Data(symbol@),
            Record::Other => Pull::Other,
            Record::Broken(_) => Pull::Broken,
        }
    }
}

/// The pulls that a sequence of records stands for, in the same order.
pub open spec fn pulls(records: Seq<Record>) -> Seq<Pull> {
    Seq::new(records.len(), |i: int| records[i]@)
}

/// A forward-only, single-pass source of symbol records.
pub trait SymbolSource {
    /// The records that the source has yet to yield, in order.
    spec fn pending(&self) -> Seq<Pull>;

    /// Yields the next record, or `None` once the source is exhausted. After
    /// a broken record nothing is promised about what remains.
    fn next_record(&mut self) -> (next: Option<Record>)
        ensures
            match next {
                None => old(self).pending().len() == 0 && final(self).pending().len() == 0,
                Some(record) => {
                    &&& old(self).pending().len() > 0
                    &&& record@ == old(self).pending()[0]
                    &&& !(record is Broken) ==> final(self).pending() == old(self).pending().skip(1)
                },
            },
    ;
}

/// A symbol source over records held in memory.
pub struct RecordList {
    records: Vec<Record>,
    taken: usize,
}

/// Whether two records stand for the same pull and, where they are broken,
/// come with the same words.
pub open spec fn same_record(one: Record, other: Record) -> bool {
    &&& one@ == other@
    &&& one matches Record::Broken(words) ==> other matches Record::Broken(given) && words@
        == given@
}

fn copy_record(record: &Record) -> (copy: Record)
    ensures
        same_record(copy, *record),
{
    match record {
        Record::Data(symbol) => Record::Data(
            DataSymbol {
                name: symbol.name.clone(),
                section: symbol.section,
                offset: symbol.offset,
            },
        ),
        Record::Other => Record::Other,
        Record::Broken(words) => Record::Broken(words.clone()),
    }
}

impl RecordList {
    #[verifier::type_invariant]
    spec fn sound(self) -> bool {
        self.taken <= self.records.len()
    }

    /// The records that the list was made of.
    pub closed spec fn records(&self) -> Seq<Record> {
        self.records@
    }

    /// How many records were taken from the list so far.
    pub closed spec fn taken(&self) -> nat {
        self.taken as nat
    }

    /// A source that yields `records` in order.
    pub fn new(records: Vec<Record>) -> (list: RecordList)
        ensures
            list.records() == records@,
            list.taken() == 0,
            list.pending() == pulls(records@),
    {
        let list = RecordList { records, taken: 0 };
        assert(list.pending() =~= pulls(list.records@));
        list
    }

    /// The number of records that were taken from the list so far.
    pub fn position(&self) -> (taken: usize)
        ensures
            taken == self.taken(),
            taken <= self.records().len(),
            self.pending() == pulls(self.records()).skip(taken as int),
    {
        proof {
            use_type_invariant(self);
        }
        self.taken
    }
}

impl SymbolSource for RecordList {
    closed spec fn pending(&self) -> Seq<Pull> {
        pulls(self.records@).skip(self.taken as int)
    }

    /// Yields a copy of the next record of the list, broken or not, and
    /// steps past it.
    fn next_record(&mut self) -> (next: Option<Record>)
        ensures
            final(self).records() == old(self).records(),
            match next {
                None => final(self).taken() == old(self).taken(),
                Some(record) => {
                    &&& old(self).taken() < old(self).records().len()
                    &&& same_record(record, old(self).records()[old(self).taken() as int])
                    &&& final(self).taken() == old(self).taken() + 1
                    &&& final(self).pending() == old(self).pending().skip(1)
                },
            },
    {
        proof {
            use_type_invariant(&*self);
        }
        if self.taken < self.records.len() {
            let record = copy_record(&self.records[self.taken]);
            self.taken = self.taken + 1;
            assert(final(self).pending() =~= old(self).pending().skip(1));
            Some(record)
        } else {
            None
        }
    }
}

} // verus!
