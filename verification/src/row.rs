//! Result rows and the lines they are written as.

use vstd::prelude::*;
use vstd::string::StringExecFns;

verus! {

/// One resolved symbol: the absolute offset in the image file at which its
/// string starts, the symbol's name, and the string found there.
#[derive(Clone, Debug, PartialEq, Eq)]
pub struct ResultRow {
    pub offset: u64,
    pub name: String,
    pub value: String,
}

/// What a `ResultRow` stands for in contracts.
pub struct RowModel {
    pub offset: nat,
    pub name: Seq<char>,
    pub value: Seq<char>,
}

impl View for ResultRow {
    type V = RowModel;

    open spec fn view(&self) -> RowModel {
        RowModel { offset: self.offset as nat, name: self.name@, value: self.value@ }
    }
}

/// The lower-case hexadecimal digit for a value below sixteen.
pub open spec fn hex_digit(value: int) -> char {
    if value == 0 {
        '0'
    } else if value == 1 {
        '1'
    } else if value == 2 {
        '2'
    } else if value == 3 {
        '3'
    } else if value == 4 {
        '4'
    } else if value == 5 {
        '5'
    } else if value == 6 {
        '6'
    } else if value == 7 {
        '7'
    } else if value == 8 {
        '8'
    } else if value == 9 {
        '9'
    } else if value == 10 {
        'a'
    } else if value == 11 {
        'b'
    } else if value == 12 {
        'c'
    } else if value == 13 {
        'd'
    } else if value == 14 {
        'e'
    } else {
        'f'
    }
}

/// The lower-case hexadecimal numeral of `value`, without prefix or leading
/// zeros; zero is written `0`.
pub open spec fn hex(value: nat) -> Seq<char>
    decreases value,
{
    if value < 16 {
        seq![hex_digit(value as int)]
    } else {
        hex(value / 16).push(hex_digit((value % 16) as int))
    }
}

/// The decimal numeral of `value`, without leading zeros; zero is written
/// `0`.
pub open spec fn decimal(value: nat) -> Seq<char>
    decreases value,
{
    if value < 10 {
        seq![hex_digit(value as int)]
    } else {
        decimal(value / 10).push(hex_digit((value % 10) as int))
    }
}

/// The header line that precedes the rows.
pub open spec fn header_text() -> Seq<char> {
    "file_offset,name,value"@
}

/// The line that a row is written as: offset in hexadecimal, name and value,
/// separated by commas.
pub open spec fn row_text(row: RowModel) -> Seq<char> {
    hex(row.offset) + seq![','] + row.name + seq![','] + row.value
}

/// The lines that a run writes: the header line, then one line for each row,
/// in the order of the rows.
pub open spec fn output_text(rows: Seq<RowModel>) -> Seq<Seq<char>> {
    seq![header_text()] + Seq::new(rows.len(), |i: int| row_text(rows[i]))
}

fn digit_str(value: u64) -> (digit: &'static str)
    requires
        value < 16,
    ensures
        digit@ == seq![hex_digit(value as int)],
{
    proof {
        reveal_strlit("0");
        reveal_strlit("1");
        reveal_strlit("2");
        reveal_strlit("3");
        reveal_strlit("4");
        reveal_strlit("5");
        reveal_strlit("6");
        reveal_strlit("7");
        reveal_strlit("8");
        reveal_strlit("9");
        reveal_strlit("a");
        reveal_strlit("b");
        reveal_strlit("c");
        reveal_strlit("d");
        reveal_strlit("e");
        reveal_strlit("f");
    }
    let digit = if value == 0 {
        "0"
    } else if value == 1 {
        "1"
    } else if value == 2 {
        "2"
    } else if value == 3 {
        "3"
    } else if value == 4 {
        "4"
    } else if value == 5 {
        "5"
    } else if value == 6 {
        "6"
    } else if value == 7 {
        "7"
    } else if value == 8 {
        "8"
    } else if value == 9 {
        "9"
    } else if value == 10 {
        "a"
    } else if value == 11 {
        "b"
    } else if value == 12 {
        "c"
    } else if value == 13 {
        "d"
    } else if value == 14 {
        "e"
    } else {
        "f"
    };
    assert(digit@ =~= seq![hex_digit(value as int)]);
    digit
}

/// Writes `value` as a lower-case hexadecimal numeral.
pub fn hex_string(value: u64) -> (numeral: String)
    ensures
        numeral@ == hex(value as nat),
    decreases value,
{
    if value < 16 {
        String::from_str(digit_str(value))
    } else {
        let mut numeral = hex_string(value / 16);
        numeral.append(digit_str(value % 16));
        assert(numeral@ =~= hex(value as nat));
        numeral
    }
}

/// Writes `value` as a decimal numeral.
pub fn decimal_string(value: u64) -> (numeral: String)
    ensures
        numeral@ == decimal(value as nat),
    decreases value,
{
    if value < 10 {
        String::from_str(digit_str(value))
    } else {
        let mut numeral = decimal_string(value / 10);
        numeral.append(digit_str(value % 10));
        assert(numeral@ =~= decimal(value as nat));
        numeral
    }
}

/// The header line that precedes the rows.
pub fn header_line() -> (line: String)
    ensures
        line@ == header_text(),
{
    String::from_str("file_offset,name,value")
}

impl ResultRow {
    /// The line that the row is written as.
    pub fn line(&self) -> (line: String)
        ensures
            line@ == row_text(self@),
    {
        proof {
            reveal_strlit(",");
        }
        let mut line = hex_string(self.offset);
        line.append(",");
        line.append(self.name.as_str());
        line.append(",");
        line.append(self.value.as_str());
        assert(line@ =~= row_text(self@));
        line
    }
}

} // verus!
