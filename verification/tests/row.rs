use pdb_strings::row::{decimal_string, header_line, hex_string, ResultRow};

#[test]
fn hex_is_lower_case_without_prefix_or_padding() {
    assert_eq!(hex_string(0), "0");
    assert_eq!(hex_string(9), "9");
    assert_eq!(hex_string(10), "a");
    assert_eq!(hex_string(15), "f");
    assert_eq!(hex_string(16), "10");
    assert_eq!(hex_string(0x410), "410");
    assert_eq!(hex_string(0x4fa0), "4fa0");
    assert_eq!(hex_string(0xdead_beef), "deadbeef");
    assert_eq!(hex_string(0x1_ffff_fffe), "1fffffffe");
    assert_eq!(hex_string(u64::MAX), "ffffffffffffffff");
}

#[test]
fn hex_agrees_with_the_formatter() {
    let mut value: u64 = 1;
    while value < u64::MAX / 7 {
        assert_eq!(hex_string(value), format!("{:x}", value));
        assert_eq!(hex_string(value - 1), format!("{:x}", value - 1));
        value = value * 7 + 3;
    }
}

#[test]
fn header_names_the_three_columns() {
    assert_eq!(header_line(), "file_offset,name,value");
}

#[test]
fn row_line_is_offset_name_and_value() {
    let row = ResultRow {
        offset: 0x4fa0,
        name: "g_version".to_string(),
        value: "1.2.3".to_string(),
    };
    assert_eq!(row.line(), "4fa0,g_version,1.2.3");
}

#[test]
fn row_line_keeps_empty_and_odd_values() {
    let row = ResultRow { offset: 0, name: "n".to_string(), value: String::new() };
    assert_eq!(row.line(), "0,n,");
    let row = ResultRow { offset: 255, name: "a,b".to_string(), value: "x, y".to_string() };
    assert_eq!(row.line(), "ff,a,b,x, y");
}

#[test]
fn decimal_is_written_without_padding() {
    assert_eq!(decimal_string(0), "0");
    assert_eq!(decimal_string(7), "7");
    assert_eq!(decimal_string(10), "10");
    assert_eq!(decimal_string(65535), "65535");
    assert_eq!(decimal_string(1_000_000), "1000000");
    assert_eq!(decimal_string(u64::MAX), "18446744073709551615");
}
