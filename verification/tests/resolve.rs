use pdb_strings::error::LookupError;
use pdb_strings::resolve::{resolve, Report};
use pdb_strings::row::ResultRow;
use pdb_strings::symbol::{DataSymbol, Record, RecordList, SectionHeader};

fn names(list: &[&str]) -> Vec<String> {
    list.iter().map(|name| name.to_string()).collect()
}

fn sections(list: &[u32]) -> Vec<SectionHeader> {
    list.iter().map(|offset| SectionHeader { pointer_to_raw_data: *offset }).collect()
}

fn data(name: &str, section: u16, offset: u32) -> Record {
    Record::Data(DataSymbol { name: name.to_string(), section, offset })
}

fn row(offset: u64, name: &str, value: &str) -> ResultRow {
    ResultRow { offset, name: name.to_string(), value: value.to_string() }
}

fn image_with(strings: &[(usize, &[u8])], length: usize) -> Vec<u8> {
    let mut image = vec![0x2eu8; length];
    for (offset, bytes) in strings {
        image[*offset..*offset + bytes.len()].copy_from_slice(bytes);
    }
    image
}

#[test]
fn build_tag_is_found_in_the_second_section() {
    let image = image_with(&[(0x410, b"BETA\0")], 0x800);
    let mut source = RecordList::new(vec![data("g_build", 2, 0x10)]);
    let report = resolve(&image, names(&["g_build"]), sections(&[0x200, 0x400]), &mut source);
    assert_eq!(report.failure, None);
    assert_eq!(report.rows, vec![row(0x410, "g_build", "BETA")]);
    assert_eq!(
        report.lines(),
        vec!["file_offset,name,value".to_string(), "410,g_build,BETA".to_string()]
    );
}

#[test]
fn version_string_is_written_as_in_the_format_example() {
    let image = image_with(&[(0x4fa0, b"1.2.3\0")], 0x5000);
    let mut source = RecordList::new(vec![Record::Other, data("g_version", 1, 0xfa0)]);
    let report = resolve(&image, names(&["g_version"]), sections(&[0x4000]), &mut source);
    assert_eq!(
        report.lines(),
        vec!["file_offset,name,value".to_string(), "4fa0,g_version,1.2.3".to_string()]
    );
    assert_eq!(report.failure, None);
}

#[test]
fn no_matching_symbol_gives_the_header_alone() {
    let image = image_with(&[(0x10, b"text\0")], 0x40);
    let mut source = RecordList::new(vec![
        data("alpha", 1, 0x10),
        Record::Other,
        data("beta", 7, 0x10),
        data("G_BUILD", 1, 0x10),
    ]);
    let report = resolve(&image, names(&["g_build", "gamma"]), sections(&[0]), &mut source);
    assert_eq!(report, Report { rows: Vec::new(), failure: None });
    assert_eq!(report.lines(), vec!["file_offset,name,value".to_string()]);
    assert_eq!(source.position(), 4);
}

#[test]
fn an_empty_stream_gives_the_header_alone() {
    let mut source = RecordList::new(Vec::new());
    let report = resolve(&[], names(&["g_build"]), Vec::new(), &mut source);
    assert_eq!(report, Report { rows: Vec::new(), failure: None });
    assert_eq!(report.lines(), vec!["file_offset,name,value".to_string()]);
}

#[test]
fn a_string_without_terminator_runs_to_the_end_of_the_image() {
    let mut image = vec![0u8; 0x20];
    image.extend_from_slice(b"unterminated");
    let mut source = RecordList::new(vec![data("tail", 1, 0x20)]);
    let report = resolve(&image, names(&["tail"]), sections(&[0]), &mut source);
    assert_eq!(report.failure, None);
    assert_eq!(report.rows, vec![row(0x20, "tail", "unterminated")]);
}

#[test]
fn an_offset_past_the_image_gives_an_empty_string() {
    let image = vec![b'x'; 0x20];
    let mut source = RecordList::new(vec![data("far", 1, 0xffff_ffff), data("edge", 2, 0)]);
    let report = resolve(
        &image,
        names(&["far", "edge"]),
        sections(&[0xffff_ffff, 0x20]),
        &mut source,
    );
    assert_eq!(report.failure, None);
    assert_eq!(report.rows, vec![row(0x1_ffff_fffe, "far", ""), row(0x20, "edge", "")]);
    assert_eq!(report.lines()[1], "1fffffffe,far,");
}

#[test]
fn two_runs_on_the_same_inputs_agree() {
    let image = image_with(&[(0x110, b"one\0"), (0x120, b"two\0")], 0x200);
    let records = vec![
        data("b", 1, 0x20),
        Record::Other,
        data("a", 1, 0x10),
        data("c", 3, 0),
        data("a", 1, 0x20),
    ];
    let mut first_source = RecordList::new(records.clone());
    let mut second_source = RecordList::new(records);
    let first = resolve(&image, names(&["a", "b", "c"]), sections(&[0x100]), &mut first_source);
    let second = resolve(&image, names(&["a", "b", "c"]), sections(&[0x100]), &mut second_source);
    assert_eq!(first, second);
    assert_eq!(first.lines(), second.lines());
    assert_eq!(first_source.position(), second_source.position());
    assert_eq!(first.rows, vec![row(0x120, "b", "two"), row(0x110, "a", "one")]);
    assert_eq!(first.failure, Some(LookupError::BadSection { section: 3, sections: 1 }));
}

#[test]
fn the_scan_stops_once_every_name_is_found() {
    let image = image_with(&[(0x110, b"one\0"), (0x120, b"two\0")], 0x200);
    let mut source = RecordList::new(vec![
        data("a", 1, 0x10),
        data("x", 1, 0),
        data("b", 1, 0x20),
        Record::Broken("must not be reached".to_string()),
        data("a", 0, 0),
    ]);
    let report = resolve(&image, names(&["b", "a"]), sections(&[0x100]), &mut source);
    assert_eq!(report.failure, None);
    assert_eq!(report.rows, vec![row(0x110, "a", "one"), row(0x120, "b", "two")]);
    assert_eq!(source.position(), 3);
}

#[test]
fn the_scan_goes_on_while_a_name_is_missing() {
    let image = image_with(&[(0x110, b"one\0")], 0x200);
    let mut source = RecordList::new(vec![
        data("a", 1, 0x10),
        data("x", 1, 0),
        Record::Broken("reached".to_string()),
    ]);
    let report = resolve(&image, names(&["a", "missing"]), sections(&[0x100]), &mut source);
    assert_eq!(report.rows, vec![row(0x110, "a", "one")]);
    assert_eq!(report.failure, Some(LookupError::Database("reached".to_string())));
    assert_eq!(source.position(), 3);
}

#[test]
fn the_first_of_two_symbols_with_one_name_wins() {
    let image = image_with(&[(0x110, b"first\0"), (0x120, b"second\0")], 0x200);
    let mut source = RecordList::new(vec![
        data("dup", 1, 0x10),
        data("dup", 1, 0x20),
        data("dup", 9, 0),
    ]);
    let report = resolve(&image, names(&["dup", "other"]), sections(&[0x100]), &mut source);
    assert_eq!(report.failure, None);
    assert_eq!(report.rows, vec![row(0x110, "dup", "first")]);
    assert_eq!(source.position(), 3);
}

#[test]
fn a_name_requested_twice_is_emitted_once_and_never_completes() {
    let image = image_with(&[(0x110, b"first\0"), (0x120, b"second\0")], 0x200);
    let mut source = RecordList::new(vec![
        data("dup", 1, 0x10),
        data("dup", 1, 0x20),
        Record::Other,
    ]);
    let report = resolve(&image, names(&["dup", "dup"]), sections(&[0x100]), &mut source);
    assert_eq!(report.failure, None);
    assert_eq!(report.rows, vec![row(0x110, "dup", "first")]);
    assert_eq!(source.position(), 3);
}

#[test]
fn a_section_index_of_zero_aborts_the_run() {
    let image = image_with(&[(0x110, b"one\0"), (0x120, b"two\0")], 0x200);
    let mut source = RecordList::new(vec![
        data("a", 1, 0x10),
        data("b", 0, 0x20),
        data("c", 1, 0x20),
    ]);
    let report = resolve(&image, names(&["a", "b", "c"]), sections(&[0x100]), &mut source);
    assert_eq!(report.rows, vec![row(0x110, "a", "one")]);
    assert_eq!(report.failure, Some(LookupError::BadSection { section: 0, sections: 1 }));
    assert_eq!(source.position(), 2);
    assert_eq!(
        report.lines(),
        vec!["file_offset,name,value".to_string(), "110,a,one".to_string()]
    );
}

#[test]
fn a_section_index_past_the_table_aborts_the_run() {
    let image = image_with(&[(0x110, b"one\0")], 0x200);
    let mut source = RecordList::new(vec![data("b", 2, 0x20), data("a", 1, 0x10)]);
    let report = resolve(&image, names(&["a", "b"]), sections(&[0x100]), &mut source);
    assert_eq!(report.rows, Vec::new());
    assert_eq!(report.failure, Some(LookupError::BadSection { section: 2, sections: 1 }));
    assert_eq!(source.position(), 1);
}

#[test]
fn a_bad_section_on_an_unwanted_symbol_is_no_error() {
    let image = image_with(&[(0x110, b"one\0")], 0x200);
    let mut source = RecordList::new(vec![data("x", 0, 0), data("y", 40, 0), data("a", 1, 0x10)]);
    let report = resolve(&image, names(&["a"]), sections(&[0x100]), &mut source);
    assert_eq!(report.failure, None);
    assert_eq!(report.rows, vec![row(0x110, "a", "one")]);
}

#[test]
fn bytes_that_are_not_text_abort_the_run_and_keep_earlier_rows() {
    let image = image_with(&[(0x110, b"one\0"), (0x120, &[0xc3, 0x28, 0x00])], 0x200);
    let mut source = RecordList::new(vec![
        data("a", 1, 0x10),
        data("b", 1, 0x20),
        data("c", 1, 0x10),
    ]);
    let report = resolve(&image, names(&["a", "b", "c"]), sections(&[0x100]), &mut source);
    assert_eq!(report.rows, vec![row(0x110, "a", "one")]);
    assert_eq!(report.failure, Some(LookupError::NotText { offset: 0x120 }));
    assert_eq!(source.position(), 2);
}

#[test]
fn a_broken_record_aborts_the_run_and_keeps_earlier_rows() {
    let image = image_with(&[(0x110, b"one\0")], 0x200);
    let mut source = RecordList::new(vec![
        data("a", 1, 0x10),
        Record::Broken("A symbol record's length value was impossibly small".to_string()),
        data("b", 1, 0x10),
    ]);
    let report = resolve(&image, names(&["a", "b"]), sections(&[0x100]), &mut source);
    assert_eq!(report.rows, vec![row(0x110, "a", "one")]);
    assert_eq!(
        report.failure,
        Some(LookupError::Database(
            "A symbol record's length value was impossibly small".to_string()
        ))
    );
}

#[test]
fn unmatched_names_are_left_out_in_silence() {
    let image = image_with(&[(0x110, b"one\0")], 0x200);
    let mut source = RecordList::new(vec![data("a", 1, 0x10), data("z", 1, 0)]);
    let report = resolve(&image, names(&["nope", "a", "never"]), sections(&[0x100]), &mut source);
    assert_eq!(report.failure, None);
    assert_eq!(report.rows, vec![row(0x110, "a", "one")]);
    assert_eq!(source.position(), 2);
}

#[test]
fn rows_come_in_the_order_of_the_symbols() {
    let image = image_with(&[(0x10, b"x\0"), (0x20, b"y\0"), (0x30, b"z\0")], 0x40);
    let mut source = RecordList::new(vec![
        data("third", 1, 0x30),
        data("first", 1, 0x10),
        data("second", 1, 0x20),
    ]);
    let report = resolve(
        &image,
        names(&["first", "second", "third"]),
        sections(&[0]),
        &mut source,
    );
    assert_eq!(
        report.lines(),
        vec![
            "file_offset,name,value".to_string(),
            "30,third,z".to_string(),
            "10,first,x".to_string(),
            "20,second,y".to_string(),
        ]
    );
}
