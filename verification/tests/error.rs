use pdb_strings::error::LookupError;

#[test]
fn database_errors_speak_in_the_words_of_the_database() {
    let error = LookupError::Database("The input data was not recognized".to_string());
    assert_eq!(error.message(), "The input data was not recognized");
    assert_eq!(error.diagnostic(), "error dumping PDB: The input data was not recognized");
}

#[test]
fn each_error_has_its_own_message() {
    let missing = LookupError::NoSections;
    let section = LookupError::BadSection { section: 9, sections: 2 };
    let text = LookupError::NotText { offset: 0x410 };
    assert_eq!(missing.message(), "the debug database holds no section headers");
    assert_eq!(
        section.message(),
        "a matched symbol lies in section 9, but the section header table has entries 1 to 2"
    );
    assert_eq!(text.message(), "the bytes at offset 410 are not valid UTF-8");
    assert_ne!(missing.message(), section.message());
    assert_ne!(section.message(), text.message());
}

#[test]
fn diagnostic_is_one_prefixed_line() {
    let line = LookupError::NoSections.diagnostic();
    assert_eq!(line, "error dumping PDB: the debug database holds no section headers");
    assert!(!line.contains('\n'));
}

#[test]
fn messages_give_their_numbers_in_full() {
    let section = LookupError::BadSection { section: 0, sections: 0 };
    assert_eq!(
        section.message(),
        "a matched symbol lies in section 0, but the section header table has entries 1 to 0"
    );
    let section = LookupError::BadSection { section: 65535, sections: 1024 };
    assert_eq!(
        section.diagnostic(),
        "error dumping PDB: a matched symbol lies in section 65535, but the section header \
         table has entries 1 to 1024"
    );
    let text = LookupError::NotText { offset: 0x1_ffff_fffe };
    assert_eq!(text.message(), "the bytes at offset 1fffffffe are not valid UTF-8");
}
