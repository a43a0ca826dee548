use presence_agent::table::{StateTable, StatusRecord};

fn record(name: &str, description: &str) -> StatusRecord {
    StatusRecord { name: name.to_string(), description: description.to_string() }
}

#[test]
fn lookup_is_the_same_for_every_case_variant() {
    let table = StateTable::from_records(&[record("Notepad.exe", "Writing Notes")]);
    let expected = Some("Writing Notes".to_string());
    assert_eq!(table.lookup("Notepad.EXE").cloned(), expected);
    assert_eq!(table.lookup("notepad.exe").cloned(), expected);
    assert_eq!(table.lookup("NOTEPAD.EXE").cloned(), expected);
}

#[test]
fn later_record_replaces_earlier_case_variant() {
    let table = StateTable::from_records(&[record("Foo.exe", "A"), record("foo.exe", "B")]);
    assert_eq!(table.lookup("FOO.EXE").cloned(), Some("B".to_string()));
    assert_eq!(table.len(), 1);
}

#[test]
fn unknown_name_is_not_found() {
    let table = StateTable::from_records(&[record("code.exe", "Coding")]);
    assert_eq!(table.lookup("notepad.exe"), None);
    assert_eq!(table.lookup("code"), None);
}

#[test]
fn empty_table_has_no_entry() {
    let table = StateTable::from_records(&[]);
    assert!(table.is_empty());
    assert_eq!(table.len(), 0);
    assert_eq!(table.lookup(""), None);
}

#[test]
fn distinct_names_keep_their_own_entries() {
    let table = StateTable::from_records(&[
        record("a.exe", "A"),
        record("b.exe", "B"),
        record("A.EXE", "C"),
    ]);
    assert_eq!(table.len(), 2);
    assert!(!table.is_empty());
    assert_eq!(table.lookup("a.exe").cloned(), Some("C".to_string()));
    assert_eq!(table.lookup("B.exe").cloned(), Some("B".to_string()));
}

#[test]
fn folding_touches_ascii_letters_only() {
    let table = StateTable::from_records(&[record("ÄB-1_z.exe", "Umlaut")]);
    assert_eq!(table.lookup("Äb-1_Z.EXE").cloned(), Some("Umlaut".to_string()));
    assert_eq!(table.lookup("äb-1_z.exe"), None);
}

#[test]
fn description_is_kept_verbatim() {
    let table = StateTable::from_records(&[record("x", "  Mixed CASE, ünïcode  ")]);
    assert_eq!(table.lookup("X").cloned(), Some("  Mixed CASE, ünïcode  ".to_string()));
}
