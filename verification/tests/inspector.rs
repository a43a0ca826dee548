use presence_agent::inspector::process_name;

fn units(text: &str) -> Vec<u16> {
    text.encode_utf16().collect()
}

#[test]
fn device_path_gives_the_executable() {
    let path = units("\\Device\\HarddiskVolume3\\Windows\\System32\\notepad.exe");
    assert_eq!(process_name(&path), Some("notepad.exe".to_string()));
}

#[test]
fn forward_slashes_separate_too() {
    assert_eq!(process_name(&units("C:/Tools/Code.exe")), Some("Code.exe".to_string()));
    assert_eq!(process_name(&units("a\\b/c\\d.exe")), Some("d.exe".to_string()));
}

#[test]
fn bare_name_is_itself() {
    assert_eq!(process_name(&units("notepad.exe")), Some("notepad.exe".to_string()));
}

#[test]
fn case_is_kept() {
    assert_eq!(process_name(&units("\\x\\NotePad.EXE")), Some("NotePad.EXE".to_string()));
}

#[test]
fn empty_path_has_no_name() {
    assert_eq!(process_name(&[]), None);
}

#[test]
fn path_that_ends_in_a_separator_has_no_name() {
    assert_eq!(process_name(&units("\\Device\\Volume\\")), None);
    assert_eq!(process_name(&units("/")), None);
}

#[test]
fn characters_beyond_the_basic_plane_are_decoded() {
    let path = units("\\apps\\日本語-\u{1F600}.exe");
    assert_eq!(process_name(&path), Some("日本語-\u{1F600}.exe".to_string()));
}

#[test]
fn unpaired_surrogate_in_the_name_gives_none() {
    let mut path = units("\\apps\\bad");
    path.push(0xD800);
    assert_eq!(process_name(&path), None);
    let mut path = units("\\apps\\");
    path.push(0xDC00);
    path.extend(units("x.exe"));
    assert_eq!(process_name(&path), None);
}

#[test]
fn unpaired_surrogate_in_a_directory_does_not_matter() {
    let mut path = units("\\apps");
    path.push(0xD800);
    path.extend(units("\\tool.exe"));
    assert_eq!(process_name(&path), Some("tool.exe".to_string()));
}
