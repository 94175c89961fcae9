use dedup_cleaner::classify::{
    get_file_extension, is_critical_file, is_critical_path, is_program_files_path,
    is_system_directory, is_system_file,
};

#[test]
fn extension_is_lowercased() {
    assert_eq!(get_file_extension("C:\\data\\report.TXT"), "txt");
}

#[test]
fn extension_takes_last_dot() {
    assert_eq!(get_file_extension("C:\\dir\\a.tar.gz"), "gz");
}

#[test]
fn no_extension_is_unknown() {
    assert_eq!(get_file_extension("C:\\data\\archive"), "unknown");
}

#[test]
fn hidden_file_has_no_extension() {
    assert_eq!(get_file_extension("C:\\home\\.gitignore"), "unknown");
}

#[test]
fn dot_in_directory_does_not_count() {
    assert_eq!(get_file_extension("C:\\a.b\\file"), "unknown");
}

#[test]
fn system_file_under_windows() {
    assert!(is_system_file("C:\\Windows\\foo.txt"));
}

#[test]
fn system_file_reserved_names() {
    assert!(is_system_file("D:\\data\\thumbs.db"));
    assert!(is_system_file("D:\\data\\desktop.ini"));
    assert!(is_system_file("D:\\data\\.hidden"));
}

#[test]
fn ordinary_file_is_not_system() {
    assert!(!is_system_file("D:\\data\\file.txt"));
}

#[test]
fn prefix_match_respects_component_boundary() {
    assert!(!is_system_file("C:\\WindowsFoo\\x.txt"));
    assert!(is_system_directory("C:\\Windows"));
    assert!(!is_system_directory("C:\\WindowsFoo"));
}

#[test]
fn critical_by_extension_case_insensitive() {
    assert!(is_critical_file("D:\\apps\\driver.SYS"));
    assert!(is_critical_file("C:\\Program Files\\x.dll"));
    assert!(is_critical_file("D:\\bin\\tool.exe"));
}

#[test]
fn critical_by_location() {
    assert!(is_critical_file("C:\\Windows\\System32\\x.txt"));
    assert!(is_critical_path("C:\\Windows\\WinSxS\\y.txt"));
}

#[test]
fn not_critical() {
    assert!(!is_critical_file("D:\\a.txt"));
    assert!(!is_critical_path("C:\\Windows\\Fonts\\a.ttf"));
}

#[test]
fn program_files_locations() {
    assert!(is_program_files_path("C:\\Program Files\\app\\f.txt"));
    assert!(is_program_files_path("C:\\Program Files (x86)\\app\\f.txt"));
    assert!(!is_program_files_path("C:\\Program FilesX\\f.txt"));
    assert!(!is_program_files_path("D:\\Program Files\\f.txt"));
}
