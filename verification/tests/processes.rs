use codexlaunch::error::LaunchError;
use codexlaunch::processes::{
    find_app_server, find_child_process_by_name, lists_process, process_is_running, tasklist_args,
    ProcessEntry, APP_SERVER_IMAGE_NAME, CODEX_IMAGE_NAME,
};

fn entry(pid: u32, parent_pid: u32, exe: &str) -> ProcessEntry {
    let mut exe_file: Vec<u16> = exe.encode_utf16().collect();
    exe_file.push(0);
    exe_file.push(0x58);
    ProcessEntry { pid, parent_pid, exe_file, image_path: None }
}

fn entry_at(pid: u32, parent_pid: u32, exe: &str, path: &str) -> ProcessEntry {
    ProcessEntry { image_path: Some(path.encode_utf16().collect()), ..entry(pid, parent_pid, exe) }
}

#[test]
fn the_first_child_of_that_name_is_found() {
    let entries = [
        entry(10, 1, "Codex.exe"),
        entry(11, 10, "conhost.exe"),
        entry(12, 9, "codex.exe"),
        entry(13, 10, "CODEX.EXE"),
        entry(14, 10, "codex.exe"),
    ];
    assert_eq!(find_child_process_by_name(&entries, 10, "codex.exe"), Some(13));
    assert_eq!(find_child_process_by_name(&entries, 9, "codex.exe"), Some(12));
    assert_eq!(find_child_process_by_name(&entries, 11, "codex.exe"), None);
    assert_eq!(find_child_process_by_name(&entries, 10, "codex"), None);
    assert_eq!(find_child_process_by_name(&[], 10, "codex.exe"), None);
}

#[test]
fn a_helper_is_not_the_app_server() {
    let helpers = [
        entry(10, 1, CODEX_IMAGE_NAME),
        entry(11, 10, CODEX_IMAGE_NAME),
        entry_at(12, 10, CODEX_IMAGE_NAME, r"C:\Codex\app\Codex.exe"),
        entry(13, 9, APP_SERVER_IMAGE_NAME),
    ];
    assert_eq!(find_app_server(&helpers, 10), None);
    assert_eq!(find_app_server(&[], 10), None);
    assert_eq!(find_child_process_by_name(&helpers, 10, APP_SERVER_IMAGE_NAME), Some(11));
}

#[test]
fn the_app_server_is_found_behind_helpers() {
    let entries = [
        entry(11, 10, "Codex.exe"),
        entry(12, 9, "codex.exe"),
        entry(13, 10, "CODEX.EXE"),
        entry(14, 10, "codex.exe"),
        entry(15, 10, "codex.exe"),
    ];
    assert_eq!(find_app_server(&entries, 10), Some(14));
    assert_eq!(find_app_server(&entries, 9), Some(12));
}

#[test]
fn the_app_server_lies_in_the_resources() {
    for resources in [
        r"C:\Codex\app\resources\codex.exe",
        r"C:\Codex\app\Resources\codex.exe",
        r"C:\CODEX\APP\RESOURCES\CODEX.EXE",
    ] {
        for name in ["codex.exe", "Codex.exe", "CODEX.EXE"] {
            assert_eq!(find_app_server(&[entry_at(5, 1, name, resources)], 1), Some(5));
        }
        assert_eq!(find_app_server(&[entry_at(5, 1, "other.exe", resources)], 1), None);
        assert_eq!(find_app_server(&[entry_at(5, 1, "codex.exe", resources)], 2), None);
    }
    for elsewhere in [r"C:\Codex\app\codex.exe", r"C:\my-resources\codex.exe", "codex.exe", ""] {
        assert_eq!(find_app_server(&[entry_at(5, 1, "codex.exe", elsewhere)], 1), None);
    }
}

#[test]
fn the_app_server_has_a_name_to_be_found_by() {
    let entries = [
        entry_at(11, 10, "Codex.exe", r"C:\Codex\app\Codex.exe"),
        entry_at(12, 10, "codex.exe", r"C:\Codex\app\Resources\codex.exe"),
    ];
    assert_eq!(find_app_server(&entries, 10), Some(12));
    assert!(find_child_process_by_name(&entries, 10, APP_SERVER_IMAGE_NAME).is_some());
}

#[test]
fn tasklist_is_asked_for_the_image() {
    assert_eq!(
        tasklist_args("Codex.exe"),
        vec!["/FI", "IMAGENAME eq Codex.exe", "/FO", "CSV", "/NH"]
    );
}

#[test]
fn a_line_must_begin_with_the_quoted_image() {
    assert!(lists_process("\"Codex.exe\",\"12\",\"Console\"\r\n", "Codex.exe"));
    assert!(lists_process("INFO\r\n  \"Codex.exe\",\"12\"", "Codex.exe"));
    assert!(!lists_process("\"codex.exe\",\"12\"\r\n", "Codex.exe"));
    assert!(!lists_process("x \"Codex.exe\"\r\n", "Codex.exe"));
    assert!(!lists_process("\"Codex.exe2\"", "Codex.exe"));
    assert!(!lists_process("", "Codex.exe"));
    assert!(!lists_process("INFO: No tasks are running.\r\n", "Codex.exe"));
}

#[test]
fn the_output_decides_where_tasklist_succeeded() {
    assert_eq!(
        process_is_running("Codex.exe", true, "exit code: 0", b"\"Codex.exe\",\"12\"\r\n"),
        Ok(true)
    );
    assert_eq!(
        process_is_running("Codex.exe", true, "exit code: 0", b"INFO: none\r\n"),
        Ok(false)
    );
    assert_eq!(
        process_is_running("Codex.exe", true, "exit code: 0", b"\xff\n\"Codex.exe\",\"12\""),
        Ok(true)
    );
}

#[test]
fn bytes_are_read_as_utf8() {
    let image = "\u{e9}.exe";
    let stdout = format!("\"{}\",\"12\"\r\n", image);
    assert_eq!(process_is_running(image, true, "", stdout.as_bytes()), Ok(true));
    assert_eq!(process_is_running("\u{fffd}.exe", true, "", b"\"\xe9.exe\""), Ok(true));
    assert_eq!(process_is_running(image, true, "", b"\"\xe9.exe\""), Ok(false));
}

#[test]
fn a_failed_tasklist_is_told() {
    let error = process_is_running("Codex.exe", false, "exit code: 1", b"\"Codex.exe\"").unwrap_err();
    assert_eq!(error, LaunchError::TasklistFailed { exit_status: "exit code: 1".to_string() });
    assert_eq!(error.message(), "tasklist failed with status exit code: 1");
}
