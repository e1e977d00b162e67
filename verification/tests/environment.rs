use codexlaunch::environment::{
    child_env_edits, entries_of_block, entry_matches, environment_text, is_in_memory,
    missing_env_vars,
    read_process_environment, read_remote_usize, read_remote_utf16_double_nul_string, ChunkRead,
    ChunkStep, EnvEdit, EnvReadAction, EnvReadEvent, ENVIRONMENT_LIMIT,
};
use codexlaunch::error::LaunchError;
use codexlaunch::options::default_launch_options;
use codexlaunch::plan::{build_launch_plan, proxy_env_vars};

fn strings(list: &[&str]) -> Vec<String> {
    list.iter().map(|s| s.to_string()).collect()
}

fn block(entries: &[&str]) -> Vec<u8> {
    let mut text = String::new();
    for entry in entries {
        text.push_str(entry);
        text.push('\0');
    }
    text.push('\0');
    text.encode_utf16().flat_map(|unit| unit.to_le_bytes()).collect()
}

#[test]
fn values_must_be_equal_and_names_but_for_case() {
    assert!(entry_matches("http_proxy=x", "HTTP_PROXY", "x"));
    assert!(!entry_matches("http_proxy=X", "HTTP_PROXY", "x"));
    assert!(!entry_matches("http_proxy", "HTTP_PROXY", ""));
    assert!(entry_matches("HTTP_PROXY=", "HTTP_PROXY", ""));
    assert!(entry_matches("A=b=c", "a", "b=c"));
    assert!(!entry_matches("=C:=C:\\", "C:", "C:\\"));
    assert!(entry_matches("=C:=C:\\", "", "C:=C:\\"));
}

#[test]
fn missing_names_are_told_in_order() {
    let expected = proxy_env_vars("p", "n");
    let env = strings(&["PATH=x", "https_proxy=p", "NO_PROXY=other", "all_proxy"]);
    assert_eq!(
        missing_env_vars(&env, &expected),
        vec!["HTTP_PROXY", "ALL_PROXY", "NO_PROXY"]
    );
    assert_eq!(missing_env_vars(&env, &[]), Vec::<String>::new());
    assert_eq!(
        missing_env_vars(&[], &expected),
        vec!["HTTP_PROXY", "HTTPS_PROXY", "ALL_PROXY", "NO_PROXY"]
    );
}

#[test]
fn nothing_is_missing_where_all_is_set() {
    let expected = proxy_env_vars("p", "n");
    let env = strings(&["HTTP_PROXY=p", "HTTPS_PROXY=p", "ALL_PROXY=p", "no_proxy=n", "X=y"]);
    assert!(missing_env_vars(&env, &expected).is_empty());
}

#[test]
fn variables_are_removed_before_they_are_set() {
    let set = vec![("A".to_string(), "1".to_string())];
    let edits = child_env_edits(&set, &strings(&["A", "B"]));
    assert_eq!(
        edits,
        vec![
            EnvEdit::Remove { key: "A".to_string() },
            EnvEdit::Remove { key: "B".to_string() },
            EnvEdit::Assign { key: "A".to_string(), value: "1".to_string() },
        ]
    );
}

fn applied(edits: &[EnvEdit], inherited: &[(&str, &str)]) -> Vec<(String, String)> {
    let mut env: std::collections::BTreeMap<String, String> = inherited
        .iter()
        .map(|(key, value)| (key.to_string(), value.to_string()))
        .collect();
    for edit in edits {
        match edit {
            EnvEdit::Remove { key } => {
                env.remove(key);
            }
            EnvEdit::Assign { key, value } => {
                env.insert(key.clone(), value.clone());
            }
        }
    }
    env.into_iter().collect()
}

#[test]
fn no_env_takes_inherited_proxies_away() {
    let mut options = default_launch_options();
    options.no_env = true;
    let plan = build_launch_plan(options).unwrap();
    let edits = child_env_edits(&plan.proxy_env, &plan.proxy_env_removals);
    let env = applied(&edits, &[("HTTP_PROXY", "x"), ("no_proxy", "y"), ("PATH", "z")]);
    assert_eq!(env, vec![("PATH".to_string(), "z".to_string())]);
}

#[test]
fn launched_environment_passes_its_check() {
    let plan = build_launch_plan(default_launch_options()).unwrap();
    let edits = child_env_edits(&plan.proxy_env, &plan.proxy_env_removals);
    let env = applied(&edits, &[("HTTP_PROXY", "x"), ("PATH", "z")]);
    let entries: Vec<String> = env
        .iter()
        .map(|(key, value)| format!("{}={}", key, value))
        .collect();
    let names: Vec<&str> = entries.iter().map(|entry| entry.as_str()).collect();
    let mut memory = block(&names);
    memory.extend([7, 7, 7]);
    let read = entries_of_block(&environment_text(&memory));
    assert_eq!(read, entries);
    assert!(missing_env_vars(&read, &plan.proxy_env).is_empty());
    assert!(entries.contains(&"HTTP_PROXY=http://127.0.0.1:7897".to_string()));
    assert!(entries.contains(&"PATH=z".to_string()));
}

#[test]
fn blocks_are_read_back() {
    let entries = ["A=1", "=C:=C:\\", "\u{1f600}=\u{e9}"];
    let memory = block(&entries);
    assert_eq!(environment_text(&memory), "A=1\0=C:=C:\\\0\u{1f600}=\u{e9}");
    assert_eq!(entries_of_block(&environment_text(&memory)), entries);
}

#[test]
fn empty_entries_are_left_out() {
    assert_eq!(entries_of_block(""), Vec::<String>::new());
    assert_eq!(entries_of_block("\0\0a\0\0b\0"), vec!["a", "b"]);
    assert_eq!(environment_text(&[0, 0, 0, 0, 0x41, 0]), "");
}

#[test]
fn text_without_an_end_is_taken_whole() {
    assert_eq!(environment_text(&[0x41, 0, 0, 0, 0x42, 0, 0x43]), "A\0B");
}

#[test]
fn chunks_do_not_change_the_text() {
    let mut memory = block(&["A=1", "BB=22", "CCC=333"]);
    memory.extend([9; 5]);
    for size in 1..memory.len() {
        let mut bytes: Vec<u8> = Vec::new();
        let mut at = 0;
        let text = loop {
            let end = (at + size).min(memory.len());
            let chunk = ChunkRead::Bytes(memory[at..end].to_vec());
            match read_remote_utf16_double_nul_string(&mut bytes, chunk) {
                ChunkStep::ReadAt(offset) => {
                    assert_eq!(offset, end);
                    at = offset;
                }
                ChunkStep::Text(text) => break text,
                ChunkStep::Unreadable => panic!("unreadable"),
            }
        };
        assert_eq!(text, "A=1\0BB=22\0CCC=333");
    }
}

#[test]
fn a_failed_read_ends_the_text() {
    let mut bytes: Vec<u8> = Vec::new();
    assert_eq!(
        read_remote_utf16_double_nul_string(&mut bytes, ChunkRead::Failed),
        ChunkStep::Unreadable
    );
    assert_eq!(
        read_remote_utf16_double_nul_string(&mut bytes, ChunkRead::Bytes(vec![0x41, 0, 0x42])),
        ChunkStep::ReadAt(3)
    );
    assert_eq!(
        read_remote_utf16_double_nul_string(&mut bytes, ChunkRead::Failed),
        ChunkStep::Text("A".to_string())
    );
    assert_eq!(bytes, vec![0x41, 0, 0x42]);
}

#[test]
fn reading_ends_where_enough_was_read() {
    let mut bytes: Vec<u8> = vec![0x41; ENVIRONMENT_LIMIT - 2];
    assert_eq!(
        read_remote_utf16_double_nul_string(&mut bytes, ChunkRead::Bytes(vec![0x41])),
        ChunkStep::ReadAt(ENVIRONMENT_LIMIT - 1)
    );
    match read_remote_utf16_double_nul_string(&mut bytes, ChunkRead::Bytes(vec![0x41])) {
        ChunkStep::Text(text) => assert_eq!(text.chars().count(), 131072),
        other => panic!("{:?}", other),
    }
}

#[test]
fn addresses_are_read_low_byte_first() {
    assert_eq!(
        read_remote_usize(0x10, &[1, 2, 3, 4, 5, 6, 7, 8], 8),
        Ok(0x0807060504030201)
    );
    assert_eq!(
        read_remote_usize(0x10, &[0xff; 8], 8),
        Ok(u64::MAX)
    );
    assert_eq!(
        read_remote_usize(0x1f0, &[0; 8], 3),
        Err(LaunchError::ShortRead { address: 0x1f0, expected: 8, got: 3 })
    );
}

fn queried(status: i32, is_64_bit: bool) -> EnvReadEvent {
    EnvReadEvent::ProcessQueried { status, peb_base_address: 0x1000, is_64_bit }
}

#[test]
fn addresses_are_found_behind_each_other() {
    assert_eq!(
        read_process_environment(queried(0, true)),
        EnvReadAction::ReadParameters { address: 0x1020 }
    );
    assert_eq!(
        read_process_environment(EnvReadEvent::ParametersRead { process_parameters: 0x2000 }),
        EnvReadAction::ReadPointer { address: 0x2080 }
    );
    assert_eq!(
        read_process_environment(EnvReadEvent::PointerRead { environment_address: 0x3000 }),
        EnvReadAction::ReadText { address: 0x3000 }
    );
    assert_eq!(
        read_process_environment(EnvReadEvent::TextRead { raw: "A=1\0\0B=2".to_string() }),
        EnvReadAction::Done(strings(&["A=1", "B=2"]))
    );
}

#[test]
fn a_process_that_cannot_be_read_is_told() {
    assert_eq!(
        read_process_environment(queried(-5, false)),
        EnvReadAction::Fail(LaunchError::ProcessQueryFailed { status: -5 })
    );
    assert_eq!(
        read_process_environment(queried(0, false)),
        EnvReadAction::Fail(LaunchError::RemoteReadUnsupported)
    );
    assert_eq!(
        LaunchError::RemoteReadUnsupported.message(),
        "remote environment reading is only implemented for 64-bit processes"
    );
}

#[test]
fn addresses_must_lie_in_memory() {
    let queried_at = |peb_base_address: u64, status: i32, is_64_bit: bool| {
        EnvReadEvent::ProcessQueried { status, peb_base_address, is_64_bit }
    };
    assert!(is_in_memory(&queried_at(u64::MAX - 0x20, 0, true)));
    assert!(!is_in_memory(&queried_at(u64::MAX - 0x1f, 0, true)));
    assert!(is_in_memory(&queried_at(u64::MAX, 1, true)));
    assert!(is_in_memory(&queried_at(u64::MAX, 0, false)));
    let parameters = |process_parameters: u64| EnvReadEvent::ParametersRead { process_parameters };
    assert!(is_in_memory(&parameters(u64::MAX - 0x80)));
    assert!(!is_in_memory(&parameters(u64::MAX - 0x7f)));
    assert!(is_in_memory(&EnvReadEvent::PointerRead { environment_address: u64::MAX }));
    assert!(is_in_memory(&EnvReadEvent::TextRead { raw: String::new() }));
}

/// Reads the environment of a process with this memory, some bytes at once.
fn environment_of(memory: &[u8], peb_base_address: u64, chunk: usize) -> Vec<String> {
    let word = |address: u64| -> u64 {
        let at = address as usize;
        read_remote_usize(address, &memory[at..at + 8], 8).unwrap()
    };
    let mut event = EnvReadEvent::ProcessQueried { status: 0, peb_base_address, is_64_bit: true };
    loop {
        assert!(is_in_memory(&event));
        event = match read_process_environment(event) {
            EnvReadAction::ReadParameters { address } => {
                EnvReadEvent::ParametersRead { process_parameters: word(address) }
            }
            EnvReadAction::ReadPointer { address } => {
                EnvReadEvent::PointerRead { environment_address: word(address) }
            }
            EnvReadAction::ReadText { address } => {
                let mut bytes = Vec::new();
                let mut from = address as usize;
                let raw = loop {
                    let read = memory[from..memory.len().min(from + chunk)].to_vec();
                    match read_remote_utf16_double_nul_string(&mut bytes, ChunkRead::Bytes(read)) {
                        ChunkStep::ReadAt(offset) => from = address as usize + offset,
                        ChunkStep::Text(text) => break text,
                        ChunkStep::Unreadable => panic!("unreadable"),
                    }
                };
                EnvReadEvent::TextRead { raw }
            }
            EnvReadAction::Done(entries) => return entries,
            EnvReadAction::Fail(error) => panic!("{:?}", error),
        };
    }
}

#[test]
fn the_environment_of_a_process_is_read_back() {
    let entries = ["PATH=x", "HTTP_PROXY=p", "\u{1f600}=\u{e9}"];
    let mut memory = vec![0xaau8; 0x400];
    memory[0x130..0x138].copy_from_slice(&0x200u64.to_le_bytes());
    memory[0x280..0x288].copy_from_slice(&0x301u64.to_le_bytes());
    let environment = block(&entries);
    memory[0x301..0x301 + environment.len()].copy_from_slice(&environment);
    for chunk in [1, 2, 3, 7, 64, 4096] {
        assert_eq!(environment_of(&memory, 0x110, chunk), strings(&entries));
    }
}
