use codexlaunch::quoting::{format_direct_command, quote_powershell_string, quote_windows_arg};

#[test]
fn quotes_plain_args_without_changes() {
    assert_eq!(
        quote_windows_arg("--proxy-server=http://127.0.0.1:7897"),
        "--proxy-server=http://127.0.0.1:7897"
    );
}

#[test]
fn quotes_paths_with_spaces() {
    assert_eq!(
        quote_windows_arg(r"C:\Users\Name With Space\Codex.exe"),
        r#""C:\Users\Name With Space\Codex.exe""#
    );
}

#[test]
fn formats_direct_command_with_quoted_executable() {
    let command = format_direct_command(
        r"C:\Program Files\WindowsApps\OpenAI.Codex\app\Codex.exe",
        &["--proxy-server=http://127.0.0.1:7897".to_string()],
    );

    assert_eq!(
        command,
        r#""C:\Program Files\WindowsApps\OpenAI.Codex\app\Codex.exe" --proxy-server=http://127.0.0.1:7897"#
    );
}

#[test]
fn doubles_trailing_backslashes_inside_quotes() {
    assert_eq!(
        quote_windows_arg(r"C:\Temp Folder\"),
        r#""C:\Temp Folder\\""#
    );
}

#[test]
fn quotes_powershell_strings() {
    assert_eq!(
        quote_powershell_string(r"C:\Users\O'Brien\CodexLaunch.lnk"),
        r#"'C:\Users\O''Brien\CodexLaunch.lnk'"#
    );
}

#[test]
fn quotes_the_empty_argument() {
    assert_eq!(quote_windows_arg(""), "\"\"");
    assert_eq!(quote_powershell_string(""), "''");
}

#[test]
fn escapes_double_quotes_and_the_backslashes_before_them() {
    assert_eq!(quote_windows_arg(r#"a"b"#), r#""a\"b""#);
    assert_eq!(quote_windows_arg(r#"a\"b"#), r#""a\\\"b""#);
    assert_eq!(quote_windows_arg(r#"a\\"b c\"#), r#""a\\\\\"b c\\""#);
    assert_eq!(quote_windows_arg(r#"""#), r#""\"""#);
}

#[test]
fn leaves_backslashes_alone_without_quotes() {
    assert_eq!(quote_windows_arg(r"C:\dir\"), r"C:\dir\");
    assert_eq!(quote_windows_arg(r"\\server\share"), r"\\server\share");
}

#[test]
fn quotes_any_white_space() {
    assert_eq!(quote_windows_arg("a\tb"), "\"a\tb\"");
    assert_eq!(quote_windows_arg("a\u{a0}b"), "\"a\u{a0}b\"");
    assert_eq!(quote_windows_arg("a\u{3000}b"), "\"a\u{3000}b\"");
    assert_eq!(quote_windows_arg("a\u{200b}b"), "a\u{200b}b");
}

#[test]
fn formats_a_command_without_arguments() {
    assert_eq!(format_direct_command("Codex.exe", &[]), "Codex.exe");
}

/// The arguments that the rules for backslashes and double quotes read from a command line.
fn split_command_line(line: &str) -> Vec<String> {
    let mut args: Vec<String> = Vec::new();
    let mut current: Option<String> = None;
    let mut backslashes = 0;
    let mut quoted = false;
    for c in line.chars() {
        if c == '\\' {
            current.get_or_insert_with(String::new);
            backslashes += 1;
        } else if c == '"' {
            let text = current.get_or_insert_with(String::new);
            text.push_str(&"\\".repeat(backslashes / 2));
            if backslashes % 2 == 1 {
                text.push('"');
            } else {
                quoted = !quoted;
            }
            backslashes = 0;
        } else if (c == ' ' || c == '\t') && !quoted {
            if let Some(mut text) = current.take() {
                text.push_str(&"\\".repeat(backslashes));
                args.push(text);
            }
            backslashes = 0;
        } else {
            let text = current.get_or_insert_with(String::new);
            text.push_str(&"\\".repeat(backslashes));
            text.push(c);
            backslashes = 0;
        }
    }
    if let Some(mut text) = current {
        text.push_str(&"\\".repeat(backslashes));
        args.push(text);
    }
    args
}

#[test]
fn commands_are_read_back() {
    let words = [
        "", " ", "\\", "\"", "\\\"", "a b\\", "\\\\\"\\ ", "plain", "C:\\x y\\\\", "\"\"", "\t\"\\",
    ];
    for first in words {
        assert_eq!(split_command_line(&quote_windows_arg(first)), vec![first]);
        for second in words {
            let args = vec![second.to_string(), first.to_string()];
            assert_eq!(
                split_command_line(&format_direct_command(first, &args)),
                vec![first, second, first]
            );
        }
    }
}

#[test]
fn powershell_strings_are_read_back() {
    for value in ["", "'", "''", "a'b", "'a'", "$(x)\n`"] {
        let quoted = quote_powershell_string(value);
        let inside = &quoted[1..quoted.len() - 1];
        assert_eq!(inside.replace("''", "'"), value);
        assert_eq!(inside.matches('\'').count(), 2 * value.matches('\'').count());
    }
}
