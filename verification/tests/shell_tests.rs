use quicftp::protocol::{Command, ProtocolError};
use quicftp::shell::{interpret_line, strips_lone_quote_at, ShellAction};

#[test]
fn blank_lines_are_skipped() {
    assert!(matches!(interpret_line(""), ShellAction::Skip));
    assert!(matches!(interpret_line("  \t \n"), ShellAction::Skip));
}

#[test]
fn local_words_for_help_and_quit() {
    for w in ["帮助", "help", "?", "  help  "] {
        assert!(matches!(interpret_line(w), ShellAction::Help));
    }
    for w in ["退出", "quit", "bye", "exit", "exit\n"] {
        assert!(matches!(interpret_line(w), ShellAction::Quit));
    }
    // with an argument they are no longer the local words
    assert!(matches!(interpret_line("help me"), ShellAction::Invalid(ProtocolError::UnknownCommand(w)) if w == "help"));
}

#[test]
fn upload_lines() {
    assert!(matches!(interpret_line("上传"), ShellAction::UploadUsage));
    assert!(matches!(interpret_line("put   "), ShellAction::UploadUsage));
    match interpret_line("上传 /tmp/report.pdf") {
        ShellAction::Upload { local_path, remote_name } => {
            assert_eq!(local_path, "/tmp/report.pdf");
            assert_eq!(remote_name, "report.pdf");
        }
        _ => panic!("expected an upload"),
    }
    match interpret_line("put \"my file.txt\"") {
        ShellAction::Upload { local_path, remote_name } => {
            assert_eq!(local_path, "my file.txt");
            assert_eq!(remote_name, "my file.txt");
        }
        _ => panic!("expected an upload"),
    }
    match interpret_line("上传 'a/b c.txt'") {
        ShellAction::Upload { local_path, remote_name } => {
            assert_eq!(local_path, "a/b c.txt");
            assert_eq!(remote_name, "b c.txt");
        }
        _ => panic!("expected an upload"),
    }
    // mismatched quotes stay
    match interpret_line("上传 \"x.txt'") {
        ShellAction::Upload { local_path, .. } => assert_eq!(local_path, "\"x.txt'"),
        _ => panic!("expected an upload"),
    }
    match interpret_line("上传 \"\"") {
        ShellAction::Upload { local_path, remote_name } => {
            assert_eq!(local_path, "");
            assert_eq!(remote_name, "");
        }
        _ => panic!("expected an upload"),
    }
}

#[test]
fn lone_quote_upload_is_detected() {
    assert!(strips_lone_quote_at("上传 \""));
    assert!(strips_lone_quote_at("put '"));
    assert!(!strips_lone_quote_at("上传 \"a\""));
    assert!(!strips_lone_quote_at("下载 \""));
    assert!(!strips_lone_quote_at("上传 a"));
}

#[test]
fn download_lines() {
    assert!(matches!(interpret_line("下载"), ShellAction::DownloadUsage));
    match interpret_line("get docs/data.csv") {
        ShellAction::Download { remote_path, local_name } => {
            assert_eq!(remote_path, "docs/data.csv");
            assert_eq!(local_name, "data.csv");
        }
        _ => panic!("expected a download"),
    }
    match interpret_line("下载 ..") {
        ShellAction::Download { remote_path, local_name } => {
            assert_eq!(remote_path, "..");
            assert_eq!(local_name, "..");
        }
        _ => panic!("expected a download"),
    }
    // quotes are not stripped for downloads
    match interpret_line("下载 \"a b\"") {
        ShellAction::Download { remote_path, .. } => assert_eq!(remote_path, "\"a b\""),
        _ => panic!("expected a download"),
    }
}

#[test]
fn other_lines_are_parsed_as_commands() {
    assert!(matches!(interpret_line("列表"), ShellAction::Send(Command::List)));
    assert!(matches!(interpret_line(" 用户 alice "), ShellAction::Send(Command::User(n)) if n == "alice"));
    assert!(matches!(interpret_line("GET x"), ShellAction::Send(Command::Get(f)) if f == "x"));
    assert!(matches!(interpret_line("QUIT"), ShellAction::Send(Command::Quit)));
    assert!(matches!(interpret_line("FOO"), ShellAction::Invalid(ProtocolError::UnknownCommand(w)) if w == "FOO"));
    assert!(matches!(interpret_line("重命名 a"), ShellAction::Invalid(ProtocolError::InvalidCommand(_))));
}

#[test]
fn download_local_names_follow_the_last_component() {
    let local = |line: &str| match interpret_line(line) {
        ShellAction::Download { local_name, .. } => local_name,
        _ => panic!("expected a download"),
    };
    assert_eq!(local("下载 a/b/."), "b");
    assert_eq!(local("下载 dir/"), "dir");
    assert_eq!(local("下载 a//b"), "b");
    assert_eq!(local("下载 a/.."), "a/..");
    assert_eq!(local("下载 /"), "/");
    assert_eq!(local("下载 ./."), "./.");
}
