use quicftp::protocol::{Command, ProtocolError, Response, ResponseCode};

#[test]
fn test_parse_chinese_commands() {
    assert!(matches!(Command::parse("用户 alice"), Ok(Command::User(name)) if name == "alice"));
    assert!(matches!(Command::parse("密码 secret"), Ok(Command::Pass(p)) if p == "secret"));
    assert!(matches!(Command::parse("列表"), Ok(Command::List)));
    assert!(matches!(Command::parse("下载 file.txt"), Ok(Command::Get(f)) if f == "file.txt"));
    assert!(matches!(Command::parse("上传 file.txt 100"), Ok(Command::Put(f, 100)) if f == "file.txt"));
    assert!(matches!(Command::parse("切换 /home"), Ok(Command::Cd(d)) if d == "/home"));
    assert!(matches!(Command::parse("当前目录"), Ok(Command::Pwd)));
    assert!(matches!(Command::parse("退出"), Ok(Command::Quit)));
}

#[test]
fn test_parse_english_commands() {
    assert!(matches!(Command::parse("USER alice"), Ok(Command::User(name)) if name == "alice"));
    assert!(matches!(Command::parse("PASS secret"), Ok(Command::Pass(p)) if p == "secret"));
    assert!(matches!(Command::parse("LIST"), Ok(Command::List)));
    assert!(matches!(Command::parse("GET file.txt"), Ok(Command::Get(f)) if f == "file.txt"));
    assert!(matches!(Command::parse("PUT file.txt 100"), Ok(Command::Put(f, 100)) if f == "file.txt"));
    assert!(matches!(Command::parse("PWD"), Ok(Command::Pwd)));
    assert!(matches!(Command::parse("QUIT"), Ok(Command::Quit)));
}

#[test]
fn test_parse_unknown_command() {
    assert!(matches!(
        Command::parse("UNKNOWN"),
        Err(ProtocolError::UnknownCommand(_))
    ));
}

#[test]
fn test_response_format() {
    let resp = Response::new(ResponseCode::LoginSuccessful, "登录成功");
    assert_eq!(resp.format(), "230 登录成功");
}

#[test]
fn test_response_parse() {
    let resp = Response::parse("230 登录成功").unwrap();
    assert_eq!(resp.code, 230);
    assert_eq!(resp.message, "登录成功");
}

#[test]
fn parse_trims_the_line_and_the_arguments() {
    assert!(matches!(Command::parse("  用户   bob  \n"), Ok(Command::User(n)) if n == "bob"));
    assert!(matches!(Command::parse("\t切换  a b \r\n"), Ok(Command::Cd(d)) if d == "a b"));
    assert!(matches!(Command::parse("用户"), Ok(Command::User(n)) if n.is_empty()));
}

#[test]
fn parse_all_aliases() {
    assert!(matches!(Command::parse("ls"), Ok(Command::List)));
    assert!(matches!(Command::parse("LS"), Ok(Command::List)));
    assert!(matches!(Command::parse("RETR x"), Ok(Command::Get(f)) if f == "x"));
    assert!(matches!(Command::parse("STOR x 5"), Ok(Command::Put(f, 5)) if f == "x"));
    assert!(matches!(Command::parse("CWD d"), Ok(Command::Cd(d)) if d == "d"));
    assert!(matches!(Command::parse("CD d"), Ok(Command::Cd(d)) if d == "d"));
    assert!(matches!(Command::parse("创建目录 d"), Ok(Command::Mkdir(d)) if d == "d"));
    assert!(matches!(Command::parse("MKD d"), Ok(Command::Mkdir(d)) if d == "d"));
    assert!(matches!(Command::parse("MKDIR d"), Ok(Command::Mkdir(d)) if d == "d"));
    assert!(matches!(Command::parse("删除目录 d"), Ok(Command::Rmdir(d)) if d == "d"));
    assert!(matches!(Command::parse("RMD d"), Ok(Command::Rmdir(d)) if d == "d"));
    assert!(matches!(Command::parse("RMDIR d"), Ok(Command::Rmdir(d)) if d == "d"));
    assert!(matches!(Command::parse("删除 f"), Ok(Command::Del(f)) if f == "f"));
    assert!(matches!(Command::parse("DELE f"), Ok(Command::Del(f)) if f == "f"));
    assert!(matches!(Command::parse("DEL f"), Ok(Command::Del(f)) if f == "f"));
    assert!(matches!(Command::parse("RM f"), Ok(Command::Del(f)) if f == "f"));
    assert!(matches!(Command::parse("大小 f"), Ok(Command::Size(f)) if f == "f"));
    assert!(matches!(Command::parse("SIZE f"), Ok(Command::Size(f)) if f == "f"));
    assert!(matches!(Command::parse("BYE"), Ok(Command::Quit)));
    assert!(matches!(Command::parse("exit"), Ok(Command::Quit)));
    // words are case-sensitive
    assert!(matches!(Command::parse("quit"), Err(ProtocolError::UnknownCommand(w)) if w == "quit"));
}

#[test]
fn parse_put_size_forms() {
    assert!(matches!(Command::parse("上传 a.txt"), Ok(Command::Put(f, 0)) if f == "a.txt"));
    assert!(matches!(Command::parse("上传 a.txt abc"), Ok(Command::Put(f, 0)) if f == "a.txt"));
    assert!(matches!(Command::parse("上传 a.txt +7"), Ok(Command::Put(f, 7)) if f == "a.txt"));
    assert!(matches!(Command::parse("上传 a.txt 18446744073709551615"), Ok(Command::Put(f, 18446744073709551615)) if f == "a.txt"));
    assert!(matches!(Command::parse("上传 a.txt 18446744073709551616"), Ok(Command::Put(f, 0)) if f == "a.txt"));
    assert!(matches!(Command::parse("上传 a.txt 1 2"), Ok(Command::Put(f, 0)) if f == "a.txt"));
}

#[test]
fn parse_rename() {
    assert!(matches!(Command::parse("重命名 a b"), Ok(Command::Ren { from, to }) if from == "a" && to == "b"));
    assert!(matches!(Command::parse("MV a b c"), Ok(Command::Ren { from, to }) if from == "a" && to == "b c"));
    match Command::parse("REN onlyone") {
        Err(ProtocolError::InvalidCommand(m)) => {
            assert_eq!(m, "重命名需要两个参数: 重命名 <原文件名> <新文件名>")
        }
        _ => panic!("expected an invalid command"),
    }
}

#[test]
fn unknown_command_reports_its_word() {
    match Command::parse("  FOO bar baz ") {
        Err(e) => {
            assert!(matches!(&e, ProtocolError::UnknownCommand(w) if w == "FOO"));
            assert_eq!(e.message(), "未知命令: FOO");
        }
        _ => panic!("expected an unknown command"),
    }
}

#[test]
fn send_strings_and_display_strings() {
    assert_eq!(Command::User("alice".to_string()).to_send_string(), "用户 alice");
    assert_eq!(Command::Pass("pw".to_string()).to_send_string(), "密码 pw");
    assert_eq!(Command::Pass("pw".to_string()).to_display_string(), "密码 ****");
    assert_eq!(Command::Put("a.txt".to_string(), 1024).to_send_string(), "上传 a.txt 1024");
    assert_eq!(
        Command::Ren { from: "a".to_string(), to: "b".to_string() }.to_send_string(),
        "重命名 a b"
    );
    assert_eq!(Command::List.to_send_string(), "列表");
    assert_eq!(Command::Pwd.to_display_string(), "当前目录");
    assert_eq!(Command::Quit.to_send_string(), "退出");
    assert_eq!(Command::Mkdir("d".to_string()).to_send_string(), "创建目录 d");
    assert_eq!(Command::Rmdir("d".to_string()).to_send_string(), "删除目录 d");
    assert_eq!(Command::Del("f".to_string()).to_send_string(), "删除 f");
    assert_eq!(Command::Size("f".to_string()).to_send_string(), "大小 f");
    assert_eq!(Command::Get("f".to_string()).to_send_string(), "下载 f");
    assert_eq!(Command::Cd("d".to_string()).to_send_string(), "切换 d");
}

#[test]
fn command_round_trip_on_examples() {
    let cmds = vec![
        Command::User("alice".to_string()),
        Command::Pass("s3cr et".to_string()),
        Command::List,
        Command::Get("dir/file.txt".to_string()),
        Command::Put("file.txt".to_string(), 42),
        Command::Cd("../x".to_string()),
        Command::Pwd,
        Command::Mkdir("new dir".to_string()),
        Command::Rmdir("old".to_string()),
        Command::Del("t.txt".to_string()),
        Command::Ren { from: "a".to_string(), to: "b c".to_string() },
        Command::Size("v.mp4".to_string()),
        Command::Quit,
    ];
    for c in cmds {
        let text = c.to_send_string();
        let back = Command::parse(&text).unwrap();
        assert_eq!(back.to_send_string(), text);
    }
}

#[test]
fn response_round_trip_and_errors() {
    let r = Response::new(ResponseCode::FileNotFound, "文件不存在");
    let back = Response::parse(&r.format()).unwrap();
    assert_eq!(back.code, 550);
    assert_eq!(back.message, "文件不存在");
    assert!(matches!(Response::parse("nospace"), Err(ProtocolError::InvalidResponse(t)) if t == "nospace"));
    assert!(matches!(Response::parse(" 70000 big "), Err(ProtocolError::InvalidResponse(t)) if t == "70000 big"));
    assert!(matches!(Response::parse("abc def"), Err(ProtocolError::InvalidResponse(_))));
    let multi = Response::parse("200 a\nb").unwrap();
    assert_eq!(multi.message, "a\nb");
}

#[test]
fn response_codes() {
    let codes = [
        (ResponseCode::DataConnectionOpening, 150),
        (ResponseCode::CommandOk, 200),
        (ResponseCode::ServiceReady, 220),
        (ResponseCode::ConnectionClosing, 221),
        (ResponseCode::TransferComplete, 226),
        (ResponseCode::LoginSuccessful, 230),
        (ResponseCode::FileActionOk, 250),
        (ResponseCode::PathCreated, 257),
        (ResponseCode::PasswordRequired, 331),
        (ResponseCode::FileStatus, 213),
        (ResponseCode::SyntaxError, 501),
        (ResponseCode::NotImplemented, 502),
        (ResponseCode::LoginFailed, 530),
        (ResponseCode::FileNotFound, 550),
    ];
    for (c, n) in codes {
        assert_eq!(c.value(), n);
    }
}

#[test]
fn transfer_ready_only_on_150() {
    assert!(Response::new(ResponseCode::DataConnectionOpening, "ok").transfer_ready().is_ok());
    assert_eq!(
        Response::new(ResponseCode::FileNotFound, "文件不存在").transfer_ready(),
        Err("文件不存在".to_string())
    );
}

#[test]
fn error_messages() {
    assert_eq!(ProtocolError::InvalidCommand("x".to_string()).message(), "无效命令: x");
    assert_eq!(ProtocolError::InvalidResponse("y".to_string()).message(), "无效响应: y");
    assert_eq!(ProtocolError::ConnectionClosed.message(), "连接已关闭");
    let io = ProtocolError::Io(std::io::Error::new(std::io::ErrorKind::Other, "boom"));
    assert_eq!(io.message(), "IO错误: boom");
}
