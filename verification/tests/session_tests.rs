use quicftp::framing::{read_size_prefix, size_prefix};
use quicftp::protocol::{Command, ResponseCode};
use quicftp::session::{interpret_request, transfer_after, upload_complete, welcome_banner, Request, Session, Transfer};

#[test]
fn fresh_session_is_not_logged_in() {
    let s = Session::new();
    assert!(!s.is_authenticated());
    assert!(s.username().is_none());
    assert!(s.pending_username().is_none());
    assert!(s.home_dir().is_none());
    assert_eq!(s.current_dir(), "");
    assert!(s.full_path("a").is_none());
}

#[test]
fn set_user_logs_in_at_root() {
    let mut s = Session::new();
    s.set_pending_username("alice".to_string());
    assert_eq!(s.pending_username(), Some("alice"));
    s.set_user("alice".to_string(), "/srv/alice".to_string());
    assert!(s.is_authenticated());
    assert_eq!(s.username(), Some("alice"));
    assert!(s.pending_username().is_none());
    assert_eq!(s.home_dir(), Some("/srv/alice"));
    assert_eq!(s.current_dir(), "/");
}

#[test]
fn full_path_resolves_dots_inside_home() {
    let mut s = Session::new();
    s.set_user("u".to_string(), "/srv/u".to_string());
    assert_eq!(s.full_path("a.txt").unwrap(), "/srv/u/a.txt");
    assert_eq!(s.full_path("/x/./y//z/").unwrap(), "/srv/u/x/y/z");
    assert_eq!(s.full_path("../../etc/passwd").unwrap(), "/srv/u/etc/passwd");
    assert_eq!(s.full_path("a/../../b").unwrap(), "/srv/u/b");
    assert_eq!(s.full_path(".").unwrap(), "/srv/u/");
    assert_eq!(s.full_path("/").unwrap(), "/srv/u/");
    s.set_current_dir("/docs/2024".to_string());
    assert_eq!(s.full_path("r.pdf").unwrap(), "/srv/u/docs/2024/r.pdf");
    assert_eq!(s.full_path("..").unwrap(), "/srv/u/docs");
    assert_eq!(s.full_path("/top").unwrap(), "/srv/u/top");
}

#[test]
fn full_path_with_trailing_slash_home() {
    let mut s = Session::new();
    s.set_user("u".to_string(), "home/".to_string());
    assert_eq!(s.full_path("f").unwrap(), "home/f");
    assert_eq!(s.full_path("").unwrap(), "home/");
}

#[test]
fn requests_are_interpreted() {
    match interpret_request("退出") {
        Request::Quit(r) => {
            assert_eq!(r.code, 221);
            assert_eq!(r.message, "再见");
        }
        _ => panic!("expected quit"),
    }
    match interpret_request("FOO") {
        Request::Invalid(r) => {
            assert_eq!(r.code, 501);
            assert_eq!(r.message, "无效命令: 未知命令: FOO");
        }
        _ => panic!("expected invalid"),
    }
    match interpret_request("REN a") {
        Request::Invalid(r) => {
            assert_eq!(r.format(), "501 无效命令: 无效命令: 重命名需要两个参数: 重命名 <原文件名> <新文件名>");
        }
        _ => panic!("expected invalid"),
    }
    assert!(matches!(interpret_request("LIST"), Request::Command(Command::List)));
}

#[test]
fn banner_and_upload_complete() {
    assert_eq!(welcome_banner().format(), "220 欢迎使用 QuicFTP 服务器");
    assert_eq!(upload_complete("a.txt", 1024).format(), "226 上传完成: a.txt (1024 字节)");
}

#[test]
fn transfers_follow_150_only() {
    let mut s = Session::new();
    s.set_user("u".to_string(), "/h".to_string());
    let ok = quicftp::protocol::Response::new(ResponseCode::DataConnectionOpening, "准备");
    let no = quicftp::protocol::Response::new(ResponseCode::FileNotFound, "文件不存在");
    assert!(matches!(transfer_after(&Command::Get("f".to_string()), &ok, &s), Transfer::SendFile(p) if p == "/h/f"));
    assert!(matches!(transfer_after(&Command::Get("f".to_string()), &no, &s), Transfer::Nothing));
    assert!(matches!(
        transfer_after(&Command::Put("g".to_string(), 3), &ok, &s),
        Transfer::ReceiveFile(p, n) if p == "/h/g" && n == "g"
    ));
    assert!(matches!(transfer_after(&Command::List, &ok, &s), Transfer::Nothing));
}

#[test]
fn size_prefix_is_big_endian_and_round_trips() {
    assert_eq!(size_prefix(0x0102030405060708), [1, 2, 3, 4, 5, 6, 7, 8]);
    assert_eq!(size_prefix(44), 44u64.to_be_bytes());
    for n in [0u64, 1, 255, 256, 65535, 1 << 40, u64::MAX] {
        assert_eq!(read_size_prefix(size_prefix(n)), n);
    }
    assert_eq!(read_size_prefix([0xff; 8]), u64::MAX);
}
