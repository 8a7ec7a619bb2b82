use quicftp::handler::{
    after_inspect, after_op, after_read_dir, handle_command, Completion, FsOp, Inspection,
    ListingEntry, PathInfo, Step,
};
use quicftp::protocol::{Command, Response};
use quicftp::session::Session;
use quicftp::user::{Permission, UsersFile};

fn users_with_alice() -> UsersFile {
    let mut users = UsersFile { users: Vec::new() };
    users
        .add_user("alice".to_string(), "secret", "/srv/alice".to_string(), vec![Permission::Read])
        .unwrap();
    users
}

fn logged_in() -> Session {
    let mut s = Session::new();
    s.set_user("alice".to_string(), "/srv/alice".to_string());
    s
}

fn reply_of(st: Step) -> Response {
    match st {
        Step::Reply(r) => r,
        _ => panic!("expected a reply"),
    }
}

fn info(exists: bool, is_file: bool, is_dir: bool, len: Result<u64, String>) -> PathInfo {
    PathInfo { exists, is_file, is_dir, len, parent_exists: Some(true) }
}

#[test]
fn commands_are_refused_before_login() {
    let users = UsersFile { users: Vec::new() };
    let cmds = vec![
        Command::List,
        Command::Get("f".to_string()),
        Command::Put("f".to_string(), 1),
        Command::Cd("d".to_string()),
        Command::Pwd,
        Command::Mkdir("d".to_string()),
        Command::Rmdir("d".to_string()),
        Command::Del("f".to_string()),
        Command::Ren { from: "a".to_string(), to: "b".to_string() },
        Command::Size("f".to_string()),
    ];
    for c in &cmds {
        let mut s = Session::new();
        let r = reply_of(handle_command(c, &mut s, &users));
        assert_eq!(r.format(), "530 请先登录");
        assert!(!s.is_authenticated());
    }
}

#[test]
fn login_flow_user_then_pass() {
    let users = users_with_alice();
    let mut s = Session::new();

    let r = reply_of(handle_command(&Command::Pass("secret".to_string()), &mut s, &users));
    assert_eq!(r.format(), "530 请先发送用户命令");

    let r = reply_of(handle_command(&Command::User("bob".to_string()), &mut s, &users));
    assert_eq!(r.format(), "530 未知用户");
    assert!(s.pending_username().is_none());

    let r = reply_of(handle_command(&Command::User("alice".to_string()), &mut s, &users));
    assert_eq!(r.format(), "331 请输入密码: alice");
    assert_eq!(s.pending_username(), Some("alice"));

    match handle_command(&Command::Pass("secret".to_string()), &mut s, &users) {
        Step::Perform(FsOp::CreateDirAll(home), Completion::Login(name)) => {
            assert_eq!(home, "/srv/alice");
            assert_eq!(name, "alice");
            let r = after_op(Completion::Login(name), Ok(()));
            assert_eq!(r.format(), "230 欢迎, alice");
        }
        _ => panic!("expected the home directory to be created"),
    }
    assert!(s.is_authenticated());
    assert_eq!(s.username(), Some("alice"));
    assert!(s.pending_username().is_none());
    assert_eq!(s.home_dir(), Some("/srv/alice"));
    assert_eq!(s.current_dir(), "/");
}

#[test]
fn wrong_password_clears_the_pending_name() {
    let users = users_with_alice();
    let mut s = Session::new();
    handle_command(&Command::User("alice".to_string()), &mut s, &users);
    let r = reply_of(handle_command(&Command::Pass("nope".to_string()), &mut s, &users));
    assert_eq!(r.format(), "530 登录失败");
    assert_eq!(s.pending_username(), Some(""));
    assert!(!s.is_authenticated());
    // the right password no longer helps without a new user command
    let r = reply_of(handle_command(&Command::Pass("secret".to_string()), &mut s, &users));
    assert_eq!(r.format(), "530 请先发送用户命令");
}

#[test]
fn login_failure_after_user_removed() {
    let mut users = users_with_alice();
    let mut s = Session::new();
    handle_command(&Command::User("alice".to_string()), &mut s, &users);
    assert!(users.remove_user("alice"));
    let r = reply_of(handle_command(&Command::Pass("secret".to_string()), &mut s, &users));
    assert_eq!(r.format(), "530 登录失败");
}

#[test]
fn login_completion_ignores_the_directory_outcome() {
    let r = after_op(Completion::Login("bob".to_string()), Err("denied".to_string()));
    assert_eq!(r.format(), "230 欢迎, bob");
}

#[test]
fn pwd_shows_the_current_directory() {
    let users = UsersFile { users: Vec::new() };
    let mut s = logged_in();
    assert_eq!(reply_of(handle_command(&Command::Pwd, &mut s, &users)).format(), "257 当前目录: /");
    s.set_current_dir("/docs".to_string());
    assert_eq!(reply_of(handle_command(&Command::Pwd, &mut s, &users)).format(), "257 当前目录: /docs");
}

#[test]
fn list_inspects_then_reads_the_directory() {
    let users = UsersFile { users: Vec::new() };
    let mut s = logged_in();
    match handle_command(&Command::List, &mut s, &users) {
        Step::Inspect(p, Inspection::List) => {
            assert_eq!(p, "/srv/alice/");
            let missing = reply_of(after_inspect(Inspection::List, p.clone(), &info(false, false, false, Ok(0)), &mut s));
            assert_eq!(missing.format(), "550 目录不存在");
            match after_inspect(Inspection::List, p.clone(), &info(true, false, true, Ok(0)), &mut s) {
                Step::ReadDir(d) => assert_eq!(d, p),
                _ => panic!("expected a directory read"),
            }
        }
        _ => panic!("expected an inspection"),
    }
}

#[test]
fn listing_lines_are_formatted() {
    let entries = vec![
        ListingEntry { name: "readme.txt".to_string(), is_dir: false, size: 44 },
        ListingEntry { name: "documents".to_string(), is_dir: true, size: 4096 },
    ];
    let r = after_read_dir(Ok(entries));
    assert_eq!(r.code, 200);
    assert_eq!(r.message, "📄         44 字节  readme.txt\n📁 <目录> documents");

    let big = vec![ListingEntry { name: "x".to_string(), is_dir: false, size: 12345678901 }];
    assert_eq!(after_read_dir(Ok(big)).message, "📄 12345678901 字节  x");

    assert_eq!(after_read_dir(Ok(Vec::new())).format(), "200 (空目录)");
    assert_eq!(after_read_dir(Err("denied".to_string())).format(), "550 无法读取目录: denied");
}

#[test]
fn get_checks_the_file() {
    let users = UsersFile { users: Vec::new() };
    let mut s = logged_in();
    match handle_command(&Command::Get("a.txt".to_string()), &mut s, &users) {
        Step::Inspect(p, Inspection::Get { path }) => {
            assert_eq!(p, "/srv/alice/a.txt");
            assert_eq!(path, "a.txt");
        }
        _ => panic!("expected an inspection"),
    }
    let get = || Inspection::Get { path: "a.txt".to_string() };
    let p = "/srv/alice/a.txt".to_string();
    assert_eq!(reply_of(after_inspect(get(), p.clone(), &info(false, false, false, Ok(0)), &mut s)).format(), "550 文件不存在");
    assert_eq!(reply_of(after_inspect(get(), p.clone(), &info(true, false, true, Ok(0)), &mut s)).format(), "550 不是文件");
    assert_eq!(reply_of(after_inspect(get(), p.clone(), &info(true, true, false, Ok(44)), &mut s)).format(), "150 准备下载 a.txt (44 字节)");
    assert_eq!(reply_of(after_inspect(get(), p, &info(true, true, false, Err("x".to_string())), &mut s)).format(), "150 准备下载 a.txt (0 字节)");
}

#[test]
fn put_checks_the_parent() {
    let users = UsersFile { users: Vec::new() };
    let mut s = logged_in();
    match handle_command(&Command::Put("sub/b.bin".to_string(), 1024), &mut s, &users) {
        Step::Inspect(p, Inspection::Put { path, size }) => {
            assert_eq!(p, "/srv/alice/sub/b.bin");
            assert_eq!(path, "sub/b.bin");
            assert_eq!(size, 1024);
        }
        _ => panic!("expected an inspection"),
    }
    let put = || Inspection::Put { path: "sub/b.bin".to_string(), size: 1024 };
    let p = "/srv/alice/sub/b.bin".to_string();
    let mut no_parent = info(false, false, false, Ok(0));
    no_parent.parent_exists = Some(false);
    assert_eq!(reply_of(after_inspect(put(), p.clone(), &no_parent, &mut s)).format(), "550 父目录不存在");
    assert_eq!(reply_of(after_inspect(put(), p.clone(), &info(false, false, false, Ok(0)), &mut s)).format(), "150 准备上传 sub/b.bin (1024 字节)");
    let mut rootless = info(false, false, false, Ok(0));
    rootless.parent_exists = None;
    assert_eq!(reply_of(after_inspect(put(), p, &rootless, &mut s)).format(), "150 准备上传 sub/b.bin (1024 字节)");
}

#[test]
fn cd_moves_only_into_existing_directories() {
    let users = UsersFile { users: Vec::new() };
    let mut s = logged_in();
    let (p, insp) = match handle_command(&Command::Cd("docs".to_string()), &mut s, &users) {
        Step::Inspect(p, insp @ Inspection::Cd { .. }) => (p, insp),
        _ => panic!("expected an inspection"),
    };
    assert_eq!(p, "/srv/alice/docs");
    match &insp {
        Inspection::Cd { new_dir } => assert_eq!(new_dir, "/docs"),
        _ => unreachable!(),
    }
    let missing = reply_of(after_inspect(Inspection::Cd { new_dir: "/docs".to_string() }, p.clone(), &info(true, true, false, Ok(0)), &mut s));
    assert_eq!(missing.format(), "550 目录不存在");
    assert_eq!(s.current_dir(), "/");
    let ok = reply_of(after_inspect(insp, p, &info(true, false, true, Ok(0)), &mut s));
    assert_eq!(ok.format(), "200 目录已切换");
    assert_eq!(s.current_dir(), "/docs");

    let target = |s: &mut Session, arg: &str| match handle_command(&Command::Cd(arg.to_string()), s, &users) {
        Step::Inspect(p, Inspection::Cd { new_dir }) => (p, new_dir),
        _ => panic!("expected an inspection"),
    };
    assert_eq!(target(&mut s, "sub"), ("/srv/alice/docs/sub".to_string(), "/docs/sub".to_string()));
    assert_eq!(target(&mut s, ".."), ("/srv/alice/".to_string(), "/".to_string()));
    assert_eq!(target(&mut s, "/"), ("/srv/alice/".to_string(), "/".to_string()));
    assert_eq!(target(&mut s, "/etc"), ("/srv/alice/etc".to_string(), "/etc".to_string()));
    s.set_current_dir("/".to_string());
    assert_eq!(target(&mut s, "..").1, "/");
}

#[test]
fn mkdir_is_performed_at_once() {
    let users = UsersFile { users: Vec::new() };
    let mut s = logged_in();
    match handle_command(&Command::Mkdir("backup".to_string()), &mut s, &users) {
        Step::Perform(FsOp::CreateDirAll(p), Completion::Mkdir(arg)) => {
            assert_eq!(p, "/srv/alice/backup");
            assert_eq!(arg, "backup");
        }
        _ => panic!("expected a directory creation"),
    }
    assert_eq!(after_op(Completion::Mkdir("backup".to_string()), Ok(())).format(), "257 目录已创建: backup");
    assert_eq!(after_op(Completion::Mkdir("backup".to_string()), Err("e".to_string())).format(), "550 无法创建目录: e");
}

#[test]
fn rmdir_and_del_check_the_kind() {
    let users = UsersFile { users: Vec::new() };
    let mut s = logged_in();
    match handle_command(&Command::Rmdir("old".to_string()), &mut s, &users) {
        Step::Inspect(p, Inspection::Rmdir) => assert_eq!(p, "/srv/alice/old"),
        _ => panic!("expected an inspection"),
    }
    let p = "/srv/alice/old".to_string();
    assert_eq!(reply_of(after_inspect(Inspection::Rmdir, p.clone(), &info(false, false, false, Ok(0)), &mut s)).format(), "550 目录不存在");
    assert_eq!(reply_of(after_inspect(Inspection::Rmdir, p.clone(), &info(true, true, false, Ok(0)), &mut s)).format(), "550 不是目录");
    match after_inspect(Inspection::Rmdir, p.clone(), &info(true, false, true, Ok(0)), &mut s) {
        Step::Perform(FsOp::RemoveDir(d), Completion::Rmdir) => assert_eq!(d, p),
        _ => panic!("expected a removal"),
    }
    assert_eq!(after_op(Completion::Rmdir, Ok(())).format(), "250 目录已删除");
    assert_eq!(after_op(Completion::Rmdir, Err("busy".to_string())).format(), "550 无法删除目录: busy");

    match handle_command(&Command::Del("t.txt".to_string()), &mut s, &users) {
        Step::Inspect(p, Inspection::Del) => assert_eq!(p, "/srv/alice/t.txt"),
        _ => panic!("expected an inspection"),
    }
    let f = "/srv/alice/t.txt".to_string();
    assert_eq!(reply_of(after_inspect(Inspection::Del, f.clone(), &info(false, false, false, Ok(0)), &mut s)).format(), "550 文件不存在");
    assert_eq!(reply_of(after_inspect(Inspection::Del, f.clone(), &info(true, false, true, Ok(0)), &mut s)).format(), "550 不是文件");
    match after_inspect(Inspection::Del, f.clone(), &info(true, true, false, Ok(3)), &mut s) {
        Step::Perform(FsOp::RemoveFile(x), Completion::Del) => assert_eq!(x, f),
        _ => panic!("expected a removal"),
    }
    assert_eq!(after_op(Completion::Del, Ok(())).format(), "250 文件已删除");
    assert_eq!(after_op(Completion::Del, Err("ro".to_string())).format(), "550 无法删除文件: ro");
}

#[test]
fn rename_resolves_both_names() {
    let users = UsersFile { users: Vec::new() };
    let mut s = logged_in();
    s.set_current_dir("/d".to_string());
    let cmd = Command::Ren { from: "old.txt".to_string(), to: "../new.txt".to_string() };
    match handle_command(&cmd, &mut s, &users) {
        Step::Inspect(p, Inspection::Ren { to }) => {
            assert_eq!(p, "/srv/alice/d/old.txt");
            assert_eq!(to, "/srv/alice/new.txt");
        }
        _ => panic!("expected an inspection"),
    }
    let ren = || Inspection::Ren { to: "/srv/alice/new.txt".to_string() };
    let p = "/srv/alice/d/old.txt".to_string();
    assert_eq!(reply_of(after_inspect(ren(), p.clone(), &info(false, false, false, Ok(0)), &mut s)).format(), "550 源文件不存在");
    match after_inspect(ren(), p.clone(), &info(true, false, true, Ok(0)), &mut s) {
        Step::Perform(FsOp::Rename(a, b), Completion::Ren) => {
            assert_eq!(a, p);
            assert_eq!(b, "/srv/alice/new.txt");
        }
        _ => panic!("expected a rename"),
    }
    assert_eq!(after_op(Completion::Ren, Ok(())).format(), "250 文件已重命名");
    assert_eq!(after_op(Completion::Ren, Err("x".to_string())).format(), "550 无法重命名: x");
}

#[test]
fn size_reports_the_length() {
    let users = UsersFile { users: Vec::new() };
    let mut s = logged_in();
    match handle_command(&Command::Size("v.mp4".to_string()), &mut s, &users) {
        Step::Inspect(p, Inspection::Size) => assert_eq!(p, "/srv/alice/v.mp4"),
        _ => panic!("expected an inspection"),
    }
    let p = "/srv/alice/v.mp4".to_string();
    assert_eq!(reply_of(after_inspect(Inspection::Size, p.clone(), &info(false, false, false, Ok(0)), &mut s)).format(), "550 文件不存在");
    assert_eq!(reply_of(after_inspect(Inspection::Size, p.clone(), &info(true, true, false, Ok(1024)), &mut s)).format(), "213 1024 字节");
    assert_eq!(reply_of(after_inspect(Inspection::Size, p.clone(), &info(true, false, true, Ok(0)), &mut s)).format(), "213 0 字节");
    assert_eq!(reply_of(after_inspect(Inspection::Size, p, &info(true, true, false, Err("io".to_string())), &mut s)).format(), "550 无法获取大小: io");
}

#[test]
fn paths_stay_inside_home() {
    let users = UsersFile { users: Vec::new() };
    let mut s = logged_in();
    match handle_command(&Command::Get("../../etc/passwd".to_string()), &mut s, &users) {
        Step::Inspect(p, _) => assert_eq!(p, "/srv/alice/etc/passwd"),
        _ => panic!("expected an inspection"),
    }
}
