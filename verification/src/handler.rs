//! The server's command handlers as a state machine over the session.
//!
//! A command is handled in steps. [`handle_command`] decides from the
//! command, the session and the users what to do: reply at once, or ask the
//! caller to inspect a path on disk, read a directory, or carry out a file
//! operation. The caller does that work and hands its outcome to
//! [`after_inspect`], [`after_read_dir`] or [`after_op`], which decide the
//! next step or the response.
use vstd::prelude::*;

use crate::path::{join_path, join_paths, parent_of, path_parent};
use crate::protocol::{Command, CommandView, Response, ResponseCode};
use crate::session::{full_path_of, Session, SessionView};
use crate::text::{decimal_digits, join, pad_left, push_char, push_decimal, push_decimal_padded};
use crate::user::{
    argon2_accepts, lemma_lookup_named, lookup, phc_string_valid, verify_password, UserView,
    UsersFile,
};

verus! {

/// What the caller found out about a path on disk.
pub struct PathInfo {
    /// Whether the path exists.
    pub exists: bool,
    /// Whether it is a regular file.
    pub is_file: bool,
    /// Whether it is a directory.
    pub is_dir: bool,
    /// Its length in bytes from its metadata, or the error reading them.
    pub len: Result<u64, String>,
    /// Whether its parent directory exists (`None` for a path without parent).
    pub parent_exists: Option<bool>,
}

/// One entry of a directory as the caller read it.
pub struct ListingEntry {
    pub name: String,
    pub is_dir: bool,
    pub size: u64,
}

/// What a handler does with the facts about the path it asked to inspect.
pub enum Inspection {
    /// List the directory (the current one).
    List,
    /// Offer the file for download; `path` is the client's name for it.
    Get { path: String },
    /// Accept an upload; `path` is the client's name for it.
    Put { path: String, size: u64 },
    /// Change into the directory; `new_dir` becomes the current directory.
    Cd { new_dir: String },
    /// Remove the directory.
    Rmdir,
    /// Delete the file.
    Del,
    /// Rename the file to the path `to` on disk.
    Ren { to: String },
    /// Report the file's size.
    Size,
}

/// A file operation for the caller to carry out.
pub enum FsOp {
    /// Create a directory and its missing parents.
    CreateDirAll(String),
    /// Remove an empty directory.
    RemoveDir(String),
    /// Delete a file.
    RemoveFile(String),
    /// Rename the first path to the second.
    Rename(String, String),
}

/// What a handler answers once a file operation is done.
pub enum Completion {
    /// The user of this name has logged in (its home directory was created).
    Login(String),
    /// A directory was created; the client's name for it.
    Mkdir(String),
    Rmdir,
    Del,
    Ren,
}

/// The next step of handling a command.
pub enum Step {
    /// Send this response.
    Reply(Response),
    /// Inspect this path on disk and pass what was found to [`after_inspect`].
    Inspect(String, Inspection),
    /// Read this directory and pass the entries to [`after_read_dir`].
    ReadDir(String),
    /// Carry out this operation and pass its outcome to [`after_op`].
    Perform(FsOp, Completion),
}

/// `st` is the response with this code and message.
pub open spec fn is_reply(st: Step, code: u16, message: Seq<char>) -> bool {
    st matches Step::Reply(r) && r.code == code && r.message@ == message
}

/// `r` is the response with this code and message.
pub open spec fn response_is(r: Response, code: u16, message: Seq<char>) -> bool {
    r.code == code && r.message@ == message
}

/// The directory that a change of directory to `path` leads to from
/// `current`: `/` for `/`, the parent (or `/`) for `..`, otherwise `path`
/// joined to `current`.
pub open spec fn cd_target(current: Seq<char>, path: Seq<char>) -> Seq<char> {
    if path == "/"@ {
        "/"@
    } else if path == ".."@ {
        match path_parent(current) {
            Some(p) => p,
            None => "/"@,
        }
    } else {
        join_path(current, path)
    }
}

/// The path on disk for `rel` in a session with a home directory.
pub open spec fn disk_path(s: SessionView, rel: Seq<char>) -> Seq<char> {
    full_path_of(s.home_dir.unwrap(), s.current_dir, rel)
}

/// The line a listing shows for one entry.
pub open spec fn entry_line(name: Seq<char>, is_dir: bool, size: u64) -> Seq<char> {
    if is_dir {
        "📁 <目录> "@ + name
    } else {
        "📄 "@ + pad_left(decimal_digits(size as nat), 10) + " 字节  "@ + name
    }
}

/// The lines of a listing.
pub open spec fn listing_lines(entries: Seq<ListingEntry>) -> Seq<Seq<char>> {
    Seq::new(
        entries.len(),
        |i: int| entry_line(entries[i].name@, entries[i].is_dir, entries[i].size),
    )
}

/// `text` followed by ` (<n> 字节)`.
pub open spec fn with_size(text: Seq<char>, n: u64) -> Seq<char> {
    text + " ("@ + decimal_digits(n as nat) + " 字节)"@
}

// ---------------------------------------------------------------------------
// Outcomes of each handler
// ---------------------------------------------------------------------------

/// The user command: a known name becomes the pending user name.
pub open spec fn user_handled(
    name: Seq<char>,
    users: Seq<UserView>,
    s0: SessionView,
    s1: SessionView,
    st: Step,
) -> bool {
    if lookup(users, name) is Some {
        &&& s1 == SessionView { pending_username: Some(name), ..s0 }
        &&& is_reply(st, 331, "请输入密码: "@ + name)
    } else {
        &&& s1 == s0
        &&& is_reply(st, 530, "未知用户"@)
    }
}

/// The password command: it logs in the pending user when the password
/// verifies against that user's stored hash; the home directory is then
/// created. A wrong password clears the pending name to the empty name.
pub open spec fn pass_handled(
    password: Seq<char>,
    users: Seq<UserView>,
    s0: SessionView,
    s1: SessionView,
    st: Step,
) -> bool {
    match s0.pending_username {
        Some(name) if name.len() > 0 => match lookup(users, name) {
            Some(u) if phc_string_valid(u.password_hash) && argon2_accepts(
                password,
                u.password_hash,
            ) => {
                &&& s1 == SessionView {
                    username: Some(u.username),
                    pending_username: None,
                    home_dir: Some(u.home_dir),
                    current_dir: seq!['/'],
                }
                &&& st matches Step::Perform(FsOp::CreateDirAll(h), Completion::Login(n))
                &&& h@ == u.home_dir
                &&& n@ == u.username
            },
            _ => {
                &&& s1 == SessionView { pending_username: Some(Seq::empty()), ..s0 }
                &&& is_reply(st, 530, "登录失败"@)
            },
        },
        _ => {
            &&& s1 == s0
            &&& is_reply(st, 530, "请先发送用户命令"@)
        },
    }
}

/// A command that needs a login, refused without one.
pub open spec fn refused_without_login(s0: SessionView, s1: SessionView, st: Step) -> bool {
    &&& s0.username is None
    &&& s1 == s0
    &&& is_reply(st, 530, "请先登录"@)
}

/// The first step of each command (other than quitting).
pub open spec fn command_handled(
    c: CommandView,
    users: Seq<UserView>,
    s0: SessionView,
    s1: SessionView,
    st: Step,
) -> bool {
    match c {
        CommandView::User(name) => user_handled(name, users, s0, s1, st),
        CommandView::Pass(password) => pass_handled(password, users, s0, s1, st),
        _ => if s0.username is None {
            refused_without_login(s0, s1, st)
        } else {
            &&& s1 == s0
            &&& s0.home_dir is Some
            &&& match c {
                CommandView::List => st matches Step::Inspect(p, Inspection::List) && p@
                    == disk_path(s0, "."@),
                CommandView::Get(path) => st matches Step::Inspect(p, Inspection::Get { path: a })
                    && p@ == disk_path(s0, path) && a@ == path,
                CommandView::Put(path, size) => st matches Step::Inspect(
                    p,
                    Inspection::Put { path: a, size: n },
                ) && p@ == disk_path(s0, path) && a@ == path && n == size,
                CommandView::Cd(path) => st matches Step::Inspect(p, Inspection::Cd { new_dir })
                    && p@ == disk_path(s0, path) && new_dir@ == cd_target(s0.current_dir, path),
                CommandView::Pwd => is_reply(st, 257, "当前目录: "@ + s0.current_dir),
                CommandView::Mkdir(path) => st matches Step::Perform(
                    FsOp::CreateDirAll(p),
                    Completion::Mkdir(a),
                ) && p@ == disk_path(s0, path) && a@ == path,
                CommandView::Rmdir(path) => st matches Step::Inspect(p, Inspection::Rmdir) && p@
                    == disk_path(s0, path),
                CommandView::Del(path) => st matches Step::Inspect(p, Inspection::Del) && p@
                    == disk_path(s0, path),
                CommandView::Ren(from, to) => st matches Step::Inspect(p, Inspection::Ren { to: t })
                    && p@ == disk_path(s0, from) && t@ == disk_path(s0, to),
                CommandView::Size(path) => st matches Step::Inspect(p, Inspection::Size) && p@
                    == disk_path(s0, path),
                _ => false,
            }
        },
    }
}

/// What a handler does with the facts `info` about the path on disk `path`
/// that it asked to inspect.
pub open spec fn inspection_handled(
    insp: Inspection,
    path: Seq<char>,
    info: PathInfo,
    s0: SessionView,
    s1: SessionView,
    st: Step,
) -> bool {
    match insp {
        Inspection::Cd { new_dir } => if info.exists && info.is_dir {
            &&& s1 == SessionView { current_dir: new_dir@, ..s0 }
            &&& is_reply(st, 200, "目录已切换"@)
        } else {
            &&& s1 == s0
            &&& is_reply(st, 550, "目录不存在"@)
        },
        _ => {
            &&& s1 == s0
            &&& match insp {
                Inspection::List => if !info.exists {
                    is_reply(st, 550, "目录不存在"@)
                } else {
                    st matches Step::ReadDir(p) && p@ == path
                },
                Inspection::Get { path: a } => if !info.exists {
                    is_reply(st, 550, "文件不存在"@)
                } else if !info.is_file {
                    is_reply(st, 550, "不是文件"@)
                } else {
                    is_reply(
                        st,
                        150,
                        with_size(
                            "准备下载 "@ + a@,
                            match info.len {
                                Ok(n) => n,
                                Err(_) => 0,
                            },
                        ),
                    )
                },
                Inspection::Put { path: a, size } => if info.parent_exists == Some(false) {
                    is_reply(st, 550, "父目录不存在"@)
                } else {
                    is_reply(st, 150, with_size("准备上传 "@ + a@, size))
                },
                Inspection::Rmdir => if !info.exists {
                    is_reply(st, 550, "目录不存在"@)
                } else if !info.is_dir {
                    is_reply(st, 550, "不是目录"@)
                } else {
                    st matches Step::Perform(FsOp::RemoveDir(p), Completion::Rmdir) && p@ == path
                },
                Inspection::Del => if !info.exists {
                    is_reply(st, 550, "文件不存在"@)
                } else if !info.is_file {
                    is_reply(st, 550, "不是文件"@)
                } else {
                    st matches Step::Perform(FsOp::RemoveFile(p), Completion::Del) && p@ == path
                },
                Inspection::Ren { to } => if !info.exists {
                    is_reply(st, 550, "源文件不存在"@)
                } else {
                    st matches Step::Perform(FsOp::Rename(p, t), Completion::Ren) && p@ == path
                        && t@ == to@
                },
                Inspection::Size => if !info.exists {
                    is_reply(st, 550, "文件不存在"@)
                } else {
                    match info.len {
                        Ok(n) => is_reply(st, 213, decimal_digits(n as nat) + " 字节"@),
                        Err(e) => is_reply(st, 550, "无法获取大小: "@ + e@),
                    }
                },
                _ => false,
            }
        },
    }
}

/// The response to a directory listing, given the entries read (or the
/// error reading them).
pub open spec fn listing_response(entries: Result<Vec<ListingEntry>, String>, r: Response) -> bool {
    match entries {
        Err(e) => response_is(r, 550, "无法读取目录: "@ + e@),
        Ok(es) => if es@.len() == 0 {
            response_is(r, 200, "(空目录)"@)
        } else {
            response_is(r, 200, join(listing_lines(es@), seq!['\n']))
        },
    }
}

/// The response once a file operation is done, given its outcome.
pub open spec fn completion_response(c: Completion, result: Result<(), String>, r: Response) -> bool {
    match c {
        Completion::Login(n) => response_is(r, 230, "欢迎, "@ + n@),
        Completion::Mkdir(a) => match result {
            Ok(_) => response_is(r, 257, "目录已创建: "@ + a@),
            Err(e) => response_is(r, 550, "无法创建目录: "@ + e@),
        },
        Completion::Rmdir => match result {
            Ok(_) => response_is(r, 250, "目录已删除"@),
            Err(e) => response_is(r, 550, "无法删除目录: "@ + e@),
        },
        Completion::Del => match result {
            Ok(_) => response_is(r, 250, "文件已删除"@),
            Err(e) => response_is(r, 550, "无法删除文件: "@ + e@),
        },
        Completion::Ren => match result {
            Ok(_) => response_is(r, 250, "文件已重命名"@),
            Err(e) => response_is(r, 550, "无法重命名: "@ + e@),
        },
    }
}

// ---------------------------------------------------------------------------
// Handlers
// ---------------------------------------------------------------------------

/// Appends ` (<n> 字节)`.
fn push_size_note(s: &mut String, n: u64)
    ensures
        final(s)@ == with_size(old(s)@, n),
{
    s.append(" (");
    push_decimal(s, n);
    s.append(" 字节)");
}

/// The message `prefix` followed by `detail`.
fn message_with(prefix: &str, detail: &str) -> (m: String)
    ensures
        m@ == prefix@ + detail@,
{
    let mut m = prefix.to_owned();
    m.append(detail);
    m
}

/// The directory that changing to `path` from `current` leads to.
fn cd_target_of(current: &str, path: &str) -> (r: String)
    ensures
        r@ == cd_target(current@, path@),
{
    if crate::text::same_text(path, "/") {
        "/".to_owned()
    } else if crate::text::same_text(path, "..") {
        match parent_of(current) {
            Some(p) => p,
            None => "/".to_owned(),
        }
    } else {
        join_paths(current, path)
    }
}

/// The first step of a logged-in command on the client path `rel`: refused
/// without a login, otherwise the path on disk for `rel`.
fn logged_in_path(session: &Session, rel: &str) -> (r: Result<String, Step>)
    ensures
        session@.username is None ==> (r matches Err(st) && is_reply(st, 530, "请先登录"@)),
        session@.username is Some ==> session@.home_dir is Some && (r matches Ok(p) && p@
            == disk_path(session@, rel@)),
{
    if !session.is_authenticated() {
        return Err(reply(ResponseCode::LoginFailed, "请先登录"));
    }
    match session.full_path(rel) {
        Some(p) => Ok(p),
        None => Err(reply(ResponseCode::FileNotFound, "无效路径")),
    }
}

fn reply(code: ResponseCode, message: &str) -> (st: Step)
    ensures
        st matches Step::Reply(r) && r.code == crate::protocol::code_value(code) && r.message@
            == message@,
{
    Step::Reply(Response::new(code, message))
}

fn handle_user(username: &String, session: &mut Session, users: &UsersFile) -> (st: Step)
    ensures
        user_handled(username@, users@, old(session)@, final(session)@, st),
{
    let known = match users.find_user(username.as_str()) {
        Some(_) => true,
        None => false,
    };
    if known {
        session.set_pending_username(username.as_str().to_owned());
        let mut m = String::from_str("请输入密码: ");
        m.append(username.as_str());
        reply(ResponseCode::PasswordRequired, m.as_str())
    } else {
        reply(ResponseCode::LoginFailed, "未知用户")
    }
}

fn handle_pass(password: &String, session: &mut Session, users: &UsersFile) -> (st: Step)
    ensures
        pass_handled(password@, users@, old(session)@, final(session)@, st),
{
    let pending = match session.pending_username() {
        Some(u) => Some(u.to_owned()),
        None => None,
    };
    let username = match pending {
        Some(u) => {
            if u.unicode_len() == 0 {
                return reply(ResponseCode::LoginFailed, "请先发送用户命令");
            }
            u
        },
        None => {
            return reply(ResponseCode::LoginFailed, "请先发送用户命令");
        },
    };
    let matched = match users.find_user(username.as_str()) {
        Some(user) => {
            let valid = match verify_password(password.as_str(), user.password_hash.as_str()) {
                Ok(b) => b,
                Err(_) => false,
            };
            if valid {
                Some((user.username.as_str().to_owned(), user.home_dir.as_str().to_owned()))
            } else {
                None
            }
        },
        None => None,
    };
    match matched {
        Some((name, home)) => {
            let login = name.as_str().to_owned();
            let dir = home.as_str().to_owned();
            session.set_user(name, home);
            Step::Perform(FsOp::CreateDirAll(dir), Completion::Login(login))
        },
        None => {
            session.set_pending_username(String::new());
            reply(ResponseCode::LoginFailed, "登录失败")
        },
    }
}

fn handle_list(session: &mut Session) -> (st: Step)
    ensures
        command_handled(CommandView::List, Seq::empty(), old(session)@, final(session)@, st),
{
    match logged_in_path(session, ".") {
        Err(st) => st,
        Ok(p) => Step::Inspect(p, Inspection::List),
    }
}

fn handle_get(path: &String, session: &mut Session) -> (st: Step)
    ensures
        command_handled(CommandView::Get(path@), Seq::empty(), old(session)@, final(session)@, st),
{
    match logged_in_path(session, path.as_str()) {
        Err(st) => st,
        Ok(p) => Step::Inspect(p, Inspection::Get { path: path.as_str().to_owned() }),
    }
}

fn handle_put(path: &String, size: u64, session: &mut Session) -> (st: Step)
    ensures
        command_handled(
            CommandView::Put(path@, size),
            Seq::empty(),
            old(session)@,
            final(session)@,
            st,
        ),
{
    match logged_in_path(session, path.as_str()) {
        Err(st) => st,
        Ok(p) => Step::Inspect(p, Inspection::Put { path: path.as_str().to_owned(), size }),
    }
}

fn handle_cd(path: &String, session: &mut Session) -> (st: Step)
    ensures
        command_handled(CommandView::Cd(path@), Seq::empty(), old(session)@, final(session)@, st),
{
    if !session.is_authenticated() {
        return reply(ResponseCode::LoginFailed, "请先登录");
    }
    let new_dir = cd_target_of(session.current_dir(), path.as_str());
    match session.full_path(path.as_str()) {
        Some(p) => Step::Inspect(p, Inspection::Cd { new_dir }),
        None => reply(ResponseCode::FileNotFound, "目录不存在"),
    }
}

fn handle_pwd(session: &mut Session) -> (st: Step)
    ensures
        command_handled(CommandView::Pwd, Seq::empty(), old(session)@, final(session)@, st),
{
    if !session.is_authenticated() {
        return reply(ResponseCode::LoginFailed, "请先登录");
    }
    let m = message_with("当前目录: ", session.current_dir());
    reply(ResponseCode::PathCreated, m.as_str())
}

fn handle_mkdir(path: &String, session: &mut Session) -> (st: Step)
    ensures
        command_handled(CommandView::Mkdir(path@), Seq::empty(), old(session)@, final(session)@, st),
{
    match logged_in_path(session, path.as_str()) {
        Err(st) => st,
        Ok(p) => Step::Perform(FsOp::CreateDirAll(p), Completion::Mkdir(path.as_str().to_owned())),
    }
}

fn handle_rmdir(path: &String, session: &mut Session) -> (st: Step)
    ensures
        command_handled(CommandView::Rmdir(path@), Seq::empty(), old(session)@, final(session)@, st),
{
    match logged_in_path(session, path.as_str()) {
        Err(st) => st,
        Ok(p) => Step::Inspect(p, Inspection::Rmdir),
    }
}

fn handle_del(path: &String, session: &mut Session) -> (st: Step)
    ensures
        command_handled(CommandView::Del(path@), Seq::empty(), old(session)@, final(session)@, st),
{
    match logged_in_path(session, path.as_str()) {
        Err(st) => st,
        Ok(p) => Step::Inspect(p, Inspection::Del),
    }
}

fn handle_ren(from: &String, to: &String, session: &mut Session) -> (st: Step)
    ensures
        command_handled(
            CommandView::Ren(from@, to@),
            Seq::empty(),
            old(session)@,
            final(session)@,
            st,
        ),
{
    if !session.is_authenticated() {
        return reply(ResponseCode::LoginFailed, "请先登录");
    }
    let from_path = match session.full_path(from.as_str()) {
        Some(p) => p,
        None => {
            return reply(ResponseCode::FileNotFound, "无效源路径");
        },
    };
    let to_path = match session.full_path(to.as_str()) {
        Some(p) => p,
        None => {
            return reply(ResponseCode::FileNotFound, "无效目标路径");
        },
    };
    Step::Inspect(from_path, Inspection::Ren { to: to_path })
}

fn handle_size(path: &String, session: &mut Session) -> (st: Step)
    ensures
        command_handled(CommandView::Size(path@), Seq::empty(), old(session)@, final(session)@, st),
{
    match logged_in_path(session, path.as_str()) {
        Err(st) => st,
        Ok(p) => Step::Inspect(p, Inspection::Size),
    }
}

/// The first step of handling a command (quitting is the session's own
/// business and never reaches a handler).
pub fn handle_command(command: &Command, session: &mut Session, users: &UsersFile) -> (st: Step)
    requires
        !(command@ is Quit),
    ensures
        command_handled(command@, users@, old(session)@, final(session)@, st),
{
    match command {
        Command::User(username) => handle_user(username, session, users),
        Command::Pass(password) => handle_pass(password, session, users),
        Command::List => handle_list(session),
        Command::Get(path) => handle_get(path, session),
        Command::Put(path, size) => handle_put(path, *size, session),
        Command::Cd(path) => handle_cd(path, session),
        Command::Pwd => handle_pwd(session),
        Command::Mkdir(path) => handle_mkdir(path, session),
        Command::Rmdir(path) => handle_rmdir(path, session),
        Command::Del(path) => handle_del(path, session),
        Command::Ren { from, to } => handle_ren(from, to, session),
        Command::Size(path) => handle_size(path, session),
        Command::Quit => {
            // excluded by the precondition
            proof {
                assert(false);
            }
            reply(ResponseCode::ConnectionClosing, "")
        },
    }
}

/// The step after the path on disk `path` was inspected for `inspection`.
pub fn after_inspect(inspection: Inspection, path: String, info: &PathInfo, session: &mut Session) -> (st: Step)
    ensures
        inspection_handled(inspection, path@, *info, old(session)@, final(session)@, st),
{
    match inspection {
        Inspection::List => if !info.exists {
            reply(ResponseCode::FileNotFound, "目录不存在")
        } else {
            Step::ReadDir(path)
        },
        Inspection::Get { path: arg } => if !info.exists {
            reply(ResponseCode::FileNotFound, "文件不存在")
        } else if !info.is_file {
            reply(ResponseCode::FileNotFound, "不是文件")
        } else {
            let size = match &info.len {
                Ok(n) => *n,
                Err(_) => 0,
            };
            let mut m = message_with("准备下载 ", arg.as_str());
            push_size_note(&mut m, size);
            reply(ResponseCode::DataConnectionOpening, m.as_str())
        },
        Inspection::Put { path: arg, size } => if info.parent_exists == Some(false) {
            reply(ResponseCode::FileNotFound, "父目录不存在")
        } else {
            let mut m = message_with("准备上传 ", arg.as_str());
            push_size_note(&mut m, size);
            reply(ResponseCode::DataConnectionOpening, m.as_str())
        },
        Inspection::Cd { new_dir } => if info.exists && info.is_dir {
            session.set_current_dir(new_dir);
            reply(ResponseCode::CommandOk, "目录已切换")
        } else {
            reply(ResponseCode::FileNotFound, "目录不存在")
        },
        Inspection::Rmdir => if !info.exists {
            reply(ResponseCode::FileNotFound, "目录不存在")
        } else if !info.is_dir {
            reply(ResponseCode::FileNotFound, "不是目录")
        } else {
            Step::Perform(FsOp::RemoveDir(path), Completion::Rmdir)
        },
        Inspection::Del => if !info.exists {
            reply(ResponseCode::FileNotFound, "文件不存在")
        } else if !info.is_file {
            reply(ResponseCode::FileNotFound, "不是文件")
        } else {
            Step::Perform(FsOp::RemoveFile(path), Completion::Del)
        },
        Inspection::Ren { to } => if !info.exists {
            reply(ResponseCode::FileNotFound, "源文件不存在")
        } else {
            Step::Perform(FsOp::Rename(path, to), Completion::Ren)
        },
        Inspection::Size => if !info.exists {
            reply(ResponseCode::FileNotFound, "文件不存在")
        } else {
            match &info.len {
                Ok(n) => {
                    let mut m = String::new();
                    push_decimal(&mut m, *n);
                    m.append(" 字节");
                    reply(ResponseCode::FileStatus, m.as_str())
                },
                Err(e) => {
                    let m = message_with("无法获取大小: ", e.as_str());
                    reply(ResponseCode::FileNotFound, m.as_str())
                },
            }
        },
    }
}

/// Appends the listing line of one entry.
fn push_entry_line(s: &mut String, e: &ListingEntry)
    ensures
        final(s)@ == old(s)@ + entry_line(e.name@, e.is_dir, e.size),
{
    if e.is_dir {
        s.append("📁 <目录> ");
        s.append(e.name.as_str());
    } else {
        s.append("📄 ");
        push_decimal_padded(s, e.size, 10);
        s.append(" 字节  ");
        s.append(e.name.as_str());
    }
}

/// The response to listing a directory, from the entries read or the error
/// reading them.
pub fn after_read_dir(entries: Result<Vec<ListingEntry>, String>) -> (r: Response)
    ensures
        listing_response(entries, r),
{
    match &entries {
        Err(e) => {
            let m = message_with("无法读取目录: ", e.as_str());
            Response::new(ResponseCode::FileNotFound, m.as_str())
        },
        Ok(es) => {
            if es.len() == 0 {
                return Response::new(ResponseCode::CommandOk, "(空目录)");
            }
            let ghost lines = listing_lines(es@);
            let mut m = String::new();
            let mut k: usize = 0;
            while k < es.len()
                invariant
                    k <= es@.len(),
                    lines == listing_lines(es@),
                    m@ == join(lines.take(k as int), seq!['\n']),
                decreases es@.len() - k,
            {
                if k > 0 {
                    push_char(&mut m, '\n');
                }
                let ghost before = m@;
                push_entry_line(&mut m, &es[k]);
                proof {
                    let t = lines.take(k + 1);
                    assert(t.drop_last() =~= lines.take(k as int));
                    assert(t.last() == lines[k as int]);
                    if k == 0 {
                        assert(join(t, seq!['\n']) == t[0]);
                        assert(lines.take(0) =~= Seq::<Seq<char>>::empty());
                    }
                }
                k = k + 1;
                assert(m@ =~= join(lines.take(k as int), seq!['\n']));
            }
            assert(lines.take(es@.len() as int) =~= lines);
            Response::new(ResponseCode::CommandOk, m.as_str())
        },
    }
}

/// The response once a file operation is done.
pub fn after_op(completion: Completion, result: Result<(), String>) -> (r: Response)
    ensures
        completion_response(completion, result, r),
{
    match completion {
        Completion::Login(name) => {
            let m = message_with("欢迎, ", name.as_str());
            Response::new(ResponseCode::LoginSuccessful, m.as_str())
        },
        Completion::Mkdir(arg) => match &result {
            Ok(_) => {
                let m = message_with("目录已创建: ", arg.as_str());
                Response::new(ResponseCode::PathCreated, m.as_str())
            },
            Err(e) => {
                let m = message_with("无法创建目录: ", e.as_str());
                Response::new(ResponseCode::FileNotFound, m.as_str())
            },
        },
        Completion::Rmdir => match &result {
            Ok(_) => Response::new(ResponseCode::FileActionOk, "目录已删除"),
            Err(e) => {
                let m = message_with("无法删除目录: ", e.as_str());
                Response::new(ResponseCode::FileNotFound, m.as_str())
            },
        },
        Completion::Del => match &result {
            Ok(_) => Response::new(ResponseCode::FileActionOk, "文件已删除"),
            Err(e) => {
                let m = message_with("无法删除文件: ", e.as_str());
                Response::new(ResponseCode::FileNotFound, m.as_str())
            },
        },
        Completion::Ren => match &result {
            Ok(_) => Response::new(ResponseCode::FileActionOk, "文件已重命名"),
            Err(e) => {
                let m = message_with("无法重命名: ", e.as_str());
                Response::new(ResponseCode::FileNotFound, m.as_str())
            },
        },
    }
}

// ---------------------------------------------------------------------------
// Laws
// ---------------------------------------------------------------------------

/// The password `password` logs the pending user of `s0` in: a user of that
/// (nonempty) name is known, its stored hash is a PHC string that the
/// password verifies against, and `s1` is logged in under that name.
pub open spec fn password_logs_in(
    users: Seq<UserView>,
    s0: SessionView,
    s1: SessionView,
    password: Seq<char>,
) -> bool {
    match s0.pending_username {
        Some(name) => {
            &&& name.len() > 0
            &&& lookup(users, name) matches Some(u)
            &&& phc_string_valid(u.password_hash)
            &&& argon2_accepts(password, u.password_hash)
            &&& s1.username == Some(name)
        },
        None => false,
    }
}

/// One move of a session over the users `users`: a command other than
/// quitting is handled, or the facts found by a disk inspection are handed
/// back (reading a directory and finishing a file operation leave the
/// session as it is).
pub open spec fn session_moves(users: Seq<UserView>, s0: SessionView, s1: SessionView) -> bool {
    ||| exists|c: CommandView, st: Step|
        !(c is Quit) && #[trigger] command_handled(c, users, s0, s1, st)
    ||| exists|insp: Inspection, path: Seq<char>, info: PathInfo, st: Step|
        #[trigger] inspection_handled(insp, path, info, s0, s1, st)
}

/// The move from `ss[i]` to `ss[i + 1]` is one of the session's moves.
pub open spec fn moves_at(users: Seq<UserView>, ss: Seq<SessionView>, i: int) -> bool {
    session_moves(users, ss[i], ss[i + 1])
}

/// The move from `ss[i]` to `ss[i + 1]` is a login with `password`.
pub open spec fn logs_in_at(
    users: Seq<UserView>,
    ss: Seq<SessionView>,
    i: int,
    password: Seq<char>,
) -> bool {
    password_logs_in(users, ss[i], ss[i + 1], password)
}

/// A move leaves the logged-in user as it was, unless it is a login with a
/// verified password.
proof fn lemma_move_keeps_user(users: Seq<UserView>, s0: SessionView, s1: SessionView)
    requires
        session_moves(users, s0, s1),
    ensures
        s1.username == s0.username || exists|p: Seq<char>| #[trigger]
            password_logs_in(users, s0, s1, p),
{
    if exists|c: CommandView, st: Step|
        !(c is Quit) && #[trigger] command_handled(c, users, s0, s1, st) {
        let (c, st) = choose|c: CommandView, st: Step|
            !(c is Quit) && #[trigger] command_handled(c, users, s0, s1, st);
        match c {
            CommandView::Pass(p) => {
                match s0.pending_username {
                    Some(name) => {
                        lemma_lookup_named(users, name);
                        if name.len() > 0 {
                            match lookup(users, name) {
                                Some(u) => {
                                    if phc_string_valid(u.password_hash) && argon2_accepts(
                                        p,
                                        u.password_hash,
                                    ) {
                                        assert(password_logs_in(users, s0, s1, p));
                                    }
                                },
                                None => {},
                            }
                        }
                    },
                    None => {},
                }
            },
            _ => {},
        }
    } else {
        let (insp, path, info, st) = choose|
            insp: Inspection,
            path: Seq<char>,
            info: PathInfo,
            st: Step,
        | #[trigger] inspection_handled(insp, path, info, s0, s1, st);
        assert(s1.username == s0.username);
    }
}

/// Law: only a verified password logs a session in. Along any run of moves
/// over a fixed set of users that starts with nobody logged in, a session
/// that ends logged in was logged in by some move that was a password
/// command verifying against the stored hash of the pending user, and no
/// later move changed who is logged in: the session ends logged in as that
/// pending user.
pub proof fn lemma_login_needs_password(users: Seq<UserView>, ss: Seq<SessionView>)
    requires
        ss.len() > 0,
        ss[0].username is None,
        forall|i: int| 0 <= i < ss.len() - 1 ==> #[trigger] moves_at(users, ss, i),
    ensures
        ss.last().username is Some ==> exists|i: int, p: Seq<char>|
            0 <= i < ss.len() - 1 && #[trigger] logs_in_at(users, ss, i, p) && (forall|j: int|
                i < j < ss.len() ==> #[trigger] ss[j].username == ss.last().username),
    decreases ss.len(),
{
    let n = ss.len() as int;
    if n > 1 && ss.last().username is Some {
        let pre = ss.drop_last();
        assert forall|i: int| 0 <= i < pre.len() - 1 implies #[trigger] moves_at(users, pre, i) by {
            assert(moves_at(users, ss, i));
            assert(pre[i] == ss[i] && pre[i + 1] == ss[i + 1]);
        }
        assert(pre[0] == ss[0]);
        lemma_login_needs_password(users, pre);
        assert(moves_at(users, ss, n - 2));
        lemma_move_keeps_user(users, ss[n - 2], ss[n - 1]);
        if exists|p: Seq<char>| #[trigger] password_logs_in(users, ss[n - 2], ss[n - 1], p) {
            let p = choose|p: Seq<char>| #[trigger]
                password_logs_in(users, ss[n - 2], ss[n - 1], p);
            assert(logs_in_at(users, ss, n - 2, p));
            assert forall|j: int| n - 2 < j < n implies #[trigger] ss[j].username
                == ss.last().username by {
                assert(j == n - 1);
            }
        } else {
            assert(pre.last() == ss[n - 2]);
            let (i, p) = choose|i: int, p: Seq<char>|
                0 <= i < pre.len() - 1 && #[trigger] logs_in_at(users, pre, i, p) && (forall|
                    j: int,
                | i < j < pre.len() ==> #[trigger] pre[j].username == pre.last().username);
            assert(pre[i] == ss[i] && pre[i + 1] == ss[i + 1]);
            assert(logs_in_at(users, ss, i, p));
            assert forall|j: int| i < j < n implies #[trigger] ss[j].username
                == ss.last().username by {
                if j < n - 1 {
                    assert(pre[j] == ss[j]);
                    assert(pre[j].username == pre.last().username);
                }
            }
        }
    }
}

/// Law: changing to `..` goes up one level. For a logged-in session, the
/// directory that `cd ..` is checked for and then moves to is the parent of
/// the current directory (as `Path::parent` gives it), and the root when the
/// current directory has no parent; `cd /` moves to the root.
pub proof fn lemma_cd_goes_up(
    users: Seq<UserView>,
    s0: SessionView,
    s1: SessionView,
    st: Step,
    up: bool,
)
    requires
        s0.username is Some,
        command_handled(
            CommandView::Cd(if up { seq!['.', '.'] } else { seq!['/'] }),
            users,
            s0,
            s1,
            st,
        ),
    ensures
        st matches Step::Inspect(_, Inspection::Cd { new_dir }) && new_dir@ == if !up {
            seq!['/']
        } else {
            match path_parent(s0.current_dir) {
                Some(p) => p,
                None => seq!['/'],
            }
        },
{
    reveal_strlit("/");
    reveal_strlit("..");
    assert("/"@ =~= seq!['/']);
    assert(".."@ =~= seq!['.', '.']);
}

/// Law: a listing has one line per entry, in the order read. A single entry
/// is listed as its own line, and one more entry adds a line break and that
/// entry's line after the listing of the others.
pub proof fn lemma_listing_line_per_entry(
    es: Vec<ListingEntry>,
    more: Vec<ListingEntry>,
    e: ListingEntry,
    r: Response,
    r_more: Response,
)
    requires
        more@ == es@.push(e),
        listing_response(Ok(es), r),
        listing_response(Ok(more), r_more),
    ensures
        es@.len() == 0 ==> r_more.message@ == entry_line(e.name@, e.is_dir, e.size),
        es@.len() > 0 ==> r_more.message@ == r.message@ + seq!['\n'] + entry_line(
            e.name@,
            e.is_dir,
            e.size,
        ),
        r_more.code == 200,
{
    let ls = listing_lines(es@);
    let lm = listing_lines(more@);
    assert(lm.drop_last() =~= ls);
    assert(lm.last() == entry_line(e.name@, e.is_dir, e.size));
}

} // verus!
