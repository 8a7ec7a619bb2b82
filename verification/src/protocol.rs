//! The command protocol: the commands a client sends, the responses a server
//! gives, and how both are written as text and read back.
use vstd::prelude::*;

use crate::text::{
    lemma_decimal_digits, lemma_first_index_absent, lemma_first_index_concat,
    lemma_parse_decimal_digits, lemma_trim_end_noop, lemma_trim_noop, lemma_trim_start_noop,
    chars_of, is_ws, decimal_digits, find_in, parse_bounded, parse_decimal, push_decimal, range_is,
    split_once, string_of, trim, trim_range,
};

verus! {

/// A command of the file protocol, in Chinese or English form on the wire.
#[derive(Debug, Clone)]
pub enum Command {
    /// 用户: the user name to log in as.
    User(String),
    /// 密码: the password for the pending user name.
    Pass(String),
    /// 列表: list the current directory.
    List,
    /// 下载: download a file.
    Get(String),
    /// 上传: upload a file (remote name, size in bytes).
    Put(String, u64),
    /// 切换: change directory.
    Cd(String),
    /// 当前目录: print the current directory.
    Pwd,
    /// 创建目录: create a directory.
    Mkdir(String),
    /// 删除目录: remove an empty directory.
    Rmdir(String),
    /// 删除: delete a file.
    Del(String),
    /// 重命名: rename a file.
    Ren { from: String, to: String },
    /// 大小: the size of a file.
    Size(String),
    /// 退出: close the connection.
    Quit,
}

/// The mathematical value of a [`Command`]: its arguments as character sequences.
pub enum CommandView {
    User(Seq<char>),
    Pass(Seq<char>),
    List,
    Get(Seq<char>),
    Put(Seq<char>, u64),
    Cd(Seq<char>),
    Pwd,
    Mkdir(Seq<char>),
    Rmdir(Seq<char>),
    Del(Seq<char>),
    Ren(Seq<char>, Seq<char>),
    Size(Seq<char>),
    Quit,
}

impl View for Command {
    type V = CommandView;

    open spec fn view(&self) -> CommandView {
        match self {
            Command::User(s) => CommandView::User(s@),
            Command::Pass(s) => CommandView::Pass(s@),
            Command::List => CommandView::List,
            Command::Get(s) => CommandView::Get(s@),
            Command::Put(s, n) => CommandView::Put(s@, *n),
            Command::Cd(s) => CommandView::Cd(s@),
            Command::Pwd => CommandView::Pwd,
            Command::Mkdir(s) => CommandView::Mkdir(s@),
            Command::Rmdir(s) => CommandView::Rmdir(s@),
            Command::Del(s) => CommandView::Del(s@),
            Command::Ren { from, to } => CommandView::Ren(from@, to@),
            Command::Size(s) => CommandView::Size(s@),
            Command::Quit => CommandView::Quit,
        }
    }
}

#[verifier::external_type_specification]
#[verifier::external_body]
pub struct ExIoError(std::io::Error);

/// Errors of the protocol layer.
#[derive(Debug)]
pub enum ProtocolError {
    /// 未知命令: the command word is not one of the protocol's.
    UnknownCommand(String),
    /// 无效命令: the command word is known but its arguments are not usable.
    InvalidCommand(String),
    /// 无效响应: a response line is not `<code> <message>`.
    InvalidResponse(String),
    /// 连接已关闭
    ConnectionClosed,
    /// IO错误
    Io(std::io::Error),
}

pub enum ProtocolErrorView {
    UnknownCommand(Seq<char>),
    InvalidCommand(Seq<char>),
    InvalidResponse(Seq<char>),
    ConnectionClosed,
    Io,
}

impl View for ProtocolError {
    type V = ProtocolErrorView;

    open spec fn view(&self) -> ProtocolErrorView {
        match self {
            ProtocolError::UnknownCommand(s) => ProtocolErrorView::UnknownCommand(s@),
            ProtocolError::InvalidCommand(s) => ProtocolErrorView::InvalidCommand(s@),
            ProtocolError::InvalidResponse(s) => ProtocolErrorView::InvalidResponse(s@),
            ProtocolError::ConnectionClosed => ProtocolErrorView::ConnectionClosed,
            ProtocolError::Io(_) => ProtocolErrorView::Io,
        }
    }
}

/// The text that `std::io::Error`'s `Display` writes.
#[verifier::external_body]
fn io_error_text(e: &std::io::Error) -> String {
    e.to_string()
}

impl ProtocolError {
    /// The error's message, as its `Display` form reads.
    pub fn message(&self) -> (m: String)
        ensures
            match self@ {
                ProtocolErrorView::UnknownCommand(s) => m@ == "未知命令: "@ + s,
                ProtocolErrorView::InvalidCommand(s) => m@ == "无效命令: "@ + s,
                ProtocolErrorView::InvalidResponse(s) => m@ == "无效响应: "@ + s,
                ProtocolErrorView::ConnectionClosed => m@ == "连接已关闭"@,
                ProtocolErrorView::Io => m@.len() >= "IO错误: "@.len() && m@.take(
                    "IO错误: "@.len() as int,
                ) == "IO错误: "@,
            },
    {
        match self {
            ProtocolError::UnknownCommand(s) => {
                let mut m = String::from_str("未知命令: ");
                m.append(s.as_str());
                m
            },
            ProtocolError::InvalidCommand(s) => {
                let mut m = String::from_str("无效命令: ");
                m.append(s.as_str());
                m
            },
            ProtocolError::InvalidResponse(s) => {
                let mut m = String::from_str("无效响应: ");
                m.append(s.as_str());
                m
            },
            ProtocolError::ConnectionClosed => String::from_str("连接已关闭"),
            ProtocolError::Io(e) => {
                let mut m = String::from_str("IO错误: ");
                let t = io_error_text(e);
                let ghost before = m@;
                m.append(t.as_str());
                assert(m@.take("IO错误: "@.len() as int) =~= before);
                m
            },
        }
    }
}

/// The command words, without their arguments.
pub enum Verb {
    User,
    Pass,
    List,
    Get,
    Put,
    Cd,
    Pwd,
    Mkdir,
    Rmdir,
    Del,
    Ren,
    Size,
    Quit,
}

/// The verb that a command word names, in either language.
pub open spec fn verb_of(c: Seq<char>) -> Option<Verb> {
    if c == "用户"@ || c == "USER"@ {
        Some(Verb::User)
    } else if c == "密码"@ || c == "PASS"@ {
        Some(Verb::Pass)
    } else if c == "列表"@ || c == "LIST"@ || c == "ls"@ || c == "LS"@ {
        Some(Verb::List)
    } else if c == "下载"@ || c == "GET"@ || c == "RETR"@ {
        Some(Verb::Get)
    } else if c == "上传"@ || c == "PUT"@ || c == "STOR"@ {
        Some(Verb::Put)
    } else if c == "切换"@ || c == "CWD"@ || c == "CD"@ {
        Some(Verb::Cd)
    } else if c == "当前目录"@ || c == "PWD"@ {
        Some(Verb::Pwd)
    } else if c == "创建目录"@ || c == "MKD"@ || c == "MKDIR"@ {
        Some(Verb::Mkdir)
    } else if c == "删除目录"@ || c == "RMD"@ || c == "RMDIR"@ {
        Some(Verb::Rmdir)
    } else if c == "删除"@ || c == "DELE"@ || c == "DEL"@ || c == "RM"@ {
        Some(Verb::Del)
    } else if c == "重命名"@ || c == "REN"@ || c == "RENAME"@ || c == "MV"@ {
        Some(Verb::Ren)
    } else if c == "大小"@ || c == "SIZE"@ {
        Some(Verb::Size)
    } else if c == "退出"@ || c == "QUIT"@ || c == "BYE"@ || c == "exit"@ {
        Some(Verb::Quit)
    } else {
        None
    }
}

/// A request line split into its command word and its (trimmed) arguments:
/// the line is trimmed, the word is what stands before the first space.
pub open spec fn request_parts(s: Seq<char>) -> (Seq<char>, Seq<char>) {
    let t = trim(s);
    match split_once(t, ' ') {
        Some((w, rest)) => (w, trim(rest)),
        None => (t, seq![]),
    }
}

/// The usage message given when a rename lacks its second name.
pub open spec fn rename_usage() -> Seq<char> {
    "重命名需要两个参数: 重命名 <原文件名> <新文件名>"@
}

/// What [`Command::parse`] makes of a request line.
pub open spec fn parse_command(s: Seq<char>) -> Result<CommandView, ProtocolErrorView> {
    let (w, args) = request_parts(s);
    match verb_of(w) {
        Some(Verb::User) => Ok(CommandView::User(args)),
        Some(Verb::Pass) => Ok(CommandView::Pass(args)),
        Some(Verb::List) => Ok(CommandView::List),
        Some(Verb::Get) => Ok(CommandView::Get(args)),
        Some(Verb::Put) => match split_once(args, ' ') {
            Some((name, size)) => Ok(
                CommandView::Put(
                    name,
                    match parse_bounded(size, u64::MAX as int) {
                        Some(n) => n as u64,
                        None => 0,
                    },
                ),
            ),
            None => Ok(CommandView::Put(args, 0)),
        },
        Some(Verb::Cd) => Ok(CommandView::Cd(args)),
        Some(Verb::Pwd) => Ok(CommandView::Pwd),
        Some(Verb::Mkdir) => Ok(CommandView::Mkdir(args)),
        Some(Verb::Rmdir) => Ok(CommandView::Rmdir(args)),
        Some(Verb::Del) => Ok(CommandView::Del(args)),
        Some(Verb::Ren) => match split_once(args, ' ') {
            Some((from, to)) => Ok(CommandView::Ren(from, to)),
            None => Err(ProtocolErrorView::InvalidCommand(rename_usage())),
        },
        Some(Verb::Size) => Ok(CommandView::Size(args)),
        Some(Verb::Quit) => Ok(CommandView::Quit),
        None => Err(ProtocolErrorView::UnknownCommand(w)),
    }
}

/// The text a client sends for a command (the password included).
pub open spec fn send_text(c: CommandView) -> Seq<char> {
    match c {
        CommandView::User(n) => "用户"@ + " "@ + n,
        CommandView::Pass(p) => "密码"@ + " "@ + p,
        CommandView::List => "列表"@,
        CommandView::Get(p) => "下载"@ + " "@ + p,
        CommandView::Put(p, n) => "上传"@ + " "@ + p + " "@ + decimal_digits(n as nat),
        CommandView::Cd(p) => "切换"@ + " "@ + p,
        CommandView::Pwd => "当前目录"@,
        CommandView::Mkdir(p) => "创建目录"@ + " "@ + p,
        CommandView::Rmdir(p) => "删除目录"@ + " "@ + p,
        CommandView::Del(p) => "删除"@ + " "@ + p,
        CommandView::Ren(f, t) => "重命名"@ + " "@ + f + " "@ + t,
        CommandView::Size(p) => "大小"@ + " "@ + p,
        CommandView::Quit => "退出"@,
    }
}

/// The text shown for a command in logs and to users: the send text with the
/// password masked.
pub open spec fn display_text(c: CommandView) -> Seq<char> {
    match c {
        CommandView::Pass(_) => "密码 ****"@,
        _ => send_text(c),
    }
}

pub open spec fn parse_result_view(r: Result<Command, ProtocolError>) -> Result<
    CommandView,
    ProtocolErrorView,
> {
    match r {
        Ok(c) => Ok(c@),
        Err(e) => Err(e@),
    }
}

/// The verb that `v[a..b]` names.
fn verb(v: &Vec<char>, a: usize, b: usize) -> (r: Option<Verb>)
    requires
        a <= b <= v@.len(),
    ensures
        r == verb_of(v@.subrange(a as int, b as int)),
{
    if range_is(v, a, b, "用户") || range_is(v, a, b, "USER") {
        Some(Verb::User)
    } else if range_is(v, a, b, "密码") || range_is(v, a, b, "PASS") {
        Some(Verb::Pass)
    } else if range_is(v, a, b, "列表") || range_is(v, a, b, "LIST") || range_is(v, a, b, "ls")
        || range_is(v, a, b, "LS") {
        Some(Verb::List)
    } else if range_is(v, a, b, "下载") || range_is(v, a, b, "GET") || range_is(v, a, b, "RETR") {
        Some(Verb::Get)
    } else if range_is(v, a, b, "上传") || range_is(v, a, b, "PUT") || range_is(v, a, b, "STOR") {
        Some(Verb::Put)
    } else if range_is(v, a, b, "切换") || range_is(v, a, b, "CWD") || range_is(v, a, b, "CD") {
        Some(Verb::Cd)
    } else if range_is(v, a, b, "当前目录") || range_is(v, a, b, "PWD") {
        Some(Verb::Pwd)
    } else if range_is(v, a, b, "创建目录") || range_is(v, a, b, "MKD") || range_is(
        v,
        a,
        b,
        "MKDIR",
    ) {
        Some(Verb::Mkdir)
    } else if range_is(v, a, b, "删除目录") || range_is(v, a, b, "RMD") || range_is(
        v,
        a,
        b,
        "RMDIR",
    ) {
        Some(Verb::Rmdir)
    } else if range_is(v, a, b, "删除") || range_is(v, a, b, "DELE") || range_is(v, a, b, "DEL")
        || range_is(v, a, b, "RM") {
        Some(Verb::Del)
    } else if range_is(v, a, b, "重命名") || range_is(v, a, b, "REN") || range_is(
        v,
        a,
        b,
        "RENAME",
    ) || range_is(v, a, b, "MV") {
        Some(Verb::Ren)
    } else if range_is(v, a, b, "大小") || range_is(v, a, b, "SIZE") {
        Some(Verb::Size)
    } else if range_is(v, a, b, "退出") || range_is(v, a, b, "QUIT") || range_is(v, a, b, "BYE")
        || range_is(v, a, b, "exit") {
        Some(Verb::Quit)
    } else {
        None
    }
}

/// Splits the request line held in `v` into the bounds of its command word
/// and of its arguments.
pub fn split_request(v: &Vec<char>) -> (r: (usize, usize, usize, usize))
    ensures
        r.0 <= r.1 <= v@.len(),
        r.2 <= r.3 <= v@.len(),
        v@.subrange(r.0 as int, r.1 as int) == request_parts(v@).0,
        v@.subrange(r.2 as int, r.3 as int) == request_parts(v@).1,
{
    let (a, b) = trim_range(v, 0, v.len());
    assert(v@.subrange(0, v@.len() as int) =~= v@);
    let ghost t = v@.subrange(a as int, b as int);
    let p = find_in(v, a, b, ' ');
    if p < b {
        let (x, y) = trim_range(v, p + 1, b);
        assert(t.take(p - a) =~= v@.subrange(a as int, p as int));
        assert(t.skip(p - a + 1) =~= v@.subrange(p + 1, b as int));
        (a, p, x, y)
    } else {
        assert(v@.subrange(b as int, b as int) =~= Seq::<char>::empty());
        (a, b, b, b)
    }
}

impl Command {
    /// The text sent over the network for this command (the password included).
    pub fn to_send_string(&self) -> (s: String)
        ensures
            s@ == send_text(self@),
    {
        match self {
            Command::User(name) => {
                let mut s = String::from_str("用户");
                s.append(" ");
                s.append(name.as_str());
                s
            },
            Command::Pass(pass) => {
                let mut s = String::from_str("密码");
                s.append(" ");
                s.append(pass.as_str());
                s
            },
            Command::List => String::from_str("列表"),
            Command::Get(path) => {
                let mut s = String::from_str("下载");
                s.append(" ");
                s.append(path.as_str());
                s
            },
            Command::Put(path, size) => {
                let mut s = String::from_str("上传");
                s.append(" ");
                s.append(path.as_str());
                s.append(" ");
                push_decimal(&mut s, *size);
                s
            },
            Command::Cd(path) => {
                let mut s = String::from_str("切换");
                s.append(" ");
                s.append(path.as_str());
                s
            },
            Command::Pwd => String::from_str("当前目录"),
            Command::Mkdir(path) => {
                let mut s = String::from_str("创建目录");
                s.append(" ");
                s.append(path.as_str());
                s
            },
            Command::Rmdir(path) => {
                let mut s = String::from_str("删除目录");
                s.append(" ");
                s.append(path.as_str());
                s
            },
            Command::Del(path) => {
                let mut s = String::from_str("删除");
                s.append(" ");
                s.append(path.as_str());
                s
            },
            Command::Ren { from, to } => {
                let mut s = String::from_str("重命名");
                s.append(" ");
                s.append(from.as_str());
                s.append(" ");
                s.append(to.as_str());
                s
            },
            Command::Size(path) => {
                let mut s = String::from_str("大小");
                s.append(" ");
                s.append(path.as_str());
                s
            },
            Command::Quit => String::from_str("退出"),
        }
    }

    /// The text shown for this command in logs and to users: as sent, but
    /// with the password masked.
    pub fn to_display_string(&self) -> (s: String)
        ensures
            s@ == display_text(self@),
    {
        match self {
            Command::Pass(_) => String::from_str("密码 ****"),
            _ => self.to_send_string(),
        }
    }

    /// Parses a request line into a command.
    pub fn parse(input: &str) -> (r: Result<Command, ProtocolError>)
        ensures
            parse_result_view(r) == parse_command(input@),
    {
        let v = chars_of(input);
        let (a, b, x, y) = split_request(&v);
        let ghost args = v@.subrange(x as int, y as int);
        match verb(&v, a, b) {
            Some(Verb::User) => Ok(Command::User(string_of(&v, x, y))),
            Some(Verb::Pass) => Ok(Command::Pass(string_of(&v, x, y))),
            Some(Verb::List) => Ok(Command::List),
            Some(Verb::Get) => Ok(Command::Get(string_of(&v, x, y))),
            Some(Verb::Put) => {
                let q = find_in(&v, x, y, ' ');
                if q < y {
                    assert(args.take(q - x) =~= v@.subrange(x as int, q as int));
                    assert(args.skip(q - x + 1) =~= v@.subrange(q + 1, y as int));
                    let size = match parse_decimal(&v, q + 1, y, u64::MAX) {
                        Some(n) => n,
                        None => 0,
                    };
                    Ok(Command::Put(string_of(&v, x, q), size))
                } else {
                    Ok(Command::Put(string_of(&v, x, y), 0))
                }
            },
            Some(Verb::Cd) => Ok(Command::Cd(string_of(&v, x, y))),
            Some(Verb::Pwd) => Ok(Command::Pwd),
            Some(Verb::Mkdir) => Ok(Command::Mkdir(string_of(&v, x, y))),
            Some(Verb::Rmdir) => Ok(Command::Rmdir(string_of(&v, x, y))),
            Some(Verb::Del) => Ok(Command::Del(string_of(&v, x, y))),
            Some(Verb::Ren) => {
                let q = find_in(&v, x, y, ' ');
                if q < y {
                    assert(args.take(q - x) =~= v@.subrange(x as int, q as int));
                    assert(args.skip(q - x + 1) =~= v@.subrange(q + 1, y as int));
                    Ok(Command::Ren { from: string_of(&v, x, q), to: string_of(&v, q + 1, y) })
                } else {
                    Err(
                        ProtocolError::InvalidCommand(
                            String::from_str("重命名需要两个参数: 重命名 <原文件名> <新文件名>"),
                        ),
                    )
                }
            },
            Some(Verb::Size) => Ok(Command::Size(string_of(&v, x, y))),
            Some(Verb::Quit) => Ok(Command::Quit),
            None => Err(ProtocolError::UnknownCommand(string_of(&v, a, b))),
        }
    }
}

/// Response status codes.
#[derive(Debug, Clone, Copy, PartialEq, Eq, Structural)]
pub enum ResponseCode {
    /// 150 准备传输数据
    DataConnectionOpening,
    /// 200 命令成功
    CommandOk,
    /// 220 服务就绪
    ServiceReady,
    /// 221 连接关闭
    ConnectionClosing,
    /// 226 传输完成
    TransferComplete,
    /// 230 登录成功
    LoginSuccessful,
    /// 250 文件操作成功
    FileActionOk,
    /// 257 路径已创建
    PathCreated,
    /// 331 需要密码
    PasswordRequired,
    /// 213 文件状态
    FileStatus,
    /// 501 语法错误
    SyntaxError,
    /// 502 命令未实现
    NotImplemented,
    /// 530 登录失败
    LoginFailed,
    /// 550 文件未找到
    FileNotFound,
}

/// The number of a status code.
pub open spec fn code_value(c: ResponseCode) -> u16 {
    match c {
        ResponseCode::DataConnectionOpening => 150,
        ResponseCode::CommandOk => 200,
        ResponseCode::ServiceReady => 220,
        ResponseCode::ConnectionClosing => 221,
        ResponseCode::TransferComplete => 226,
        ResponseCode::LoginSuccessful => 230,
        ResponseCode::FileActionOk => 250,
        ResponseCode::PathCreated => 257,
        ResponseCode::PasswordRequired => 331,
        ResponseCode::FileStatus => 213,
        ResponseCode::SyntaxError => 501,
        ResponseCode::NotImplemented => 502,
        ResponseCode::LoginFailed => 530,
        ResponseCode::FileNotFound => 550,
    }
}

impl ResponseCode {
    /// The number of this status code.
    pub fn value(self) -> (n: u16)
        ensures
            n == code_value(self),
    {
        match self {
            ResponseCode::DataConnectionOpening => 150,
            ResponseCode::CommandOk => 200,
            ResponseCode::ServiceReady => 220,
            ResponseCode::ConnectionClosing => 221,
            ResponseCode::TransferComplete => 226,
            ResponseCode::LoginSuccessful => 230,
            ResponseCode::FileActionOk => 250,
            ResponseCode::PathCreated => 257,
            ResponseCode::PasswordRequired => 331,
            ResponseCode::FileStatus => 213,
            ResponseCode::SyntaxError => 501,
            ResponseCode::NotImplemented => 502,
            ResponseCode::LoginFailed => 530,
            ResponseCode::FileNotFound => 550,
        }
    }
}

/// A response: a status number and a message.
#[derive(Debug, Clone)]
pub struct Response {
    pub code: u16,
    pub message: String,
}

/// The text of a response on the wire: `<code> <message>`.
pub open spec fn format_text(code: u16, message: Seq<char>) -> Seq<char> {
    decimal_digits(code as nat) + " "@ + message
}

/// What [`Response::parse`] makes of a line: the code and the message, or the
/// trimmed line that could not be read as a response.
pub open spec fn parse_response(s: Seq<char>) -> Result<(u16, Seq<char>), Seq<char>> {
    let t = trim(s);
    match split_once(t, ' ') {
        Some((c, m)) => match parse_bounded(c, u16::MAX as int) {
            Some(n) => Ok((n as u16, m)),
            None => Err(t),
        },
        None => Err(t),
    }
}

impl Response {
    pub fn new(code: ResponseCode, message: &str) -> (r: Response)
        ensures
            r.code == code_value(code),
            r.message@ == message@,
    {
        Response { code: code.value(), message: message.to_owned() }
    }

    /// The response as a line of text: `<code> <message>`.
    pub fn format(&self) -> (s: String)
        ensures
            s@ == format_text(self.code, self.message@),
    {
        let mut s = String::new();
        push_decimal(&mut s, self.code as u64);
        s.append(" ");
        s.append(self.message.as_str());
        s
    }

    /// Whether a transfer may go ahead: the response must be 150, otherwise
    /// its message says why not.
    pub fn transfer_ready(&self) -> (r: Result<(), String>)
        ensures
            r is Ok <==> self.code == 150,
            r matches Err(m) ==> m@ == self.message@,
    {
        if self.code != 150 {
            Err(self.message.as_str().to_owned())
        } else {
            Ok(())
        }
    }

    /// Reads a response line.
    pub fn parse(input: &str) -> (r: Result<Response, ProtocolError>)
        ensures
            match parse_response(input@) {
                Ok((c, m)) => r matches Ok(resp) && resp.code == c && resp.message@ == m,
                Err(t) => r matches Err(ProtocolError::InvalidResponse(x)) && x@ == t,
            },
    {
        let v = chars_of(input);
        let (a, b) = trim_range(&v, 0, v.len());
        assert(v@.subrange(0, v@.len() as int) =~= v@);
        let ghost t = v@.subrange(a as int, b as int);
        let p = find_in(&v, a, b, ' ');
        if p == b {
            return Err(ProtocolError::InvalidResponse(string_of(&v, a, b)));
        }
        assert(t.take(p - a) =~= v@.subrange(a as int, p as int));
        assert(t.skip(p - a + 1) =~= v@.subrange(p + 1, b as int));
        assert(split_once(t, ' ') == Some(
            (v@.subrange(a as int, p as int), v@.subrange(p + 1, b as int)),
        ));
        match parse_decimal(&v, a, p, u16::MAX as u64) {
            Some(n) => {
                assert(parse_bounded(v@.subrange(a as int, p as int), u16::MAX as int) == Some(
                    n as int,
                ));
                Ok(Response { code: n as u16, message: string_of(&v, p + 1, b) })
            },
            None => Err(ProtocolError::InvalidResponse(string_of(&v, a, b))),
        }
    }
}

// ---------------------------------------------------------------------------
// Laws
// ---------------------------------------------------------------------------

/// `s` has no whitespace at either end.
pub open spec fn is_trimmed(s: Seq<char>) -> bool {
    s.len() == 0 || (!is_ws(s[0]) && !is_ws(s.last()))
}

/// `s` is one nonempty space-free argument that does not start with whitespace.
pub open spec fn is_word(s: Seq<char>) -> bool {
    &&& s.len() > 0
    &&& !is_ws(s[0])
    &&& forall|j: int| 0 <= j < s.len() ==> s[j] != ' '
}

/// The commands whose text reads back as themselves: free-text arguments
/// carry no whitespace at their ends, an argument followed by another is one
/// space-free word, and a last argument after a word is nonempty.
pub open spec fn round_trips(c: CommandView) -> bool {
    match c {
        CommandView::User(x) => is_trimmed(x),
        CommandView::Pass(x) => is_trimmed(x),
        CommandView::Get(x) => is_trimmed(x),
        CommandView::Cd(x) => is_trimmed(x),
        CommandView::Mkdir(x) => is_trimmed(x),
        CommandView::Rmdir(x) => is_trimmed(x),
        CommandView::Del(x) => is_trimmed(x),
        CommandView::Size(x) => is_trimmed(x),
        CommandView::Put(p, _) => is_word(p),
        CommandView::Ren(f, t) => is_word(f) && t.len() > 0 && !is_ws(t.last()),
        CommandView::List => true,
        CommandView::Pwd => true,
        CommandView::Quit => true,
    }
}

/// A command word is read back from a line that is the word followed by a
/// space and trimmed arguments.
pub proof fn lemma_parts_of_word_and_args(w: Seq<char>, x: Seq<char>)
    requires
        is_word(w),
        !is_ws(w.last()),
        is_trimmed(x),
    ensures
        request_parts(w + seq![' '] + x) == (w, x),
{
    let s = w + seq![' '] + x;
    assert(s[0] == w[0]);
    lemma_trim_start_noop(s);
    if x.len() == 0 {
        assert(s.last() == ' ');
        assert(s.drop_last() =~= w);
        assert(w.last() == w[w.len() - 1]);
        lemma_trim_end_noop(w);
        assert(trim(s) == w);
        lemma_first_index_absent(w, ' ');
    } else {
        assert(s.last() == x.last());
        lemma_trim_end_noop(s);
        assert(trim(s) == s);
        lemma_first_index_concat(w, ' ', x);
        assert(s.take(w.len() as int) =~= w);
        assert(s.skip(w.len() as int + 1) =~= x);
        lemma_trim_noop(x);
    }
}

/// A command word alone is read back with no arguments.
proof fn lemma_parts_of_word(w: Seq<char>)
    requires
        is_word(w),
        !is_ws(w.last()),
    ensures
        request_parts(w) == (w, Seq::<char>::empty()),
{
    lemma_trim_noop(w);
    lemma_first_index_absent(w, ' ');
}

/// Facts about the command words that [`send_text`] writes.
proof fn lemma_command_words()
    ensures
        verb_of("用户"@) == Some(Verb::User),
        verb_of("密码"@) == Some(Verb::Pass),
        verb_of("列表"@) == Some(Verb::List),
        verb_of("下载"@) == Some(Verb::Get),
        verb_of("上传"@) == Some(Verb::Put),
        verb_of("切换"@) == Some(Verb::Cd),
        verb_of("当前目录"@) == Some(Verb::Pwd),
        verb_of("创建目录"@) == Some(Verb::Mkdir),
        verb_of("删除目录"@) == Some(Verb::Rmdir),
        verb_of("删除"@) == Some(Verb::Del),
        verb_of("重命名"@) == Some(Verb::Ren),
        verb_of("大小"@) == Some(Verb::Size),
        verb_of("退出"@) == Some(Verb::Quit),
        is_command_word("用户"@),
        is_command_word("密码"@),
        is_command_word("列表"@),
        is_command_word("下载"@),
        is_command_word("上传"@),
        is_command_word("切换"@),
        is_command_word("当前目录"@),
        is_command_word("创建目录"@),
        is_command_word("删除目录"@),
        is_command_word("删除"@),
        is_command_word("重命名"@),
        is_command_word("大小"@),
        is_command_word("退出"@),
        " "@ == seq![' '],
{
    reveal_strlit("用户");
    reveal_strlit("USER");
    reveal_strlit("密码");
    reveal_strlit("PASS");
    reveal_strlit("列表");
    reveal_strlit("LIST");
    reveal_strlit("ls");
    reveal_strlit("LS");
    reveal_strlit("下载");
    reveal_strlit("GET");
    reveal_strlit("RETR");
    reveal_strlit("上传");
    reveal_strlit("PUT");
    reveal_strlit("STOR");
    reveal_strlit("切换");
    reveal_strlit("CWD");
    reveal_strlit("CD");
    reveal_strlit("当前目录");
    reveal_strlit("PWD");
    reveal_strlit("创建目录");
    reveal_strlit("MKD");
    reveal_strlit("MKDIR");
    reveal_strlit("删除目录");
    reveal_strlit("RMD");
    reveal_strlit("RMDIR");
    reveal_strlit("删除");
    reveal_strlit("DELE");
    reveal_strlit("DEL");
    reveal_strlit("RM");
    reveal_strlit("重命名");
    reveal_strlit("REN");
    reveal_strlit("RENAME");
    reveal_strlit("MV");
    reveal_strlit("大小");
    reveal_strlit("SIZE");
    reveal_strlit("退出");
    reveal_strlit("QUIT");
    reveal_strlit("BYE");
    reveal_strlit("exit");
    reveal_strlit(" ");
    assert("用户"@.len() == 2 && "用户"@[0] == '用' && "用户"@[1] == '户');
    assert("USER"@.len() == 4 && "USER"@[0] == 'U' && "USER"@[1] == 'S');
    assert("密码"@.len() == 2 && "密码"@[0] == '密' && "密码"@[1] == '码');
    assert("PASS"@.len() == 4 && "PASS"@[0] == 'P' && "PASS"@[1] == 'A');
    assert("列表"@.len() == 2 && "列表"@[0] == '列' && "列表"@[1] == '表');
    assert("LIST"@.len() == 4 && "LIST"@[0] == 'L' && "LIST"@[1] == 'I');
    assert("ls"@.len() == 2 && "ls"@[0] == 'l' && "ls"@[1] == 's');
    assert("LS"@.len() == 2 && "LS"@[0] == 'L' && "LS"@[1] == 'S');
    assert("下载"@.len() == 2 && "下载"@[0] == '下' && "下载"@[1] == '载');
    assert("GET"@.len() == 3 && "GET"@[0] == 'G' && "GET"@[1] == 'E');
    assert("RETR"@.len() == 4 && "RETR"@[0] == 'R' && "RETR"@[1] == 'E');
    assert("上传"@.len() == 2 && "上传"@[0] == '上' && "上传"@[1] == '传');
    assert("PUT"@.len() == 3 && "PUT"@[0] == 'P' && "PUT"@[1] == 'U');
    assert("STOR"@.len() == 4 && "STOR"@[0] == 'S' && "STOR"@[1] == 'T');
    assert("切换"@.len() == 2 && "切换"@[0] == '切' && "切换"@[1] == '换');
    assert("CWD"@.len() == 3 && "CWD"@[0] == 'C' && "CWD"@[1] == 'W');
    assert("CD"@.len() == 2 && "CD"@[0] == 'C' && "CD"@[1] == 'D');
    assert("当前目录"@.len() == 4 && "当前目录"@[0] == '当' && "当前目录"@[1] == '前');
    assert("PWD"@.len() == 3 && "PWD"@[0] == 'P' && "PWD"@[1] == 'W');
    assert("创建目录"@.len() == 4 && "创建目录"@[0] == '创' && "创建目录"@[1] == '建');
    assert("MKD"@.len() == 3 && "MKD"@[0] == 'M' && "MKD"@[1] == 'K');
    assert("MKDIR"@.len() == 5 && "MKDIR"@[0] == 'M' && "MKDIR"@[1] == 'K');
    assert("删除目录"@.len() == 4 && "删除目录"@[0] == '删' && "删除目录"@[1] == '除');
    assert("RMD"@.len() == 3 && "RMD"@[0] == 'R' && "RMD"@[1] == 'M');
    assert("RMDIR"@.len() == 5 && "RMDIR"@[0] == 'R' && "RMDIR"@[1] == 'M');
    assert("删除"@.len() == 2 && "删除"@[0] == '删' && "删除"@[1] == '除');
    assert("DELE"@.len() == 4 && "DELE"@[0] == 'D' && "DELE"@[1] == 'E');
    assert("DEL"@.len() == 3 && "DEL"@[0] == 'D' && "DEL"@[1] == 'E');
    assert("RM"@.len() == 2 && "RM"@[0] == 'R' && "RM"@[1] == 'M');
    assert("重命名"@.len() == 3 && "重命名"@[0] == '重' && "重命名"@[1] == '命');
    assert("REN"@.len() == 3 && "REN"@[0] == 'R' && "REN"@[1] == 'E');
    assert("RENAME"@.len() == 6 && "RENAME"@[0] == 'R' && "RENAME"@[1] == 'E');
    assert("MV"@.len() == 2 && "MV"@[0] == 'M' && "MV"@[1] == 'V');
    assert("大小"@.len() == 2 && "大小"@[0] == '大' && "大小"@[1] == '小');
    assert("SIZE"@.len() == 4 && "SIZE"@[0] == 'S' && "SIZE"@[1] == 'I');
    assert("退出"@.len() == 2 && "退出"@[0] == '退' && "退出"@[1] == '出');
    assert("QUIT"@.len() == 4 && "QUIT"@[0] == 'Q' && "QUIT"@[1] == 'U');
    assert("BYE"@.len() == 3 && "BYE"@[0] == 'B' && "BYE"@[1] == 'Y');
    assert("exit"@.len() == 4 && "exit"@[0] == 'e' && "exit"@[1] == 'x');
}

/// `w` can stand as a command word: one space-free word with no whitespace at
/// either end.
pub open spec fn is_command_word(w: Seq<char>) -> bool {
    is_word(w) && !is_ws(w.last())
}

/// Law: what a client sends for a command is read back by the server as the
/// same command, for every command whose arguments survive the line's
/// trimming and splitting (see [`round_trips`]).
pub proof fn lemma_command_round_trip(c: CommandView)
    requires
        round_trips(c),
    ensures
        parse_command(send_text(c)) == Ok::<CommandView, ProtocolErrorView>(c),
{
    lemma_command_words();
    match c {
        CommandView::User(x) => {
            lemma_parts_of_word_and_args("用户"@, x);
        },
        CommandView::Pass(x) => {
            lemma_parts_of_word_and_args("密码"@, x);
        },
        CommandView::List => {
            lemma_parts_of_word("列表"@);
        },
        CommandView::Get(x) => {
            lemma_parts_of_word_and_args("下载"@, x);
        },
        CommandView::Put(p, n) => {
            let d = decimal_digits(n as nat);
            lemma_decimal_digits(n as nat);
            lemma_parse_decimal_digits(n as nat);
            let x = p + seq![' '] + d;
            assert(x[0] == p[0]);
            assert(x.last() == d.last());
            assert(d.last() == d[d.len() - 1]);
            assert("上传"@ + " "@ + p + " "@ + d =~= "上传"@ + seq![' '] + x);
            lemma_parts_of_word_and_args("上传"@, x);
            lemma_first_index_concat(p, ' ', d);
            assert(x.take(p.len() as int) =~= p);
            assert(x.skip(p.len() as int + 1) =~= d);
        },
        CommandView::Cd(x) => {
            lemma_parts_of_word_and_args("切换"@, x);
        },
        CommandView::Pwd => {
            lemma_parts_of_word("当前目录"@);
        },
        CommandView::Mkdir(x) => {
            lemma_parts_of_word_and_args("创建目录"@, x);
        },
        CommandView::Rmdir(x) => {
            lemma_parts_of_word_and_args("删除目录"@, x);
        },
        CommandView::Del(x) => {
            lemma_parts_of_word_and_args("删除"@, x);
        },
        CommandView::Ren(f, t) => {
            let x = f + seq![' '] + t;
            assert(x[0] == f[0]);
            assert(x.last() == t.last());
            assert("重命名"@ + " "@ + f + " "@ + t =~= "重命名"@ + seq![' '] + x);
            lemma_parts_of_word_and_args("重命名"@, x);
            lemma_first_index_concat(f, ' ', t);
            assert(x.take(f.len() as int) =~= f);
            assert(x.skip(f.len() as int + 1) =~= t);
        },
        CommandView::Size(x) => {
            lemma_parts_of_word_and_args("大小"@, x);
        },
        CommandView::Quit => {
            lemma_parts_of_word("退出"@);
        },
    }
}

/// Facts about the English command words and their other spellings.
proof fn lemma_alias_words()
    ensures
        verb_of("USER"@) == Some(Verb::User),
        is_command_word("USER"@),
        verb_of("PASS"@) == Some(Verb::Pass),
        is_command_word("PASS"@),
        verb_of("LIST"@) == Some(Verb::List),
        is_command_word("LIST"@),
        verb_of("ls"@) == Some(Verb::List),
        is_command_word("ls"@),
        verb_of("LS"@) == Some(Verb::List),
        is_command_word("LS"@),
        verb_of("GET"@) == Some(Verb::Get),
        is_command_word("GET"@),
        verb_of("RETR"@) == Some(Verb::Get),
        is_command_word("RETR"@),
        verb_of("PUT"@) == Some(Verb::Put),
        is_command_word("PUT"@),
        verb_of("STOR"@) == Some(Verb::Put),
        is_command_word("STOR"@),
        verb_of("CWD"@) == Some(Verb::Cd),
        is_command_word("CWD"@),
        verb_of("CD"@) == Some(Verb::Cd),
        is_command_word("CD"@),
        verb_of("PWD"@) == Some(Verb::Pwd),
        is_command_word("PWD"@),
        verb_of("MKD"@) == Some(Verb::Mkdir),
        is_command_word("MKD"@),
        verb_of("MKDIR"@) == Some(Verb::Mkdir),
        is_command_word("MKDIR"@),
        verb_of("RMD"@) == Some(Verb::Rmdir),
        is_command_word("RMD"@),
        verb_of("RMDIR"@) == Some(Verb::Rmdir),
        is_command_word("RMDIR"@),
        verb_of("DELE"@) == Some(Verb::Del),
        is_command_word("DELE"@),
        verb_of("DEL"@) == Some(Verb::Del),
        is_command_word("DEL"@),
        verb_of("RM"@) == Some(Verb::Del),
        is_command_word("RM"@),
        verb_of("REN"@) == Some(Verb::Ren),
        is_command_word("REN"@),
        verb_of("RENAME"@) == Some(Verb::Ren),
        is_command_word("RENAME"@),
        verb_of("MV"@) == Some(Verb::Ren),
        is_command_word("MV"@),
        verb_of("SIZE"@) == Some(Verb::Size),
        is_command_word("SIZE"@),
        verb_of("QUIT"@) == Some(Verb::Quit),
        is_command_word("QUIT"@),
        verb_of("BYE"@) == Some(Verb::Quit),
        is_command_word("BYE"@),
        verb_of("exit"@) == Some(Verb::Quit),
        is_command_word("exit"@),
{
    reveal_strlit("BYE");
    reveal_strlit("CD");
    reveal_strlit("CWD");
    reveal_strlit("DEL");
    reveal_strlit("DELE");
    reveal_strlit("GET");
    reveal_strlit("LIST");
    reveal_strlit("LS");
    reveal_strlit("MKD");
    reveal_strlit("MKDIR");
    reveal_strlit("MV");
    reveal_strlit("PASS");
    reveal_strlit("PUT");
    reveal_strlit("PWD");
    reveal_strlit("QUIT");
    reveal_strlit("REN");
    reveal_strlit("RENAME");
    reveal_strlit("RETR");
    reveal_strlit("RM");
    reveal_strlit("RMD");
    reveal_strlit("RMDIR");
    reveal_strlit("SIZE");
    reveal_strlit("STOR");
    reveal_strlit("USER");
    reveal_strlit("exit");
    reveal_strlit("ls");
    reveal_strlit("上传");
    reveal_strlit("下载");
    reveal_strlit("切换");
    reveal_strlit("列表");
    reveal_strlit("创建目录");
    reveal_strlit("删除");
    reveal_strlit("删除目录");
    reveal_strlit("大小");
    reveal_strlit("密码");
    reveal_strlit("当前目录");
    reveal_strlit("用户");
    reveal_strlit("退出");
    reveal_strlit("重命名");
    assert("用户"@.len() == 2 && "用户"@[0] == '用' && "用户"@[1] == '户');
    assert("USER"@.len() == 4 && "USER"@[0] == 'U' && "USER"@[1] == 'S');
    assert("密码"@.len() == 2 && "密码"@[0] == '密' && "密码"@[1] == '码');
    assert("PASS"@.len() == 4 && "PASS"@[0] == 'P' && "PASS"@[1] == 'A');
    assert("列表"@.len() == 2 && "列表"@[0] == '列' && "列表"@[1] == '表');
    assert("LIST"@.len() == 4 && "LIST"@[0] == 'L' && "LIST"@[1] == 'I');
    assert("ls"@.len() == 2 && "ls"@[0] == 'l' && "ls"@[1] == 's');
    assert("LS"@.len() == 2 && "LS"@[0] == 'L' && "LS"@[1] == 'S');
    assert("下载"@.len() == 2 && "下载"@[0] == '下' && "下载"@[1] == '载');
    assert("GET"@.len() == 3 && "GET"@[0] == 'G' && "GET"@[1] == 'E');
    assert("RETR"@.len() == 4 && "RETR"@[0] == 'R' && "RETR"@[1] == 'E');
    assert("上传"@.len() == 2 && "上传"@[0] == '上' && "上传"@[1] == '传');
    assert("PUT"@.len() == 3 && "PUT"@[0] == 'P' && "PUT"@[1] == 'U');
    assert("STOR"@.len() == 4 && "STOR"@[0] == 'S' && "STOR"@[1] == 'T');
    assert("切换"@.len() == 2 && "切换"@[0] == '切' && "切换"@[1] == '换');
    assert("CWD"@.len() == 3 && "CWD"@[0] == 'C' && "CWD"@[1] == 'W');
    assert("CD"@.len() == 2 && "CD"@[0] == 'C' && "CD"@[1] == 'D');
    assert("当前目录"@.len() == 4 && "当前目录"@[0] == '当' && "当前目录"@[1] == '前');
    assert("PWD"@.len() == 3 && "PWD"@[0] == 'P' && "PWD"@[1] == 'W');
    assert("创建目录"@.len() == 4 && "创建目录"@[0] == '创' && "创建目录"@[1] == '建');
    assert("MKD"@.len() == 3 && "MKD"@[0] == 'M' && "MKD"@[1] == 'K');
    assert("MKDIR"@.len() == 5 && "MKDIR"@[0] == 'M' && "MKDIR"@[1] == 'K');
    assert("删除目录"@.len() == 4 && "删除目录"@[0] == '删' && "删除目录"@[1] == '除');
    assert("RMD"@.len() == 3 && "RMD"@[0] == 'R' && "RMD"@[1] == 'M');
    assert("RMDIR"@.len() == 5 && "RMDIR"@[0] == 'R' && "RMDIR"@[1] == 'M');
    assert("删除"@.len() == 2 && "删除"@[0] == '删' && "删除"@[1] == '除');
    assert("DELE"@.len() == 4 && "DELE"@[0] == 'D' && "DELE"@[1] == 'E');
    assert("DEL"@.len() == 3 && "DEL"@[0] == 'D' && "DEL"@[1] == 'E');
    assert("RM"@.len() == 2 && "RM"@[0] == 'R' && "RM"@[1] == 'M');
    assert("重命名"@.len() == 3 && "重命名"@[0] == '重' && "重命名"@[1] == '命');
    assert("REN"@.len() == 3 && "REN"@[0] == 'R' && "REN"@[1] == 'E');
    assert("RENAME"@.len() == 6 && "RENAME"@[0] == 'R' && "RENAME"@[1] == 'E');
    assert("MV"@.len() == 2 && "MV"@[0] == 'M' && "MV"@[1] == 'V');
    assert("大小"@.len() == 2 && "大小"@[0] == '大' && "大小"@[1] == '小');
    assert("SIZE"@.len() == 4 && "SIZE"@[0] == 'S' && "SIZE"@[1] == 'I');
    assert("退出"@.len() == 2 && "退出"@[0] == '退' && "退出"@[1] == '出');
    assert("QUIT"@.len() == 4 && "QUIT"@[0] == 'Q' && "QUIT"@[1] == 'U');
    assert("BYE"@.len() == 3 && "BYE"@[0] == 'B' && "BYE"@[1] == 'Y');
    assert("exit"@.len() == 4 && "exit"@[0] == 'e' && "exit"@[1] == 'x');
}

/// A command word reads a line the way another word of the same verb does.
proof fn lemma_alias_reads_as(w: Seq<char>, c: Seq<char>, x: Seq<char>)
    requires
        is_command_word(w),
        is_command_word(c),
        verb_of(w) is Some,
        verb_of(w) == verb_of(c),
        is_trimmed(x),
    ensures
        parse_command(w + " "@ + x) == parse_command(c + " "@ + x),
{
    reveal_strlit(" ");
    assert(" "@ =~= seq![' ']);
    assert(w + " "@ + x =~= w + seq![' '] + x);
    assert(c + " "@ + x =~= c + seq![' '] + x);
    lemma_parts_of_word_and_args(w, x);
    lemma_parts_of_word_and_args(c, x);
}

/// Law: every spelling of a command word reads a line as the Chinese word of
/// its command does: `USER`, `PASS`, `LIST`/`ls`/`LS`, `GET`/`RETR`,
/// `PUT`/`STOR`, `CWD`/`CD`, `PWD`, `MKD`/`MKDIR`, `RMD`/`RMDIR`,
/// `DELE`/`DEL`/`RM`, `REN`/`RENAME`/`MV`, `SIZE` and `QUIT`/`BYE`/`exit`,
/// followed by any arguments.
pub proof fn lemma_command_aliases(x: Seq<char>)
    requires
        is_trimmed(x),
    ensures
        parse_command("USER"@ + " "@ + x) == parse_command("用户"@ + " "@ + x),
        parse_command("PASS"@ + " "@ + x) == parse_command("密码"@ + " "@ + x),
        parse_command("LIST"@ + " "@ + x) == parse_command("列表"@ + " "@ + x),
        parse_command("ls"@ + " "@ + x) == parse_command("列表"@ + " "@ + x),
        parse_command("LS"@ + " "@ + x) == parse_command("列表"@ + " "@ + x),
        parse_command("GET"@ + " "@ + x) == parse_command("下载"@ + " "@ + x),
        parse_command("RETR"@ + " "@ + x) == parse_command("下载"@ + " "@ + x),
        parse_command("PUT"@ + " "@ + x) == parse_command("上传"@ + " "@ + x),
        parse_command("STOR"@ + " "@ + x) == parse_command("上传"@ + " "@ + x),
        parse_command("CWD"@ + " "@ + x) == parse_command("切换"@ + " "@ + x),
        parse_command("CD"@ + " "@ + x) == parse_command("切换"@ + " "@ + x),
        parse_command("PWD"@ + " "@ + x) == parse_command("当前目录"@ + " "@ + x),
        parse_command("MKD"@ + " "@ + x) == parse_command("创建目录"@ + " "@ + x),
        parse_command("MKDIR"@ + " "@ + x) == parse_command("创建目录"@ + " "@ + x),
        parse_command("RMD"@ + " "@ + x) == parse_command("删除目录"@ + " "@ + x),
        parse_command("RMDIR"@ + " "@ + x) == parse_command("删除目录"@ + " "@ + x),
        parse_command("DELE"@ + " "@ + x) == parse_command("删除"@ + " "@ + x),
        parse_command("DEL"@ + " "@ + x) == parse_command("删除"@ + " "@ + x),
        parse_command("RM"@ + " "@ + x) == parse_command("删除"@ + " "@ + x),
        parse_command("REN"@ + " "@ + x) == parse_command("重命名"@ + " "@ + x),
        parse_command("RENAME"@ + " "@ + x) == parse_command("重命名"@ + " "@ + x),
        parse_command("MV"@ + " "@ + x) == parse_command("重命名"@ + " "@ + x),
        parse_command("SIZE"@ + " "@ + x) == parse_command("大小"@ + " "@ + x),
        parse_command("QUIT"@ + " "@ + x) == parse_command("退出"@ + " "@ + x),
        parse_command("BYE"@ + " "@ + x) == parse_command("退出"@ + " "@ + x),
        parse_command("exit"@ + " "@ + x) == parse_command("退出"@ + " "@ + x),
{
    lemma_command_words();
    lemma_alias_words();
    lemma_alias_reads_as("USER"@, "用户"@, x);
    lemma_alias_reads_as("PASS"@, "密码"@, x);
    lemma_alias_reads_as("LIST"@, "列表"@, x);
    lemma_alias_reads_as("ls"@, "列表"@, x);
    lemma_alias_reads_as("LS"@, "列表"@, x);
    lemma_alias_reads_as("GET"@, "下载"@, x);
    lemma_alias_reads_as("RETR"@, "下载"@, x);
    lemma_alias_reads_as("PUT"@, "上传"@, x);
    lemma_alias_reads_as("STOR"@, "上传"@, x);
    lemma_alias_reads_as("CWD"@, "切换"@, x);
    lemma_alias_reads_as("CD"@, "切换"@, x);
    lemma_alias_reads_as("PWD"@, "当前目录"@, x);
    lemma_alias_reads_as("MKD"@, "创建目录"@, x);
    lemma_alias_reads_as("MKDIR"@, "创建目录"@, x);
    lemma_alias_reads_as("RMD"@, "删除目录"@, x);
    lemma_alias_reads_as("RMDIR"@, "删除目录"@, x);
    lemma_alias_reads_as("DELE"@, "删除"@, x);
    lemma_alias_reads_as("DEL"@, "删除"@, x);
    lemma_alias_reads_as("RM"@, "删除"@, x);
    lemma_alias_reads_as("REN"@, "重命名"@, x);
    lemma_alias_reads_as("RENAME"@, "重命名"@, x);
    lemma_alias_reads_as("MV"@, "重命名"@, x);
    lemma_alias_reads_as("SIZE"@, "大小"@, x);
    lemma_alias_reads_as("QUIT"@, "退出"@, x);
    lemma_alias_reads_as("BYE"@, "退出"@, x);
    lemma_alias_reads_as("exit"@, "退出"@, x);
}

/// Law: a response line reads back as the response that was written, for
/// every code and every message that does not end in whitespace (a trailing
/// blank, or an empty message, is lost to the line's trimming).
pub proof fn lemma_response_round_trip(code: u16, message: Seq<char>)
    requires
        message.len() > 0,
        !is_ws(message.last()),
    ensures
        parse_response(format_text(code, message)) == Ok::<(u16, Seq<char>), Seq<char>>(
            (code, message),
        ),
{
    reveal_strlit(" ");
    let d = decimal_digits(code as nat);
    lemma_decimal_digits(code as nat);
    lemma_parse_decimal_digits(code as nat);
    let s = d + seq![' '] + message;
    assert(format_text(code, message) =~= s);
    assert(s[0] == d[0]);
    assert(s.last() == message.last());
    lemma_trim_start_noop(s);
    lemma_trim_end_noop(s);
    lemma_first_index_concat(d, ' ', message);
    assert(s.take(d.len() as int) =~= d);
    assert(s.skip(d.len() as int + 1) =~= message);
}

} // verus!
