//! The state of one client connection: who is logged in, the user name
//! waiting for its password, the home directory and the current directory,
//! and how a client's path is mapped into the home directory.
use vstd::prelude::*;

use crate::path::{
    component_ranges, components, is_normal_component, join_path, join_paths,
    lemma_components_normal, lemma_resolve_keeps_normal, lemma_segments_concat,
    lemma_segments_join, push_joined, resolve, segments,
};
use crate::protocol::{
    parse_command, Command, CommandView, ProtocolError, ProtocolErrorView, Response, ResponseCode,
};
use crate::text::{chars_of, decimal_digits, join, push_decimal};

verus! {

/// The mathematical state of a [`Session`].
pub struct SessionView {
    /// The user logged in, if any.
    pub username: Option<Seq<char>>,
    /// The user name given by the last user command, waiting for a password.
    pub pending_username: Option<Seq<char>>,
    /// The home directory on the server's disk of the user logged in.
    pub home_dir: Option<Seq<char>>,
    /// The current directory, relative to the home directory.
    pub current_dir: Seq<char>,
}

/// The state of one client connection.
pub struct Session {
    username: Option<String>,
    pending_username: Option<String>,
    home_dir: Option<String>,
    current_dir: String,
}

pub open spec fn opt_view(o: Option<String>) -> Option<Seq<char>> {
    match o {
        Some(s) => Some(s@),
        None => None,
    }
}

/// The path on disk for a client's path `rel`: the client path is taken
/// relative to `current` (unless absolute), its `.` and `..` are resolved,
/// and what remains is placed under `home`.
pub open spec fn full_path_of(home: Seq<char>, current: Seq<char>, rel: Seq<char>) -> Seq<char> {
    join_path(home, join(components(join_path(current, rel)), seq!['/']))
}

impl View for Session {
    type V = SessionView;

    closed spec fn view(&self) -> SessionView {
        SessionView {
            username: opt_view(self.username),
            pending_username: opt_view(self.pending_username),
            home_dir: opt_view(self.home_dir),
            current_dir: self.current_dir@,
        }
    }
}

fn opt_str(o: &Option<String>) -> (r: Option<&str>)
    ensures
        r matches Some(x) ==> opt_view(*o) == Some(x@),
        r is None ==> o is None,
{
    match o {
        Some(s) => Some(s.as_str()),
        None => None,
    }
}

impl Session {
    /// A user is logged in only together with a home directory.
    #[verifier::type_invariant]
    spec fn inv(self) -> bool {
        self.username is Some ==> self.home_dir is Some
    }

    /// A fresh session: nobody logged in, empty current directory.
    pub fn new() -> (s: Session)
        ensures
            s@ == (SessionView {
                username: None,
                pending_username: None,
                home_dir: None,
                current_dir: Seq::empty(),
            }),
    {
        Session {
            username: None,
            pending_username: None,
            home_dir: None,
            current_dir: String::new(),
        }
    }

    /// Whether a user is logged in.
    pub fn is_authenticated(&self) -> (b: bool)
        ensures
            b == self@.username is Some,
            b ==> self@.home_dir is Some,
    {
        proof {
            use_type_invariant(self);
        }
        self.username.is_some()
    }

    /// The user logged in.
    pub fn username(&self) -> (r: Option<&str>)
        ensures
            r matches Some(x) ==> self@.username == Some(x@),
            r is None ==> self@.username is None,
    {
        opt_str(&self.username)
    }

    /// Logs `username` in with home directory `home_dir`: the pending user
    /// name is cleared and the current directory becomes `/`.
    pub fn set_user(&mut self, username: String, home_dir: String)
        ensures
            final(self)@ == (SessionView {
                username: Some(username@),
                pending_username: None,
                home_dir: Some(home_dir@),
                current_dir: seq!['/'],
            }),
    {
        let mut root = String::new();
        crate::text::push_char(&mut root, '/');
        *self = Session {
            username: Some(username),
            pending_username: None,
            home_dir: Some(home_dir),
            current_dir: root,
        };
    }

    /// The user name waiting for its password.
    pub fn pending_username(&self) -> (r: Option<&str>)
        ensures
            r matches Some(x) ==> self@.pending_username == Some(x@),
            r is None ==> self@.pending_username is None,
    {
        opt_str(&self.pending_username)
    }

    /// Records the user name given by a user command.
    pub fn set_pending_username(&mut self, username: String)
        ensures
            final(self)@ == (SessionView { pending_username: Some(username@), ..old(self)@ }),
    {
        proof {
            use_type_invariant(&*self);
        }
        self.pending_username = Some(username);
    }

    /// The home directory of the user logged in.
    pub fn home_dir(&self) -> (r: Option<&str>)
        ensures
            r matches Some(x) ==> self@.home_dir == Some(x@),
            r is None ==> self@.home_dir is None,
    {
        opt_str(&self.home_dir)
    }

    /// The current directory, relative to the home directory.
    pub fn current_dir(&self) -> (r: &str)
        ensures
            r@ == self@.current_dir,
    {
        self.current_dir.as_str()
    }

    /// Changes the current directory.
    pub fn set_current_dir(&mut self, dir: String)
        ensures
            final(self)@ == (SessionView { current_dir: dir@, ..old(self)@ }),
    {
        proof {
            use_type_invariant(&*self);
        }
        self.current_dir = dir;
    }

    /// The path on disk for the client's path `relative_path`, or `None` when
    /// no home directory is set (see [`full_path_of`]).
    pub fn full_path(&self, relative_path: &str) -> (r: Option<String>)
        ensures
            r is Some <==> self@.home_dir is Some,
            r matches Some(p) ==> p@ == full_path_of(
                self@.home_dir.unwrap(),
                self@.current_dir,
                relative_path@,
            ),
    {
        match &self.home_dir {
            None => None,
            Some(home) => {
                let target = join_paths(self.current_dir.as_str(), relative_path);
                let v = chars_of(target.as_str());
                let ranges = component_ranges(&v);
                let mut joined = String::new();
                push_joined(&mut joined, &v, &ranges);
                assert(joined@ =~= join(components(target@), seq!['/']));
                Some(join_paths(home.as_str(), joined.as_str()))
            },
        }
    }
}

// ---------------------------------------------------------------------------
// The connection's request loop
// ---------------------------------------------------------------------------

/// The banner sent when a connection opens: 220 欢迎使用 QuicFTP 服务器.
pub fn welcome_banner() -> (r: Response)
    ensures
        r.code == 220,
        r.message@ == "欢迎使用 QuicFTP 服务器"@,
{
    Response::new(ResponseCode::ServiceReady, "欢迎使用 QuicFTP 服务器")
}

/// What the server does with a request line.
pub enum Request {
    /// The client quits: send this response and close.
    Quit(Response),
    /// The line is not a command: send this response.
    Invalid(Response),
    /// Handle this command.
    Command(Command),
}

/// Reads a request line: quitting is answered 221 再见, a line that does not
/// parse is answered 501 with the parse error, anything else is a command.
pub fn interpret_request(text: &str) -> (r: Request)
    ensures
        match parse_command(text@) {
            Ok(CommandView::Quit) => r matches Request::Quit(resp) && resp.code == 221
                && resp.message@ == "再见"@,
            Ok(c) => r matches Request::Command(cmd) && cmd@ == c,
            Err(e) => r matches Request::Invalid(resp) && resp.code == 501 && (!(e is Io)
                ==> resp.message@ == "无效命令: "@ + error_text(e)),
        },
{
    match Command::parse(text) {
        Ok(Command::Quit) => Request::Quit(Response::new(ResponseCode::ConnectionClosing, "再见")),
        Ok(cmd) => Request::Command(cmd),
        Err(e) => {
            let mut m = String::from_str("无效命令: ");
            let detail = e.message();
            m.append(detail.as_str());
            Request::Invalid(Response::new(ResponseCode::SyntaxError, m.as_str()))
        },
    }
}

/// The text of a protocol error other than an I/O error (as
/// [`ProtocolError::message`] gives it).
pub open spec fn error_text(e: ProtocolErrorView) -> Seq<char> {
    match e {
        ProtocolErrorView::UnknownCommand(s) => "未知命令: "@ + s,
        ProtocolErrorView::InvalidCommand(s) => "无效命令: "@ + s,
        ProtocolErrorView::InvalidResponse(s) => "无效响应: "@ + s,
        ProtocolErrorView::ConnectionClosed => "连接已关闭"@,
        ProtocolErrorView::Io => "IO错误: "@,
    }
}

/// A file transfer that follows a command's response.
pub enum Transfer {
    /// No transfer.
    Nothing,
    /// Send this file on a new stream.
    SendFile(String),
    /// Receive a file on a new stream and store it at the first path; the
    /// second is the client's name for it.
    ReceiveFile(String, String),
}

/// The transfer that follows the response `response` to `command`: a
/// download or upload that was answered 150 moves the file at the command's
/// path on disk.
pub fn transfer_after(command: &Command, response: &Response, session: &Session) -> (t: Transfer)
    ensures
        match command@ {
            CommandView::Get(path) => if response.code == 150 && session@.home_dir is Some {
                t matches Transfer::SendFile(p) && p@ == full_path_of(
                    session@.home_dir.unwrap(),
                    session@.current_dir,
                    path,
                )
            } else {
                t is Nothing
            },
            CommandView::Put(path, _) => if response.code == 150 && session@.home_dir is Some {
                t matches Transfer::ReceiveFile(p, name) && p@ == full_path_of(
                    session@.home_dir.unwrap(),
                    session@.current_dir,
                    path,
                ) && name@ == path
            } else {
                t is Nothing
            },
            _ => t is Nothing,
        },
{
    match command {
        Command::Get(path) => {
            if response.code == 150 {
                match session.full_path(path.as_str()) {
                    Some(p) => Transfer::SendFile(p),
                    None => Transfer::Nothing,
                }
            } else {
                Transfer::Nothing
            }
        },
        Command::Put(remote_name, _) => {
            if response.code == 150 {
                match session.full_path(remote_name.as_str()) {
                    Some(p) => Transfer::ReceiveFile(p, remote_name.as_str().to_owned()),
                    None => Transfer::Nothing,
                }
            } else {
                Transfer::Nothing
            }
        },
        _ => Transfer::Nothing,
    }
}

/// The response once an upload is stored: 226 上传完成: <name> (<n> 字节).
pub fn upload_complete(remote_name: &str, size: u64) -> (r: Response)
    ensures
        r.code == 226,
        r.message@ == "上传完成: "@ + remote_name@ + " ("@ + decimal_digits(size as nat) + " 字节)"@,
{
    let mut m = String::from_str("上传完成: ");
    m.append(remote_name);
    m.append(" (");
    push_decimal(&mut m, size);
    m.append(" 字节)");
    Response::new(ResponseCode::TransferComplete, m.as_str())
}

// ---------------------------------------------------------------------------
// Laws
// ---------------------------------------------------------------------------

proof fn lemma_join_components(cs: Seq<Seq<char>>)
    requires
        forall|k: int| 0 <= k < cs.len() ==> is_normal_component(#[trigger] cs[k]),
    ensures
        cs.len() > 0 ==> join(cs, seq!['/']).len() > 0 && join(cs, seq!['/'])[0] != '/',
    decreases cs.len(),
{
    if cs.len() > 1 {
        let d = cs.drop_last();
        assert forall|k: int| 0 <= k < d.len() implies is_normal_component(#[trigger] d[k]) by {
            assert(d[k] == cs[k]);
        }
        lemma_join_components(d);
        let j = join(d, seq!['/']);
        assert((j + seq!['/'] + cs.last())[0] == j[0]);
    } else if cs.len() == 1 {
        assert(is_normal_component(cs[0]));
        assert(cs[0][0] != '/');
    }
}

/// Law: a client's path never leads out of its home directory. The path on
/// disk is the home directory followed only by normal components: every `.`
/// and `..` of the client's path has been resolved, so none is left to climb
/// above the home.
pub proof fn lemma_full_path_confined(home: Seq<char>, current: Seq<char>, rel: Seq<char>)
    ensures
        forall|k: int|
            0 <= k < components(join_path(current, rel)).len() ==> is_normal_component(
                #[trigger] components(join_path(current, rel))[k],
            ),
        full_path_of(home, current, rel).len() >= home.len(),
        full_path_of(home, current, rel).take(home.len() as int) == home,
{
    let cs = components(join_path(current, rel));
    lemma_components_normal(join_path(current, rel));
    lemma_join_components(cs);
    let j = join(cs, seq!['/']);
    if cs.len() == 0 {
        assert(j == Seq::<char>::empty());
    }
    let f = full_path_of(home, current, rel);
    assert(f.take(home.len() as int) =~= home);
}

/// Ordinary names after a directory add exactly those components.
proof fn lemma_components_after(current: Seq<char>, names: Seq<Seq<char>>)
    requires
        names.len() > 0,
        forall|k: int| 0 <= k < names.len() ==> is_normal_component(#[trigger] names[k]),
    ensures
        components(join_path(current, join(names, seq!['/']))) == components(current) + names,
{
    let rel = join(names, seq!['/']);
    lemma_join_components(names);
    assert forall|k: int, j: int| 0 <= k < names.len() && 0 <= j < names[k].len() implies names[k][j]
        != '/' by {
        assert(is_normal_component(names[k]));
    }
    lemma_segments_join(names);
    lemma_resolve_keeps_normal(segments(current), names);
    if current.len() > 0 && current.last() != '/' {
        lemma_segments_concat(current, rel);
    } else if current.len() == 0 {
        assert(current + rel =~= rel);
        lemma_resolve_keeps_normal(Seq::empty(), names);
        assert(Seq::<Seq<char>>::empty() + names =~= names);
        let one = seq![Seq::<char>::empty()];
        assert(segments(current) =~= one);
        assert(one.drop_last() =~= Seq::<Seq<char>>::empty());
        assert(resolve(one) =~= Seq::<Seq<char>>::empty());
    } else {
        let x = current.drop_last();
        assert(current =~= x + seq!['/']);
        assert(current + rel =~= x + seq!['/'] + rel);
        lemma_segments_concat(x, rel);
        lemma_resolve_keeps_normal(segments(x), names);
        assert(current.last() == '/');
        assert(segments(current) == segments(x).push(Seq::<char>::empty()));
        let sc = segments(current);
        assert(sc.drop_last() =~= segments(x));
        assert(resolve(segments(current)) == resolve(segments(x)));
    }
}

/// Law: a client path made of ordinary names (any name other than `.` and
/// `..`, names that begin with a dot included) leads to exactly those names
/// below the current directory. The path's components are the current
/// directory's followed by the names, so on disk it is the home directory
/// followed by both; from the root it is the home directory joined with the
/// client's path as typed.
pub proof fn lemma_names_lead_below_current(
    home: Seq<char>,
    current: Seq<char>,
    names: Seq<Seq<char>>,
)
    requires
        names.len() > 0,
        forall|k: int| 0 <= k < names.len() ==> is_normal_component(#[trigger] names[k]),
    ensures
        components(join_path(current, join(names, seq!['/']))) == components(current) + names,
        full_path_of(home, current, join(names, seq!['/'])) == join_path(
            home,
            join(components(current) + names, seq!['/']),
        ),
        full_path_of(home, seq!['/'], join(names, seq!['/'])) == join_path(
            home,
            join(names, seq!['/']),
        ),
{
    lemma_components_after(current, names);
    let root = seq!['/'];
    lemma_components_after(root, names);
    assert(root.drop_last() =~= Seq::<char>::empty());
    assert(root.last() == '/');
    assert(segments(Seq::<char>::empty()) =~= seq![Seq::<char>::empty()]);
    assert(segments(root) =~= seq![Seq::<char>::empty()].push(Seq::<char>::empty()));
    assert(resolve(segments(root)) =~= Seq::<Seq<char>>::empty()) by {
        let sr = segments(root);
        let one = seq![Seq::<char>::empty()];
        assert(sr.drop_last() =~= one);
        assert(sr.last() == Seq::<char>::empty());
        assert(one.drop_last() =~= Seq::<Seq<char>>::empty());
        assert(one.last() == Seq::<char>::empty());
        assert(resolve(Seq::<Seq<char>>::empty()) =~= Seq::<Seq<char>>::empty());
        assert(resolve(one) =~= Seq::<Seq<char>>::empty());
    }
    assert(components(root) + names =~= names);
}

} // verus!
