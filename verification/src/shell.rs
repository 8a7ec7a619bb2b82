//! The client shell: what a line typed at the `ftp>` prompt asks for.
use vstd::prelude::*;

use crate::path::{file_name_of, path_file_name};
use crate::protocol::{
    is_trimmed, lemma_parts_of_word_and_args, parse_command, parse_result_view, request_parts, Command, CommandView, ProtocolError,
    ProtocolErrorView,
};
use crate::text::{chars_of, lemma_trim_noop, range_is, string_of, trim, trim_range};

verus! {

/// What a line typed at the prompt asks for.
pub enum ShellAction {
    /// An empty line: prompt again.
    Skip,
    /// Show the help text.
    Help,
    /// Send the quit command and leave.
    Quit,
    /// An upload without a file: show its usage.
    UploadUsage,
    /// Upload the local file under the remote name.
    Upload { local_path: String, remote_name: String },
    /// A download without a file: show its usage.
    DownloadUsage,
    /// Download the remote file into the local name.
    Download { remote_path: String, local_name: String },
    /// Send this command and show the response.
    Send(Command),
    /// The line is not a command.
    Invalid(ProtocolError),
}

/// The mathematical value of a [`ShellAction`].
pub enum ShellActionView {
    Skip,
    Help,
    Quit,
    UploadUsage,
    Upload(Seq<char>, Seq<char>),
    DownloadUsage,
    Download(Seq<char>, Seq<char>),
    Send(CommandView),
    Invalid(ProtocolErrorView),
}

impl View for ShellAction {
    type V = ShellActionView;

    open spec fn view(&self) -> ShellActionView {
        match self {
            ShellAction::Skip => ShellActionView::Skip,
            ShellAction::Help => ShellActionView::Help,
            ShellAction::Quit => ShellActionView::Quit,
            ShellAction::UploadUsage => ShellActionView::UploadUsage,
            ShellAction::Upload { local_path, remote_name } => ShellActionView::Upload(
                local_path@,
                remote_name@,
            ),
            ShellAction::DownloadUsage => ShellActionView::DownloadUsage,
            ShellAction::Download { remote_path, local_name } => ShellActionView::Download(
                remote_path@,
                local_name@,
            ),
            ShellAction::Send(c) => ShellActionView::Send(c@),
            ShellAction::Invalid(e) => ShellActionView::Invalid(e@),
        }
    }
}

pub open spec fn is_help_word(t: Seq<char>) -> bool {
    t == "帮助"@ || t == "help"@ || t == "?"@
}

pub open spec fn is_quit_word(t: Seq<char>) -> bool {
    t == "退出"@ || t == "quit"@ || t == "bye"@ || t == "exit"@
}

pub open spec fn is_upload_word(w: Seq<char>) -> bool {
    w == "上传"@ || w == "put"@
}

pub open spec fn is_download_word(w: Seq<char>) -> bool {
    w == "下载"@ || w == "get"@
}

pub open spec fn is_quote(c: char) -> bool {
    c == '"' || c == '\''
}

/// `a` without one pair of matching surrounding quotes.
pub open spec fn strip_quotes(a: Seq<char>) -> Seq<char> {
    if a.len() >= 2 && is_quote(a[0]) && a.last() == a[0] {
        a.subrange(1, a.len() - 1)
    } else {
        a
    }
}

/// The file name of `p`, or `p` itself when it has none.
pub open spec fn name_or_path(p: Seq<char>) -> Seq<char> {
    match path_file_name(p) {
        Some(n) => n,
        None => p,
    }
}

/// The lines on which the shell's quote stripping would slice past its
/// bounds: an upload whose whole argument is a single quote character.
pub open spec fn strips_lone_quote(line: Seq<char>) -> bool {
    let (w, args) = request_parts(line);
    &&& !is_help_word(trim(line))
    &&& !is_quit_word(trim(line))
    &&& is_upload_word(w)
    &&& args.len() == 1
    &&& is_quote(args[0])
}

/// What a line typed at the prompt asks for.
pub open spec fn shell_action(line: Seq<char>) -> ShellActionView {
    let t = trim(line);
    let (w, args) = request_parts(line);
    if t.len() == 0 {
        ShellActionView::Skip
    } else if is_help_word(t) {
        ShellActionView::Help
    } else if is_quit_word(t) {
        ShellActionView::Quit
    } else if is_upload_word(w) {
        if args.len() == 0 {
            ShellActionView::UploadUsage
        } else {
            ShellActionView::Upload(strip_quotes(args), name_or_path(strip_quotes(args)))
        }
    } else if is_download_word(w) {
        if args.len() == 0 {
            ShellActionView::DownloadUsage
        } else {
            ShellActionView::Download(args, name_or_path(args))
        }
    } else {
        match parse_command(t) {
            Ok(c) => ShellActionView::Send(c),
            Err(e) => ShellActionView::Invalid(e),
        }
    }
}

fn name_or(p: &str) -> (r: String)
    ensures
        r@ == name_or_path(p@),
{
    match file_name_of(p) {
        Some(n) => n,
        None => p.to_owned(),
    }
}

/// Whether `v[a..b]` is one quote character.
fn is_lone_quote(v: &Vec<char>, a: usize, b: usize) -> (r: bool)
    requires
        a <= b <= v@.len(),
    ensures
        r == (v@.subrange(a as int, b as int).len() == 1 && is_quote(v@.subrange(a as int, b as int)[0])),
{
    b - a == 1 && (v[a] == '"' || v[a] == '\'')
}

/// Whether the shell would slice past the bounds of this line (see
/// [`strips_lone_quote`]); the shell panics on such a line.
pub fn strips_lone_quote_at(line: &str) -> (r: bool)
    ensures
        r == strips_lone_quote(line@),
{
    let v = chars_of(line);
    let (a, b) = trim_range(&v, 0, v.len());
    assert(v@.subrange(0, v@.len() as int) =~= v@);
    let help = range_is(&v, a, b, "帮助") || range_is(&v, a, b, "help") || range_is(&v, a, b, "?");
    let quit = range_is(&v, a, b, "退出") || range_is(&v, a, b, "quit") || range_is(&v, a, b, "bye")
        || range_is(&v, a, b, "exit");
    let (wa, wb, xa, xb) = crate::protocol::split_request(&v);
    let upload = range_is(&v, wa, wb, "上传") || range_is(&v, wa, wb, "put");
    !help && !quit && upload && is_lone_quote(&v, xa, xb)
}

/// Reads a line typed at the prompt.
pub fn interpret_line(line: &str) -> (r: ShellAction)
    requires
        !strips_lone_quote(line@),
    ensures
        r@ == shell_action(line@),
{
    let v = chars_of(line);
    let (a, b) = trim_range(&v, 0, v.len());
    assert(v@.subrange(0, v@.len() as int) =~= v@);
    if a == b {
        return ShellAction::Skip;
    }
    if range_is(&v, a, b, "帮助") || range_is(&v, a, b, "help") || range_is(&v, a, b, "?") {
        return ShellAction::Help;
    }
    if range_is(&v, a, b, "退出") || range_is(&v, a, b, "quit") || range_is(&v, a, b, "bye")
        || range_is(&v, a, b, "exit") {
        return ShellAction::Quit;
    }
    let (wa, wb, xa, xb) = crate::protocol::split_request(&v);
    if range_is(&v, wa, wb, "上传") || range_is(&v, wa, wb, "put") {
        if xa == xb {
            return ShellAction::UploadUsage;
        }
        let ghost args = v@.subrange(xa as int, xb as int);
        let (la, lb) = if xb - xa >= 2 && (v[xa] == '"' || v[xa] == '\'') && v[xb - 1] == v[xa] {
            assert(args.last() == v@[xb - 1]);
            assert(v@.subrange(xa + 1, xb - 1) =~= args.subrange(1, args.len() - 1));
            (xa + 1, xb - 1)
        } else {
            (xa, xb)
        };
        let local_path = string_of(&v, la, lb);
        let remote_name = name_or(local_path.as_str());
        return ShellAction::Upload { local_path, remote_name };
    }
    if range_is(&v, wa, wb, "下载") || range_is(&v, wa, wb, "get") {
        if xa == xb {
            return ShellAction::DownloadUsage;
        }
        let remote_path = string_of(&v, xa, xb);
        let local_name = name_or(remote_path.as_str());
        return ShellAction::Download { remote_path, local_name };
    }
    let input = string_of(&v, a, b);
    match Command::parse(input.as_str()) {
        Ok(c) => ShellAction::Send(c),
        Err(e) => ShellAction::Invalid(e),
    }
}

/// An upload line `上传 <arg>` with a trimmed, nonempty argument is read as
/// an upload of that argument (less one pair of matching quotes).
proof fn lemma_upload_line(a: Seq<char>)
    requires
        a.len() > 0,
        is_trimmed(a),
    ensures
        shell_action("上传"@ + " "@ + a) == ShellActionView::Upload(
            strip_quotes(a),
            name_or_path(strip_quotes(a)),
        ),
{
    reveal_strlit("上传");
    reveal_strlit(" ");
    reveal_strlit("帮助");
    reveal_strlit("help");
    reveal_strlit("?");
    reveal_strlit("退出");
    reveal_strlit("quit");
    reveal_strlit("bye");
    reveal_strlit("exit");
    let w = "上传"@;
    assert(w =~= seq!['上', '传']);
    let line = w + " "@ + a;
    assert(line =~= w + seq![' '] + a);
    assert(line[0] == '上');
    assert(line.last() == a.last());
    lemma_trim_noop(line);
    assert(trim(line) == line);
    assert(line.len() >= 4);
    assert(!is_help_word(line)) by {
        assert("帮助"@[0] == '帮' && "help"@[0] == 'h' && "?"@[0] == '?');
    }
    assert(!is_quit_word(line)) by {
        assert("退出"@[0] == '退' && "quit"@[0] == 'q' && "bye"@[0] == 'b' && "exit"@[0] == 'e');
    }
    lemma_parts_of_word_and_args(w, a);
}

/// Law: the path typed after the upload word is uploaded whole. A bare path
/// is the local path as it stands, spaces included, and the remote name is
/// its last component (or the path itself when it has none).
pub proof fn lemma_upload_keeps_bare_path(p: Seq<char>)
    requires
        p.len() > 0,
        is_trimmed(p),
        !(p.len() >= 2 && is_quote(p[0]) && p.last() == p[0]),
    ensures
        shell_action("上传"@ + " "@ + p) == ShellActionView::Upload(p, name_or_path(p)),
{
    lemma_upload_line(p);
}

/// Law: a path typed in quotes (double or single) after the upload word is
/// uploaded as the text between the quotes, whatever that text holds.
pub proof fn lemma_upload_unquotes_path(p: Seq<char>, quote: char)
    requires
        is_quote(quote),
    ensures
        shell_action("上传"@ + " "@ + (seq![quote] + p + seq![quote])) == ShellActionView::Upload(
            p,
            name_or_path(p),
        ),
{
    let q = seq![quote] + p + seq![quote];
    assert(q[0] == quote && q.last() == quote);
    lemma_upload_line(q);
    assert(q.subrange(1, q.len() - 1) =~= p);
}

} // verus!
