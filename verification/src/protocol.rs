//! The messages of an upload or start session, as the client writes them and as the
//! server reads them.
use vstd::prelude::*;
use vstd::slice::*;
use vstd::string::*;
use vstd::utf8::*;

use crate::frame::append_bytes;
use crate::text::{
    all_white_space, contains_dot_dot, first_index, find_char, has_dot_dot, is_first_index,
    is_white_space, lemma_dot_dot_split, lemma_encode_utf8_concat, lemma_first_index_exists,
    lemma_first_index_unique, lemma_trim_ws_push_white_space, lemma_trim_ws_surrounded, trim,
    trim_ws,
};

verus! {

/// The request that opens an upload session.
pub const UPLOAD_REQUEST: &'static str = "upload";

/// The request that opens a start session.
pub const START_REQUEST: &'static str = "start";

/// The reply with which the server accepts a request.
pub const ACCEPT_REPLY: &'static str = "r";

/// The first byte of an accepting reply: `r`.
pub const ACCEPT_BYTE: u8 = 114;

/// `UPLOAD <name>\n`: opens the upload of the project `name`.
pub open spec fn upload_message_spec(name: Seq<char>) -> Seq<char> {
    seq!['U', 'P', 'L', 'O', 'A', 'D', ' '] + name + seq!['\n']
}

/// `START <name>\n`: asks the server to start the project `name`.
pub open spec fn start_message_spec(name: Seq<char>) -> Seq<char> {
    seq!['S', 'T', 'A', 'R', 'T', ' '] + name + seq!['\n']
}

/// `FILE <relative>\n`: the line that precedes the contents of the file `relative`.
pub open spec fn file_header_spec(relative: Seq<char>) -> Seq<char> {
    seq!['F', 'I', 'L', 'E', ' '] + relative + seq!['\n']
}

/// `END\n`: the message with which the client closes an upload.
pub open spec fn end_message_spec() -> Seq<char> {
    seq!['E', 'N', 'D', '\n']
}

/// The message at which the server ends an upload: `END`.
pub open spec fn end_marker() -> Seq<char> {
    seq!['E', 'N', 'D']
}

pub open spec fn upload_word() -> Seq<char> {
    seq!['u', 'p', 'l', 'o', 'a', 'd']
}

/// `UPLOAD <name>\n`.
pub fn upload_message(name: &str) -> (msg: String)
    ensures
        msg@ == upload_message_spec(name@),
{
    let mut msg = String::from_str("UPLOAD ");
    msg.append(name);
    msg.append("\n");
    proof {
        reveal_strlit("UPLOAD ");
        reveal_strlit("\n");
        assert(msg@ =~= upload_message_spec(name@));
    }
    msg
}

/// `START <name>\n`.
pub fn start_message(name: &str) -> (msg: String)
    ensures
        msg@ == start_message_spec(name@),
{
    let mut msg = String::from_str("START ");
    msg.append(name);
    msg.append("\n");
    proof {
        reveal_strlit("START ");
        reveal_strlit("\n");
        assert(msg@ =~= start_message_spec(name@));
    }
    msg
}

/// `END\n`.
pub fn end_message() -> (msg: String)
    ensures
        msg@ == end_message_spec(),
{
    let msg = String::from_str("END\n");
    proof {
        reveal_strlit("END\n");
        assert(msg@ =~= end_message_spec());
    }
    msg
}

/// The message that carries one file: `FILE <relative>\n` in UTF-8, then the bytes of the
/// file.
pub fn file_message(relative: &str, data: &[u8]) -> (msg: Vec<u8>)
    ensures
        msg@ == encode_utf8(file_header_spec(relative@)) + data@,
{
    let mut header = String::from_str("FILE ");
    header.append(relative);
    header.append("\n");
    proof {
        reveal_strlit("FILE ");
        reveal_strlit("\n");
        assert(header@ =~= file_header_spec(relative@));
    }
    let mut msg = slice_to_vec(header.as_str().as_bytes());
    append_bytes(&mut msg, data);
    msg
}

/// Whether a reply accepts the request: it holds at least one byte, and the first is `r`.
pub fn is_accepted(reply: &[u8]) -> (accepted: bool)
    ensures
        accepted == (reply@.len() >= 1 && reply@[0] == ACCEPT_BYTE),
{
    reply.len() >= 1 && reply[0] == ACCEPT_BYTE
}

/// Whether a request asks for an upload: without its leading and trailing whitespace it is
/// `upload`.
pub fn is_upload_request(request: &str) -> (upload: bool)
    ensures
        upload == (trim_ws(request@) == upload_word()),
{
    let t = trim(request);
    let n = t.unicode_len();
    if n != 6 {
        return false;
    }
    let upload = t.get_char(0) == 'u' && t.get_char(1) == 'p' && t.get_char(2) == 'l' && t.get_char(3)
        == 'o' && t.get_char(4) == 'a' && t.get_char(5) == 'd';
    proof {
        if upload {
            assert(t@ =~= upload_word());
        } else {
            assert(t@ != upload_word()) by {
                if t@ == upload_word() {
                    assert(t@[0] == 'u' && t@[1] == 'p' && t@[2] == 'l' && t@[3] == 'o');
                    assert(t@[4] == 'a' && t@[5] == 'd');
                }
            }
        }
    }
    upload
}

/// The project that an upload names: what follows the first space, without leading and
/// trailing whitespace.
pub open spec fn project_name_spec(upload: Seq<char>) -> Seq<char> {
    let i = first_index(upload, ' ').unwrap();
    trim_ws(upload.subrange(i + 1, upload.len() as int))
}

/// The project that the message opening an upload names: the text after its first space,
/// without leading and trailing whitespace.
///
/// The message must hold a space.
pub fn project_name(upload: &str) -> (name: String)
    requires
        first_index(upload@, ' ') is Some,
    ensures
        name@ == project_name_spec(upload@),
{
    let n = upload.unicode_len();
    match find_char(upload, ' ') {
        Some(i) => {
            let rest = upload.substring_char(i + 1, n);
            trim(rest).to_owned()
        },
        None => {
            proof {
                assert(false);
            }
            String::new()
        },
    }
}


/// What the server does with one message of an upload.
#[derive(Debug)]
pub enum UploadStep {
    /// The upload is over.
    End,
    /// The message is ignored.
    Skip,
    /// The file `path`, relative to the project's directory and never leaving it (see
    /// [`stays_below`]), is written with `data`.
    Write { path: String, data: Vec<u8> },
}

/// The mathematical form of an [`UploadStep`].
pub enum UploadStepView {
    End,
    Skip,
    Write(Seq<char>, Seq<u8>),
}

impl View for UploadStep {
    type V = UploadStepView;

    open spec fn view(&self) -> UploadStepView {
        match self {
            UploadStep::End => UploadStepView::End,
            UploadStep::Skip => UploadStepView::Skip,
            UploadStep::Write { path, data } => UploadStepView::Write(path@, data@),
        }
    }
}

/// Whether the header line of `msg` is `FILE` with nothing after it: a message on which
/// the server cannot carry on.
pub open spec fn file_header_without_path(msg: Seq<char>) -> bool {
    &&& msg != end_marker()
    &&& first_index(msg, '\n') == Some(4int)
    &&& msg.subrange(0, 4) == seq!['F', 'I', 'L', 'E']
}

/// Whether a path, joined to a directory, names something inside that directory: it is
/// relative (it does not start with `/`) and holds no two dots in a row, so no `..`
/// component.
pub open spec fn stays_below(path: Seq<char>) -> bool {
    &&& !(path.len() > 0 && path[0] == '/')
    &&& !has_dot_dot(path)
}

/// Whether a project name can name a directory of its own under the node root: it holds
/// no `/` and no two dots in a row.
pub open spec fn safe_project_name(name: Seq<char>) -> bool {
    &&& forall|i: int| 0 <= i < name.len() ==> name[i] != '/'
    &&& !has_dot_dot(name)
}

/// Whether `path` stays below the directory it is joined to; see [`stays_below`].
pub fn path_stays_below(path: &str) -> (below: bool)
    ensures
        below == stays_below(path@),
{
    let n = path.unicode_len();
    if n > 0 && path.get_char(0) == '/' {
        return false;
    }
    !contains_dot_dot(path)
}

/// Whether `name` can name a project directory; see [`safe_project_name`]. Such a name
/// stays below the node root.
pub fn is_safe_project_name(name: &str) -> (safe: bool)
    ensures
        safe == safe_project_name(name@),
        safe ==> stays_below(name@),
{
    match find_char(name, '/') {
        Some(i) => {
            proof {
                let k = choose|k: int| is_first_index(name@, '/', k);
                assert(is_first_index(name@, '/', k));
            }
            false
        },
        None => {
            proof {
                assert forall|i: int| 0 <= i < name@.len() implies name@[i] != '/' by {
                    if name@[i] == '/' {
                        lemma_first_index_exists(name@, '/', i);
                    }
                }
            }
            !contains_dot_dot(name)
        },
    }
}

/// The step that the server takes on one message of an upload.
///
/// `END` ends the upload. A message without a line feed is ignored. Otherwise the line
/// before the first line feed is the header: where it is `FILE `, then a path that stays
/// below the project's directory, the file at that path is written with what follows the
/// line feed, in UTF-8; any other message is ignored.
pub open spec fn upload_step_spec(msg: Seq<char>) -> UploadStepView {
    if msg == end_marker() {
        UploadStepView::End
    } else {
        match first_index(msg, '\n') {
            None => UploadStepView::Skip,
            Some(nl) => {
                if nl >= 5 && msg.subrange(0, 4) == seq!['F', 'I', 'L', 'E'] && msg[4] == ' ' {
                    let relative = msg.subrange(5, nl);
                    if !stays_below(relative) {
                        UploadStepView::Skip
                    } else {
                        UploadStepView::Write(
                            relative,
                            encode_utf8(msg.subrange(nl + 1, msg.len() as int)),
                        )
                    }
                } else {
                    UploadStepView::Skip
                }
            },
        }
    }
}

/// Whether the header line of `msg` is `FILE` with nothing after it; see
/// [`file_header_without_path`].
pub fn lacks_file_path(msg: &str) -> (lacks: bool)
    ensures
        lacks == file_header_without_path(msg@),
{
    let n = msg.unicode_len();
    if n == 3 && msg.get_char(0) == 'E' && msg.get_char(1) == 'N' && msg.get_char(2) == 'D' {
        assert(msg@ =~= end_marker());
        return false;
    }
    assert(msg@ != end_marker()) by {
        if msg@ == end_marker() {
            assert(msg@[0] == 'E' && msg@[1] == 'N' && msg@[2] == 'D');
        }
    }
    match find_char(msg, '\n') {
        Some(nl) => {
            if nl != 4 {
                return false;
            }
            let lacks = msg.get_char(0) == 'F' && msg.get_char(1) == 'I' && msg.get_char(2) == 'L'
                && msg.get_char(3) == 'E';
            proof {
                let ghost four = msg@.subrange(0, 4);
                if lacks {
                    assert(four =~= seq!['F', 'I', 'L', 'E']);
                } else if four == seq!['F', 'I', 'L', 'E'] {
                    assert(four[0] == msg@[0] && four[1] == msg@[1]);
                    assert(four[2] == msg@[2] && four[3] == msg@[3]);
                }
            }
            lacks
        },
        None => false,
    }
}

/// The step that the server takes on one message of an upload; see [`upload_step_spec`].
/// A path that it writes stays below the project's directory.
pub fn upload_step(msg: &str) -> (step: UploadStep)
    requires
        !file_header_without_path(msg@),
    ensures
        step@ == upload_step_spec(msg@),
        step@ matches UploadStepView::Write(path, _) ==> stays_below(path),
{
    let n = msg.unicode_len();
    if n == 3 && msg.get_char(0) == 'E' && msg.get_char(1) == 'N' && msg.get_char(2) == 'D' {
        assert(msg@ =~= end_marker());
        return UploadStep::End;
    }
    assert(msg@ != end_marker()) by {
        if msg@ == end_marker() {
            assert(msg@[0] == 'E' && msg@[1] == 'N' && msg@[2] == 'D');
        }
    }
    match find_char(msg, '\n') {
        None => UploadStep::Skip,
        Some(nl) => {
            let file = nl >= 5 && msg.get_char(0) == 'F' && msg.get_char(1) == 'I' && msg.get_char(2)
                == 'L' && msg.get_char(3) == 'E' && msg.get_char(4) == ' ';
            proof {
                if nl >= 5 {
                    let ghost four = msg@.subrange(0, 4);
                    if file {
                        assert(four =~= seq!['F', 'I', 'L', 'E']);
                    } else if four == seq!['F', 'I', 'L', 'E'] {
                        assert(four[0] == msg@[0] && four[1] == msg@[1]);
                        assert(four[2] == msg@[2] && four[3] == msg@[3]);
                    }
                }
            }
            if file {
                let relative = msg.substring_char(5, nl);
                if !path_stays_below(relative) {
                    UploadStep::Skip
                } else {
                    let rest = msg.substring_char(nl + 1, n);
                    let data = slice_to_vec(rest.as_bytes());
                    UploadStep::Write { path: relative.to_owned(), data }
                }
            } else {
                UploadStep::Skip
            }
        },
    }
}


/// The project that the server reads from `UPLOAD <name>\n` is `name` without its leading and
/// trailing whitespace, and such a message always holds the space that the server needs.
pub proof fn lemma_upload_message_names_project(name: Seq<char>)
    ensures
        first_index(upload_message_spec(name), ' ') == Some(6int),
        project_name_spec(upload_message_spec(name)) == trim_ws(name),
{
    let m = upload_message_spec(name);
    assert(m[6] == ' ');
    assert forall|j: int| 0 <= j < 6 implies m[j] != ' ' by {
        assert(m[j] == seq!['U', 'P', 'L', 'O', 'A', 'D', ' '][j]);
    }
    lemma_first_index_unique(m, ' ', 6);
    assert(m.subrange(7, m.len() as int) =~= name.push('\n'));
    lemma_trim_ws_push_white_space(name, '\n');
}

/// The server writes what the client sends for one file: `FILE <relative>\n` and then the
/// contents, where the path holds no line feed and stays below the project's directory, is written at
/// `relative` with the contents. The bytes that the client sends for it are the UTF-8
/// encoding of that message.
pub proof fn lemma_file_message_written(relative: Seq<char>, contents: Seq<char>)
    requires
        forall|i: int| 0 <= i < relative.len() ==> relative[i] != '\n',
        stays_below(relative),
    ensures
        !file_header_without_path(file_header_spec(relative) + contents),
        upload_step_spec(file_header_spec(relative) + contents) == UploadStepView::Write(
            relative,
            encode_utf8(contents),
        ),
        encode_utf8(file_header_spec(relative) + contents) == encode_utf8(file_header_spec(relative))
            + encode_utf8(contents),
{
    let m = file_header_spec(relative) + contents;
    let nl: int = 5 + relative.len() as int;
    assert(m[nl] == '\n');
    assert forall|j: int| 0 <= j < nl implies m[j] != '\n' by {
        if j < 5 {
            assert(m[j] == seq!['F', 'I', 'L', 'E', ' '][j]);
        } else {
            assert(m[j] == relative[j - 5]);
        }
    }
    lemma_first_index_unique(m, '\n', nl);
    assert(m != end_marker()) by {
        if m == end_marker() {
            assert(m[0] == 'F');
        }
    }
    assert(m.subrange(0, 4) =~= seq!['F', 'I', 'L', 'E']);
    assert(m[4] == ' ');
    assert(m.subrange(5, nl) =~= relative);
    assert(m.subrange(nl + 1, m.len() as int) =~= contents);
    lemma_encode_utf8_concat(file_header_spec(relative), contents);
}

/// A file whose path would leave the project's directory (it starts with `/` or holds two
/// dots in a row) is never written: the server ignores its message.
pub proof fn lemma_escaping_path_ignored(relative: Seq<char>, contents: Seq<char>)
    requires
        forall|i: int| 0 <= i < relative.len() ==> relative[i] != '\n',
        !stays_below(relative),
    ensures
        !file_header_without_path(file_header_spec(relative) + contents),
        upload_step_spec(file_header_spec(relative) + contents) == UploadStepView::Skip,
{
    let m = file_header_spec(relative) + contents;
    let nl: int = 5 + relative.len() as int;
    assert(m[nl] == '\n');
    assert forall|j: int| 0 <= j < nl implies m[j] != '\n' by {
        if j < 5 {
            assert(m[j] == seq!['F', 'I', 'L', 'E', ' '][j]);
        } else {
            assert(m[j] == relative[j - 5]);
        }
    }
    lemma_first_index_unique(m, '\n', nl);
    assert(m != end_marker()) by {
        if m == end_marker() {
            assert(m[0] == 'F');
        }
    }
    assert(m.subrange(0, 4) =~= seq!['F', 'I', 'L', 'E']);
    assert(m.subrange(5, nl) =~= relative);
}

/// The server ends an upload at the message `END`, and at no other; the `END\n` with
/// which the client closes an upload is a message that the server ignores.
pub proof fn lemma_end_of_upload()
    ensures
        upload_step_spec(end_marker()) == UploadStepView::End,
        !file_header_without_path(end_message_spec()),
        upload_step_spec(end_message_spec()) == UploadStepView::Skip,
        forall|m: Seq<char>| #[trigger] upload_step_spec(m) == UploadStepView::End ==> m
            == end_marker(),
{
    let m = end_message_spec();
    assert(m != end_marker()) by {
        assert(m.len() != end_marker().len());
    }
    assert(m[3] == '\n');
    assert forall|j: int| 0 <= j < 3 implies m[j] != '\n' by {
        assert(m[j] == seq!['E', 'N', 'D', '\n'][j]);
    }
    lemma_first_index_unique(m, '\n', 3);
}

/// The request `upload`, with or without whitespace around it, opens an upload.
pub proof fn lemma_upload_request_recognized(before: Seq<char>, after: Seq<char>)
    requires
        all_white_space(before),
        all_white_space(after),
    ensures
        trim_ws(before + upload_word() + after) == upload_word(),
{
    lemma_trim_ws_surrounded(before, upload_word(), after);
}

/// A file that the server writes lies inside the node root: the path `name/path` below
/// the node root, for a non-empty project name that it accepts and a path that a step
/// writes, stays below the node root.
pub proof fn lemma_project_path_stays_below(name: Seq<char>, path: Seq<char>)
    requires
        name.len() > 0,
        safe_project_name(name),
        stays_below(path),
    ensures
        stays_below(name + seq!['/'] + path),
{
    let full = name + seq!['/'] + path;
    let k = name.len() as int;
    assert(full[0] == name[0]);
    assert forall|i: int| 0 <= i < full.len() - 1 && full[i] == '.' implies #[trigger] full[i + 1]
        != '.' by {
        if i + 1 < k {
            assert(full[i] == name[i] && full[i + 1] == name[i + 1]);
            assert(!(0 <= i < name.len() - 1 && name[i] == '.' && name[i + 1] == '.'));
        } else if i + 1 == k {
            assert(full[i + 1] == '/');
        } else if i == k {
            assert(full[i] == '/');
        } else {
            let j = i - k - 1;
            assert(full[i] == path[j] && full[i + 1] == path[j + 1]);
            assert(!(0 <= j < path.len() - 1 && path[j] == '.' && path[j + 1] == '.'));
        }
    }
}


/// The words of a session, as text: `UPLOAD `, `START `, `FILE `, `END`, `upload`, and
/// the line feed that closes a line.
pub proof fn lemma_message_texts(name: Seq<char>)
    ensures
        upload_message_spec(name) == "UPLOAD "@ + name + "\n"@,
        start_message_spec(name) == "START "@ + name + "\n"@,
        file_header_spec(name) == "FILE "@ + name + "\n"@,
        end_message_spec() == "END\n"@,
        end_marker() == "END"@,
        upload_word() == "upload"@,
{
    reveal_strlit("UPLOAD ");
    reveal_strlit("START ");
    reveal_strlit("FILE ");
    reveal_strlit("\n");
    reveal_strlit("END\n");
    reveal_strlit("END");
    reveal_strlit("upload");
    assert(upload_message_spec(name) =~= "UPLOAD "@ + name + "\n"@);
    assert(start_message_spec(name) =~= "START "@ + name + "\n"@);
    assert(file_header_spec(name) =~= "FILE "@ + name + "\n"@);
    assert(end_message_spec() =~= "END\n"@);
    assert(end_marker() =~= "END"@);
    assert(upload_word() =~= "upload"@);
}

/// A path stays below the directory it is joined to exactly when it does not start with
/// `/` and no part of it is `..`: any other path, dot files included, stays below.
pub proof fn lemma_stays_below_meaning(path: Seq<char>)
    ensures
        stays_below(path) <==> (!(path.len() > 0 && path[0] == '/') && !exists|
            x: Seq<char>,
            y: Seq<char>,
        | path == x + seq!['.', '.'] + y),
{
    lemma_dot_dot_split(path, Seq::empty(), Seq::empty());
    if exists|x: Seq<char>, y: Seq<char>| path == x + seq!['.', '.'] + y {
        let (x, y) = choose|x: Seq<char>, y: Seq<char>| path == x + seq!['.', '.'] + y;
        lemma_dot_dot_split(path, x, y);
    }
}

/// A project name is accepted exactly when it holds no `/` and no part of it is `..`:
/// every other name, whatever its other characters, is accepted.
pub proof fn lemma_safe_project_name_meaning(name: Seq<char>)
    ensures
        safe_project_name(name) <==> ((forall|i: int| 0 <= i < name.len() ==> name[i] != '/')
            && !exists|x: Seq<char>, y: Seq<char>| name == x + seq!['.', '.'] + y),
{
    lemma_dot_dot_split(name, Seq::empty(), Seq::empty());
    if exists|x: Seq<char>, y: Seq<char>| name == x + seq!['.', '.'] + y {
        let (x, y) = choose|x: Seq<char>, y: Seq<char>| name == x + seq!['.', '.'] + y;
        lemma_dot_dot_split(name, x, y);
    }
}

/// The server writes every file that the client sends whose path does not start with `/`,
/// holds no `..` and no line feed: `FILE <relative>\n` and then the contents is written at
/// `relative` with the contents.
pub proof fn lemma_relative_file_written(relative: Seq<char>, contents: Seq<char>)
    requires
        forall|i: int| 0 <= i < relative.len() ==> relative[i] != '\n',
        !(relative.len() > 0 && relative[0] == '/'),
        !exists|x: Seq<char>, y: Seq<char>| relative == x + seq!['.', '.'] + y,
    ensures
        upload_step_spec(file_header_spec(relative) + contents) == UploadStepView::Write(
            relative,
            encode_utf8(contents),
        ),
{
    lemma_stays_below_meaning(relative);
    lemma_file_message_written(relative, contents);
}

/// The project that the server reads from `UPLOAD <name>\n`, for a name that neither
/// starts nor ends with whitespace, is the name itself, all of its characters kept.
pub proof fn lemma_upload_message_keeps_name(name: Seq<char>)
    requires
        name.len() > 0,
        !is_white_space(name[0]),
        !is_white_space(name.last()),
    ensures
        project_name_spec(upload_message_spec(name)) == name,
{
    lemma_upload_message_names_project(name);
    assert(all_white_space(Seq::<char>::empty()));
    lemma_trim_ws_surrounded(Seq::empty(), name, Seq::empty());
    assert(Seq::<char>::empty() + name + Seq::<char>::empty() =~= name);
}


/// A reply is accepted by its first byte being the letter `r`, the reply the server sends.
pub proof fn lemma_accept_byte()
    ensures
        ACCEPT_BYTE as u32 == 'r' as u32,
{
}

} // verus!
