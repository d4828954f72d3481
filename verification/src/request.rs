//! Requests: from the bytes that were read to what has to be done.
//!
//! Only the first line of a request is looked at. Its first word is the
//! method, its second the path. Words are separated by white space.

use crate::response::{hello_view, method_not_allowed_view, not_found_view, Response, ResponseView};
use vstd::prelude::*;
use vstd::string::*;

verus! {

/// What has to be done for a request.
#[derive(Debug, PartialEq, Eq)]
pub enum Action {
    /// Nothing was read: nothing is sent.
    Silent,
    /// Send this response.
    Reply(Response),
    /// Serve the file with this path below the public directory.
    Serve(String),
}

/// An action as a value.
pub enum ActionView {
    Silent,
    Reply(ResponseView),
    Serve(Seq<char>),
}

impl View for Action {
    type V = ActionView;

    open spec fn view(&self) -> ActionView {
        match self {
            Action::Silent => ActionView::Silent,
            Action::Reply(r) => ActionView::Reply(r@),
            Action::Serve(p) => ActionView::Serve(p@),
        }
    }
}

/// Whether `c` is white space: a character with the Unicode property
/// `White_Space`.
pub open spec fn white_space(c: char) -> bool {
    let n: u32 = c as u32;
    ||| 0x09 <= n <= 0x0d
    ||| n == 0x20
    ||| n == 0x85
    ||| n == 0xa0
    ||| n == 0x1680
    ||| 0x2000 <= n <= 0x200a
    ||| n == 0x2028
    ||| n == 0x2029
    ||| n == 0x202f
    ||| n == 0x205f
    ||| n == 0x3000
}

/// The index of the first line feed at or after `from`, or the length of the
/// text where there is none.
pub open spec fn line_end(text: Seq<char>, from: int) -> int
    decreases text.len() - from,
{
    if 0 <= from < text.len() && text[from] != '\n' {
        line_end(text, from + 1)
    } else {
        from
    }
}

/// The first line of the text, without its line feed.
pub open spec fn first_line(text: Seq<char>) -> Seq<char> {
    text.take(line_end(text, 0))
}

/// The index of the first character at or after `from` that is no white
/// space, or the length of the line.
pub open spec fn skip_spaces(line: Seq<char>, from: int) -> int
    decreases line.len() - from,
{
    if 0 <= from < line.len() && white_space(line[from]) {
        skip_spaces(line, from + 1)
    } else {
        from
    }
}

/// The index of the first white space at or after `from`, or the length of
/// the line.
pub open spec fn skip_word(line: Seq<char>, from: int) -> int
    decreases line.len() - from,
{
    if 0 <= from < line.len() && !white_space(line[from]) {
        skip_word(line, from + 1)
    } else {
        from
    }
}

/// Where the word starts that begins at or after `from`, and where it ends.
/// Where there is no such word both are the length of the line.
pub open spec fn word_at(line: Seq<char>, from: int) -> (int, int) {
    let start: int = skip_spaces(line, from);
    (start, skip_word(line, start))
}

/// The method of a request line: its first word, empty where it has none.
pub open spec fn method_of(line: Seq<char>) -> Seq<char> {
    let (start, end) = word_at(line, 0);
    line.subrange(start, end)
}

/// The path of a request line: its second word, `/` where it has none.
pub open spec fn path_of(line: Seq<char>) -> Seq<char> {
    let (start, end) = word_at(line, word_at(line, 0).1);
    if start < line.len() {
        line.subrange(start, end)
    } else {
        "/"@
    }
}

/// What has to be done for a method and a path.
///
/// Only `GET` is served. `/` is the index page, `/hello` the greeting, and a
/// path that begins with `/static/` is the file named by what follows.
pub open spec fn action_for(method: Seq<char>, path: Seq<char>) -> ActionView {
    if method != "GET"@ {
        ActionView::Reply(method_not_allowed_view())
    } else if path == "/"@ {
        ActionView::Serve("index.html"@)
    } else if path == "/hello"@ {
        ActionView::Reply(hello_view())
    } else if "/static/"@.is_prefix_of(path) {
        ActionView::Serve(path.skip("/static/"@.len() as int))
    } else {
        ActionView::Reply(not_found_view())
    }
}

/// What has to be done for the text of a request.
pub open spec fn action_of(text: Seq<char>) -> ActionView {
    let line = first_line(text);
    action_for(method_of(line), path_of(line))
}

/// Whether `c` is white space.
pub fn is_white_space(c: char) -> (r: bool)
    ensures
        r == white_space(c),
{
    let n: u32 = c as u32;
    (0x09 <= n && n <= 0x0d) || n == 0x20 || n == 0x85 || n == 0xa0 || n == 0x1680 || (0x2000 <= n
        && n <= 0x200a) || n == 0x2028 || n == 0x2029 || n == 0x202f || n == 0x205f || n == 0x3000
}

/// The characters of a string.
pub fn chars_of(s: &str) -> (v: Vec<char>)
    ensures
        v@ == s@,
{
    let mut v: Vec<char> = Vec::new();
    for c in it: s.chars()
        invariant
            it.seq() == s@,
            v@ == it.seq().take(it.index() as int),
    {
        v.push(c);
    }
    v
}

/// The text that a lossy decoding of `bytes` as UTF-8 gives: the text that
/// the bytes encode, with U+FFFD in place of each part that encodes none.
pub uninterp spec fn utf8_lossy(bytes: Seq<u8>) -> Seq<char>;

/// Decodes bytes with `String::from_utf8_lossy`. The result is a function of
/// the bytes alone; the contract gives it the name [`utf8_lossy`] and states
/// nothing else of it.
#[verifier::external_body]
fn decode_lossy(bytes: &[u8]) -> (text: String)
    ensures
        text@ == utf8_lossy(bytes@),
{
    String::from_utf8_lossy(bytes).into_owned()
}

/// Finds the end of the first line.
fn scan_line(text: &Vec<char>) -> (end: usize)
    ensures
        end <= text.len(),
        end == line_end(text@, 0),
{
    let mut i: usize = 0;
    while i < text.len() && text[i] != '\n'
        invariant
            i <= text.len(),
            line_end(text@, 0) == line_end(text@, i as int),
        decreases text.len() - i,
    {
        i += 1;
    }
    i
}

/// Skips white space from `from` on, within the first `end` characters.
fn scan_spaces(text: &Vec<char>, end: usize, from: usize) -> (i: usize)
    requires
        from <= end <= text.len(),
    ensures
        from <= i <= end,
        i == skip_spaces(text@.take(end as int), from as int),
{
    let ghost line = text@.take(end as int);
    let mut i: usize = from;
    while i < end && is_white_space(text[i])
        invariant
            from <= i <= end <= text.len(),
            line == text@.take(end as int),
            skip_spaces(line, from as int) == skip_spaces(line, i as int),
        decreases end - i,
    {
        assert(line[i as int] == text@[i as int]);
        i += 1;
    }
    assert(i < end ==> line[i as int] == text@[i as int]);
    i
}

/// Skips a word from `from` on, within the first `end` characters.
fn scan_word(text: &Vec<char>, end: usize, from: usize) -> (i: usize)
    requires
        from <= end <= text.len(),
    ensures
        from <= i <= end,
        i == skip_word(text@.take(end as int), from as int),
{
    let ghost line = text@.take(end as int);
    let mut i: usize = from;
    while i < end && !is_white_space(text[i])
        invariant
            from <= i <= end <= text.len(),
            line == text@.take(end as int),
            skip_word(line, from as int) == skip_word(line, i as int),
        decreases end - i,
    {
        assert(line[i as int] == text@[i as int]);
        i += 1;
    }
    assert(i < end ==> line[i as int] == text@[i as int]);
    i
}

/// Reads the method and the path off the first line of a request.
pub fn request_line(text: &str) -> (words: (String, String))
    ensures
        words.0@ == method_of(first_line(text@)),
        words.1@ == path_of(first_line(text@)),
{
    let chars = chars_of(text);
    let end: usize = scan_line(&chars);
    let ghost line = first_line(text@);
    let method_start: usize = scan_spaces(&chars, end, 0);
    let method_end: usize = scan_word(&chars, end, method_start);
    let path_start: usize = scan_spaces(&chars, end, method_end);
    let path_end: usize = scan_word(&chars, end, path_start);
    let method = String::from_str(text.substring_char(method_start, method_end));
    assert(method@ =~= method_of(line));
    let path = if path_start < end {
        let p = String::from_str(text.substring_char(path_start, path_end));
        assert(p@ =~= path_of(line));
        p
    } else {
        String::from_str("/")
    };
    (method, path)
}

/// Decides what has to be done for a method and a path.
pub fn action(method: &str, path: &str) -> (a: Action)
    ensures
        a@ == action_for(method@, path@),
{
    proof {
        reveal_strlit("/static/");
    }
    if String::from_str(method) != String::from_str("GET") {
        Action::Reply(Response::method_not_allowed())
    } else if String::from_str(path) == String::from_str("/") {
        Action::Serve(String::from_str("index.html"))
    } else if String::from_str(path) == String::from_str("/hello") {
        Action::Reply(Response::hello())
    } else {
        let len: usize = path.unicode_len();
        if len >= 8 && String::from_str(path.substring_char(0, 8)) == String::from_str(
            "/static/",
        ) {
            assert(path@.subrange(0, 8) == "/static/"@);
            assert("/static/"@.is_prefix_of(path@));
            let rest = String::from_str(path.substring_char(8, len));
            assert(rest@ =~= path@.skip(8));
            Action::Serve(rest)
        } else {
            assert(!"/static/"@.is_prefix_of(path@)) by {
                if "/static/"@.is_prefix_of(path@) {
                    assert(path@.subrange(0, 8) =~= "/static/"@);
                }
            }
            Action::Reply(Response::not_found())
        }
    }
}

/// Decides what has to be done for the text of a request.
pub fn route(text: &str) -> (a: Action)
    ensures
        a@ == action_of(text@),
{
    let (method, path) = request_line(text);
    action(method.as_str(), path.as_str())
}

/// Decides what has to be done for the bytes that were read from a
/// connection. Where nothing was read, nothing is sent. Else the bytes are
/// decoded as UTF-8, with U+FFFD for what is not, and the text is routed.
pub fn handle_request(request: &[u8]) -> (a: Action)
    ensures
        a@ == if request@.len() == 0 {
            ActionView::Silent
        } else {
            action_of(utf8_lossy(request@))
        },
{
    if request.len() == 0 {
        Action::Silent
    } else {
        let text = decode_lossy(request);
        route(text.as_str())
    }
}

} // verus!
