//! The static page of the game: which file a request asks for, and how it is answered.
use vstd::prelude::*;
use vstd::string::*;

use crate::text::{
    chars_of, concat2, decimal, decode_lossy, push_decimal, same, text_between, utf8_lossy,
    whitespace,
};

verus! {

/// Where the word that begins at `from` ends.
pub open spec fn word_end(s: Seq<char>, from: int) -> int
    decreases s.len() - from,
{
    if 0 <= from < s.len() && !whitespace(s[from]) {
        word_end(s, from + 1)
    } else {
        from
    }
}

/// Where the white space that begins at `from` ends.
pub open spec fn gap_end(s: Seq<char>, from: int) -> int
    decreases s.len() - from,
{
    if 0 <= from < s.len() && whitespace(s[from]) {
        gap_end(s, from + 1)
    } else {
        from
    }
}

/// The second word of a text, where it has two.
pub open spec fn second_word(s: Seq<char>) -> Option<Seq<char>> {
    let a = gap_end(s, 0);
    let b = gap_end(s, word_end(s, a));
    let c = word_end(s, b);
    if b < c {
        Some(s.subrange(b, c))
    } else {
        None
    }
}

fn skip_gap(v: &Vec<char>, from: usize) -> (i: usize)
    requires
        from <= v@.len(),
    ensures
        from <= i <= v@.len(),
        i == gap_end(v@, from as int),
{
    let mut i: usize = from;
    while i < v.len() && v[i].is_whitespace()
        invariant
            from <= i <= v@.len(),
            gap_end(v@, i as int) == gap_end(v@, from as int),
        decreases v@.len() - i,
    {
        i = i + 1;
    }
    i
}

fn skip_word(v: &Vec<char>, from: usize) -> (i: usize)
    requires
        from <= v@.len(),
    ensures
        from <= i <= v@.len(),
        i == word_end(v@, from as int),
{
    let mut i: usize = from;
    while i < v.len() && !v[i].is_whitespace()
        invariant
            from <= i <= v@.len(),
            word_end(v@, i as int) == word_end(v@, from as int),
        decreases v@.len() - i,
    {
        i = i + 1;
    }
    i
}

/// The path that a request asks for: its second word, or the root.
pub open spec fn path_in(request: Seq<char>) -> Seq<char> {
    match second_word(request) {
        Some(p) => p,
        None => "/"@,
    }
}

/// The path that a request asks for, from its bytes.
pub fn path_of(bytes: &Vec<u8>) -> (r: String)
    ensures
        r@ == path_in(utf8_lossy(bytes@)),
{
    let request = decode_lossy(bytes);
    requested_path(request.as_str())
}

/// The path that a request asks for.
pub fn requested_path(request: &str) -> (r: String)
    ensures
        r@ == path_in(request@),
{
    let v = chars_of(request);
    let a = skip_gap(&v, 0);
    let b = skip_gap(&v, skip_word(&v, a));
    let c = skip_word(&v, b);
    if b < c {
        text_between(&v, b, c)
    } else {
        "/".to_owned()
    }
}

/// The file that is served at a path, and the type of its content.
#[derive(Debug, Clone, Copy)]
pub struct Served {
    /// No file where nothing is served.
    pub file: Option<&'static str>,
    pub content_type: &'static str,
}

/// The file at a path.
pub open spec fn file_at(path: Seq<char>) -> Option<Seq<char>> {
    if path == "/"@ || path == "/index.html"@ {
        Some("static/index.html"@)
    } else if path == "/game.js"@ {
        Some("static/game.js"@)
    } else {
        None
    }
}

/// The type of what is served at a path.
pub open spec fn type_at(path: Seq<char>) -> Seq<char> {
    if path == "/"@ || path == "/index.html"@ {
        "text/html; charset=utf-8"@
    } else if path == "/game.js"@ {
        "application/javascript; charset=utf-8"@
    } else {
        "text/plain; charset=utf-8"@
    }
}

/// What is served at a path.
pub fn served_at(path: &str) -> (r: Served)
    ensures
        match r.file {
            Some(f) => file_at(path@) == Some(f@),
            None => file_at(path@) is None,
        },
        r.content_type@ == type_at(path@),
{
    if same(path, "/") || same(path, "/index.html") {
        Served { file: Some("static/index.html"), content_type: "text/html; charset=utf-8" }
    } else if same(path, "/game.js") {
        Served { file: Some("static/game.js"), content_type: "application/javascript; charset=utf-8" }
    } else {
        Served { file: None, content_type: "text/plain; charset=utf-8" }
    }
}

/// An answer: its head, and its body.
#[derive(Debug)]
pub struct Answer {
    pub head: String,
    pub body: Vec<u8>,
}

/// The head of an answer.
pub open spec fn head_text(status: Seq<char>, content_type: Seq<char>, length: nat) -> Seq<char> {
    "HTTP/1.1 "@ + status + "\r\nContent-Type: "@ + content_type + "\r\nContent-Length: "@
        + decimal(length) + "\r\nConnection: close\r\n\r\n"@
}

/// The status of an answer: there is nothing at the path, the file was read, or it was not.
pub open spec fn status_of(served: bool, read: bool) -> Seq<char> {
    if !served {
        "404 Not Found"@
    } else if read {
        "200 OK"@
    } else {
        "500 Internal Server Error"@
    }
}

/// What is said of a file that cannot be read.
pub open spec fn unreadable(file: Seq<char>, error: Seq<char>) -> Seq<char> {
    "Unable to read "@ + file + ": "@ + error
}

fn head_for(status: &str, content_type: &str, length: usize) -> (out: String)
    ensures
        out@ == head_text(status@, content_type@, length as nat),
{
    let mut out = concat2("HTTP/1.1 ", status);
    out.append("\r\nContent-Type: ");
    out.append(content_type);
    out.append("\r\nContent-Length: ");
    push_decimal(&mut out, length as u64);
    out.append("\r\nConnection: close\r\n\r\n");
    out
}

/// Answers a request for a path. What came of reading the file is handed in; it is not looked at
/// where no file is served.
pub fn answer(path: &str, read: Result<Vec<u8>, String>) -> (r: Answer)
    ensures
        r.head@ == head_text(
            status_of(file_at(path@) is Some, read is Ok),
            type_at(path@),
            r.body@.len(),
        ),
        r.body@ == (match (file_at(path@), read) {
            (None, _) => vstd::utf8::encode_utf8("Not Found"@),
            (Some(_), Ok(body)) => body@,
            (Some(f), Err(e)) => vstd::utf8::encode_utf8(unreadable(f, e@)),
        }),
{
    let served = served_at(path);
    match served.file {
        None => {
            let body = "Not Found".as_bytes_vec();
            Answer { head: head_for("404 Not Found", served.content_type, body.len()), body }
        },
        Some(file) => match read {
            Ok(body) => Answer {
                head: head_for("200 OK", served.content_type, body.len()),
                body,
            },
            Err(e) => {
                let mut text = concat2("Unable to read ", file);
                text.append(": ");
                text.append(e.as_str());
                let body = text.as_str().as_bytes_vec();
                Answer {
                    head: head_for("500 Internal Server Error", served.content_type, body.len()),
                    body,
                }
            },
        },
    }
}

} // verus!
