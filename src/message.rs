//! The stored message record: its file, its text layout, saving and loading.
use vstd::prelude::*;
use vstd::string::StrSliceExecFns;
use vstd::string::StringExecFns;
use crate::error::StorageError;
use crate::escape::{append_escaped, escape, lemma_escape_push, lemma_scan_escaped, scan_string, scan_string_at};
use crate::files::read_outcome;
use crate::paths::{join, join_spec};

verus! {

/// The stored record: `{"message": string}`.
#[derive(Debug)]
pub struct StoredMessage {
    pub message: String,
}

/// Text before the escaped message in a stored record.
pub open spec fn record_prefix() -> Seq<char> {
    seq!['{', '\n', ' ', ' ', '"', 'm', 'e', 's', 's', 'a', 'g', 'e', '"', ':', ' ', '"']
}

/// Text after the escaped message in a stored record.
pub open spec fn record_suffix() -> Seq<char> {
    seq!['"', '\n', '}']
}

/// The stored form of a message: a pretty-printed one-field JSON object.
pub open spec fn encoded(m: Seq<char>) -> Seq<char> {
    record_prefix() + escape(m) + record_suffix()
}

/// JSON whitespace.
pub open spec fn is_ws(c: char) -> bool {
    c == ' ' || c == '\t' || c == '\n' || c == '\r'
}

/// `s` without its leading JSON whitespace.
pub open spec fn skip_ws(s: Seq<char>) -> Seq<char>
    decreases s.len(),
{
    if s.len() > 0 && is_ws(s[0]) {
        skip_ws(s.skip(1))
    } else {
        s
    }
}

/// Whether `s` starts with `c`.
pub open spec fn starts(s: Seq<char>, c: char) -> bool {
    s.len() > 0 && s[0] == c
}

/// The member name of the record.
pub open spec fn message_key() -> Seq<char> {
    seq!['m', 'e', 's', 's', 'a', 'g', 'e']
}

/// The message a stored record holds: the text is one JSON object whose one
/// member is the string `"message"`, with JSON whitespace allowed around
/// every token. `None` for any other text.
pub open spec fn decode_spec(s: Seq<char>) -> Option<Seq<char>> {
    let a = skip_ws(s);
    let b = skip_ws(a.skip(1));
    if !starts(a, '{') || !starts(b, '"') {
        None
    } else {
        match scan_string(b.skip(1)) {
            None => None,
            Some((key, c)) => {
                let d = skip_ws(c);
                let e = skip_ws(d.skip(1));
                if key != message_key() || !starts(d, ':') || !starts(e, '"') {
                    None
                } else {
                    match scan_string(e.skip(1)) {
                        None => None,
                        Some((value, f)) => {
                            let g = skip_ws(f);
                            if starts(g, '}') && skip_ws(g.skip(1)).len() == 0 {
                                Some(value)
                            } else {
                                None
                            }
                        },
                    }
                }
            },
        }
    }
}

proof fn lemma_skip_ws(w: Seq<char>, t: Seq<char>)
    requires
        forall|k: int| 0 <= k < w.len() ==> is_ws(#[trigger] w[k]),
        t.len() == 0 || !is_ws(t[0]),
    ensures
        skip_ws(w + t) == t,
    decreases w.len(),
{
    if w.len() == 0 {
        assert(w + t =~= t);
    } else {
        assert((w + t).skip(1) =~= w.skip(1) + t);
        assert((w + t)[0] == w[0]);
        lemma_skip_ws(w.skip(1), t);
    }
}

fn prefix_text() -> (r: &'static str)
    ensures
        r@ == record_prefix(),
{
    let r = "{\n  \"message\": \"";
    proof {
        reveal_strlit("{\n  \"message\": \"");
        assert(r@ =~= record_prefix());
    }
    r
}

fn suffix_text() -> (r: &'static str)
    ensures
        r@ == record_suffix(),
{
    let r = "\"\n}";
    proof {
        reveal_strlit("\"\n}");
        assert(r@ =~= record_suffix());
    }
    r
}

/// Encodes a message in its stored form.
pub fn encode_message(m: &StoredMessage) -> (r: String)
    ensures
        r@ == encoded(m.message@),
{
    let s = m.message.as_str();
    let n = s.unicode_len();
    let mut out = String::from_str(prefix_text());
    let mut i: usize = 0;
    while i < n
        invariant
            i <= n,
            n == s@.len(),
            out@ == record_prefix() + escape(s@.take(i as int)),
        decreases n - i,
    {
        let c = s.get_char(i);
        proof {
            lemma_escape_push(s@.take(i as int), c);
            assert(s@.take(i + 1) =~= s@.take(i as int).push(c));
        }
        append_escaped(&mut out, c);
        i = i + 1;
    }
    out.append(suffix_text());
    assert(s@.take(n as int) =~= s@);
    out
}

/// The first position at or after `start` that holds no JSON whitespace.
fn ws_end(text: &str, start: usize) -> (r: usize)
    requires
        start <= text@.len(),
    ensures
        start <= r <= text@.len(),
        text@.skip(r as int) == skip_ws(text@.skip(start as int)),
{
    let n = text.unicode_len();
    let mut i: usize = start;
    while i < n
        invariant
            start <= i <= n,
            n == text@.len(),
            skip_ws(text@.skip(start as int)) == skip_ws(text@.skip(i as int)),
        decreases n - i,
    {
        let c = text.get_char(i);
        assert(text@.skip(i as int)[0] == c);
        if !(c == ' ' || c == '\t' || c == '\n' || c == '\r') {
            return i;
        }
        assert(text@.skip(i as int).skip(1) =~= text@.skip(i + 1));
        i = i + 1;
    }
    assert(text@.skip(n as int).len() == 0);
    i
}

/// Whether position `i` of `text` holds `c`.
fn char_is(text: &str, i: usize, c: char) -> (r: bool)
    requires
        i <= text@.len(),
    ensures
        r == starts(text@.skip(i as int), c),
{
    let n = text.unicode_len();
    i < n && text.get_char(i) == c
}

/// Decodes a stored record: one JSON object whose one member is the string
/// `"message"`; a decode error for any other text.
pub fn decode_message(text: &str) -> (r: Result<StoredMessage, StorageError>)
    ensures
        match decode_spec(text@) {
            Some(m) => r matches Ok(x) && x.message@ == m,
            None => r matches Err(StorageError::Decode),
        },
{
    let n = text.unicode_len();
    assert(text@.skip(0) =~= text@);
    let a = ws_end(text, 0);
    if !char_is(text, a, '{') {
        return Err(StorageError::Decode);
    }
    assert(text@.skip(a as int).skip(1) =~= text@.skip(a + 1));
    let b = ws_end(text, a + 1);
    if !char_is(text, b, '"') {
        return Err(StorageError::Decode);
    }
    assert(text@.skip(b as int).skip(1) =~= text@.skip(b + 1));
    let (key, c) = match scan_string_at(text, b + 1) {
        Some(kc) => kc,
        None => {
            return Err(StorageError::Decode);
        },
    };
    let d = ws_end(text, c);
    let name = String::from_str("message");
    proof {
        reveal_strlit("message");
        assert(name@ =~= message_key());
    }
    if !(key == name) || !char_is(text, d, ':') {
        return Err(StorageError::Decode);
    }
    assert(text@.skip(d as int).skip(1) =~= text@.skip(d + 1));
    let e = ws_end(text, d + 1);
    if !char_is(text, e, '"') {
        return Err(StorageError::Decode);
    }
    assert(text@.skip(e as int).skip(1) =~= text@.skip(e + 1));
    let (message, f) = match scan_string_at(text, e + 1) {
        Some(vf) => vf,
        None => {
            return Err(StorageError::Decode);
        },
    };
    let g = ws_end(text, f);
    if !char_is(text, g, '}') {
        return Err(StorageError::Decode);
    }
    assert(text@.skip(g as int).skip(1) =~= text@.skip(g + 1));
    let h = ws_end(text, g + 1);
    if h != n {
        return Err(StorageError::Decode);
    }
    Ok(StoredMessage { message })
}

/// Name of the record's file inside the application-data directory.
pub open spec fn message_file_name_spec() -> Seq<char> {
    seq!['m', 'e', 's', 's', 'a', 'g', 'e', '.', 'j', 's', 'o', 'n']
}

/// Where the record of the application-data directory `dir` is stored.
pub open spec fn message_path_spec(dir: Seq<char>) -> Seq<char> {
    join_spec(dir, message_file_name_spec())
}

/// The path of the record file inside `dir`.
pub fn message_file_path(dir: &str) -> (r: String)
    ensures
        r@ == message_path_spec(dir@),
{
    let name = "message.json";
    proof {
        reveal_strlit("message.json");
        assert(name@ =~= message_file_name_spec());
    }
    join(dir, name)
}

/// A file to write: where, and what.
#[derive(Debug)]
pub struct RecordWrite {
    pub path: String,
    pub contents: String,
}

/// What saving `m` for the application-data directory `dir` writes: the
/// encoded record, at the record's path inside `dir`.
pub fn save_message(dir: &str, m: &StoredMessage) -> (r: RecordWrite)
    ensures
        r.path@ == message_path_spec(dir@),
        r.contents@ == encoded(m.message@),
{
    RecordWrite { path: message_file_path(dir), contents: encode_message(m) }
}

/// Loads the record stored at `path`, given what reading the file gave
/// (`None` where it does not exist): the not-found or I/O error of the read,
/// else the decoded record or a decode error.
pub fn load_message(path: &str, read: Option<Result<String, String>>) -> (r: Result<StoredMessage, StorageError>)
    ensures
        match read {
            None => r matches Err(StorageError::NotFound { path: p }) && p@ == path@,
            Some(Err(e)) => r matches Err(StorageError::Io { detail }) && detail@ == e@,
            Some(Ok(t)) => match decode_spec(t@) {
                Some(m) => r matches Ok(x) && x.message@ == m,
                None => r matches Err(StorageError::Decode),
            },
        },
{
    match read_outcome(path, read) {
        Ok(t) => decode_message(t.as_str()),
        Err(e) => Err(e),
    }
}

/// Loading what saving wrote gives back the saved message unchanged: the
/// contents that `save_message` writes decode to the message.
pub proof fn lemma_save_then_load(m: Seq<char>)
    ensures
        decode_spec(encoded(m)) == Some(m),
{
    let s = encoded(m);
    let sp = seq![' '];
    let nl = seq!['\n'];
    let ind = seq!['\n', ' ', ' '];
    let tail = seq![':', ' ', '"'] + escape(m) + record_suffix();
    let a = skip_ws(s);
    assert(a == s);
    assert(s.skip(1) =~= ind + (seq!['"'] + (message_key() + seq!['"'] + tail)));
    lemma_skip_ws(ind, seq!['"'] + (message_key() + seq!['"'] + tail));
    let b = skip_ws(a.skip(1));
    assert(b.skip(1) =~= message_key() + seq!['"'] + tail);
    assert(escape(message_key()) =~= message_key()) by {
        reveal_with_fuel(escape, 8);
    }
    lemma_scan_escaped(message_key(), tail);
    assert(skip_ws(tail) == tail);
    assert(tail.skip(1) =~= sp + (seq!['"'] + escape(m) + record_suffix()));
    lemma_skip_ws(sp, seq!['"'] + escape(m) + record_suffix());
    let e = skip_ws(tail.skip(1));
    assert(e.skip(1) =~= escape(m) + seq!['"'] + seq!['\n', '}']);
    lemma_scan_escaped(m, seq!['\n', '}']);
    assert(seq!['\n', '}'] =~= nl + seq!['}']);
    lemma_skip_ws(nl, seq!['}']);
    let g = skip_ws(seq!['\n', '}']);
    assert(g.skip(1) =~= Seq::<char>::empty());
}

} // verus!
