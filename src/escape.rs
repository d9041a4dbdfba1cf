//! Escaping of characters inside a JSON string, and its inverse.
use vstd::prelude::*;
use vstd::string::StrSliceExecFns;
use vstd::string::StringExecFns;

verus! {

/// The scalar value of a character.
pub open spec fn code(c: char) -> int {
    c as int
}

/// The character whose scalar value is `v`.
pub open spec fn char_of(v: int) -> char {
    choose|c: char| code(c) == v
}

/// Whether `v` is a Unicode scalar value that is not a surrogate.
pub open spec fn is_scalar(v: int) -> bool {
    (0 <= v < 0xD800) || (0xE000 <= v <= 0x10FFFF)
}

pub open spec fn hex_digit_spec(n: int) -> char {
    if n == 0 { '0' } else if n == 1 { '1' } else if n == 2 { '2' } else if n == 3 { '3' }
    else if n == 4 { '4' } else if n == 5 { '5' } else if n == 6 { '6' } else if n == 7 { '7' }
    else if n == 8 { '8' } else if n == 9 { '9' } else if n == 10 { 'a' } else if n == 11 { 'b' }
    else if n == 12 { 'c' } else if n == 13 { 'd' } else if n == 14 { 'e' } else { 'f' }
}

/// The value of a hexadecimal digit, either case.
pub open spec fn hex_val(c: char) -> Option<int> {
    if '0' as int <= code(c) <= '9' as int {
        Some(code(c) - '0' as int)
    } else if 'a' as int <= code(c) <= 'f' as int {
        Some(code(c) - 'a' as int + 10)
    } else if 'A' as int <= code(c) <= 'F' as int {
        Some(code(c) - 'A' as int + 10)
    } else {
        None
    }
}

/// The value of four hexadecimal digits `d[0..4]`.
pub open spec fn hex4(d: Seq<char>) -> Option<int> {
    match (hex_val(d[0]), hex_val(d[1]), hex_val(d[2]), hex_val(d[3])) {
        (Some(a), Some(b), Some(c), Some(e)) => Some(((a * 16 + b) * 16 + c) * 16 + e),
        _ => None,
    }
}

/// The escaped form of one character inside a quoted string.
pub open spec fn escape_char(c: char) -> Seq<char> {
    if c == '"' {
        seq!['\\', '"']
    } else if c == '\\' {
        seq!['\\', '\\']
    } else if c == '\n' {
        seq!['\\', 'n']
    } else if c == '\r' {
        seq!['\\', 'r']
    } else if c == '\t' {
        seq!['\\', 't']
    } else if code(c) == 8 {
        seq!['\\', 'b']
    } else if code(c) == 12 {
        seq!['\\', 'f']
    } else if code(c) < 0x20 {
        seq!['\\', 'u', '0', '0', hex_digit_spec(code(c) / 16), hex_digit_spec(code(c) % 16)]
    } else {
        seq![c]
    }
}

/// The escaped form of a whole string, character by character.
pub open spec fn escape(m: Seq<char>) -> Seq<char>
    decreases m.len(),
{
    if m.len() == 0 {
        Seq::empty()
    } else {
        escape_char(m[0]) + escape(m.skip(1))
    }
}

/// The character a two-character escape `\e` stands for.
pub open spec fn simple_escape(e: char) -> Option<char> {
    if e == '"' {
        Some('"')
    } else if e == '\\' {
        Some('\\')
    } else if e == '/' {
        Some('/')
    } else if e == 'n' {
        Some('\n')
    } else if e == 'r' {
        Some('\r')
    } else if e == 't' {
        Some('\t')
    } else if e == 'b' {
        Some(char_of(8))
    } else if e == 'f' {
        Some(char_of(12))
    } else {
        None
    }
}

/// A string scan's result: the characters read and the text after the
/// closing quote, with `c` put in front of the characters.
pub open spec fn prepend(c: char, o: Option<(Seq<char>, Seq<char>)>) -> Option<(Seq<char>, Seq<char>)> {
    match o {
        Some((v, r)) => Some((seq![c] + v, r)),
        None => None,
    }
}

pub open spec fn is_high_surrogate(v: int) -> bool {
    0xD800 <= v < 0xDC00
}

pub open spec fn is_low_surrogate(v: int) -> bool {
    0xDC00 <= v < 0xE000
}

/// The scalar value a surrogate pair stands for.
pub open spec fn pair_value(hi: int, lo: int) -> int {
    0x10000 + (hi - 0xD800) * 0x400 + (lo - 0xDC00)
}

/// Reads the rest of a JSON string whose opening quote is already consumed:
/// the characters it stands for and the text after its closing quote, or
/// `None` where it is unterminated or holds a raw control character, a bad
/// escape or an unpaired surrogate.
pub open spec fn scan_string(b: Seq<char>) -> Option<(Seq<char>, Seq<char>)>
    decreases b.len(),
{
    if b.len() == 0 {
        None
    } else if b[0] == '"' {
        Some((Seq::empty(), b.skip(1)))
    } else if code(b[0]) < 0x20 {
        None
    } else if b[0] != '\\' {
        prepend(b[0], scan_string(b.skip(1)))
    } else if b.len() < 2 {
        None
    } else if b[1] == 'u' {
        if b.len() < 6 {
            None
        } else {
            match hex4(b.subrange(2, 6)) {
                Some(v) => if is_scalar(v) {
                    prepend(char_of(v), scan_string(b.skip(6)))
                } else if is_high_surrogate(v) && b.len() >= 12 && b[6] == '\\' && b[7] == 'u' {
                    match hex4(b.subrange(8, 12)) {
                        Some(w) => if is_low_surrogate(w) {
                            prepend(char_of(pair_value(v, w)), scan_string(b.skip(12)))
                        } else {
                            None
                        },
                        None => None,
                    }
                } else {
                    None
                },
                None => None,
            }
        }
    } else {
        match simple_escape(b[1]) {
            Some(c) => prepend(c, scan_string(b.skip(2))),
            None => None,
        }
    }
}


/// The character an escape at the start of `b` stands for, and its length.
pub open spec fn escape_step(b: Seq<char>) -> Option<(char, int)> {
    if b.len() < 2 {
        None
    } else if b[1] == 'u' {
        if b.len() < 6 {
            None
        } else {
            match hex4(b.subrange(2, 6)) {
                Some(v) => if is_scalar(v) {
                    Some((char_of(v), 6))
                } else if is_high_surrogate(v) && b.len() >= 12 && b[6] == '\\' && b[7] == 'u' {
                    match hex4(b.subrange(8, 12)) {
                        Some(w) => if is_low_surrogate(w) {
                            Some((char_of(pair_value(v, w)), 12))
                        } else {
                            None
                        },
                        None => None,
                    }
                } else {
                    None
                },
                None => None,
            }
        }
    } else {
        match simple_escape(b[1]) {
            Some(c) => Some((c, 2)),
            None => None,
        }
    }
}

proof fn lemma_scan_escape_step(b: Seq<char>)
    requires
        b.len() > 0,
        b[0] == '\\',
    ensures
        scan_string(b) == match escape_step(b) {
            Some((c, k)) => prepend(c, scan_string(b.skip(k))),
            None => None,
        },
        escape_step(b) matches Some((c, k)) ==> 2 <= k <= b.len(),
{
}

proof fn lemma_char_of(c: char)
    ensures
        char_of(code(c)) == c,
{
    let d = char_of(code(c));
    assert(code(d) == code(c));
}

proof fn lemma_hex_digit(n: int)
    requires
        0 <= n < 16,
    ensures
        hex_val(hex_digit_spec(n)) == Some(n),
{
}

proof fn lemma_scan_char(c: char, rest: Seq<char>)
    ensures
        scan_string(escape_char(c) + rest) == prepend(c, scan_string(rest)),
{
    let b = escape_char(c) + rest;
    if c == '"' || c == '\\' || c == '\n' || c == '\r' || c == '\t' || code(c) == 8 || code(c) == 12 {
        assert(b.skip(2) =~= rest);
        if code(c) == 8 {
            lemma_char_of(c);
            assert(c == char_of(8));
        }
        if code(c) == 12 {
            lemma_char_of(c);
            assert(c == char_of(12));
        }
    } else if code(c) < 0x20 {
        assert(b.skip(6) =~= rest);
        lemma_hex_digit(code(c) / 16);
        lemma_hex_digit(code(c) % 16);
        assert(b.subrange(2, 6) =~= seq!['0', '0', hex_digit_spec(code(c) / 16), hex_digit_spec(code(c) % 16)]);
        lemma_char_of(c);
    } else {
        assert(b.skip(1) =~= rest);
    }
}

/// Scanning an escaped string followed by a closing quote gives back the
/// original characters and the text after the quote.
pub proof fn lemma_scan_escaped(m: Seq<char>, rest: Seq<char>)
    ensures
        scan_string(escape(m) + seq!['"'] + rest) == Some((m, rest)),
    decreases m.len(),
{
    if m.len() > 0 {
        lemma_scan_escaped(m.skip(1), rest);
        lemma_scan_char(m[0], escape(m.skip(1)) + seq!['"'] + rest);
        assert(escape(m) + seq!['"'] + rest =~= escape_char(m[0]) + (escape(m.skip(1)) + seq!['"'] + rest));
        assert(seq![m[0]] + m.skip(1) =~= m);
    } else {
        assert(escape(m) =~= Seq::<char>::empty());
        let b = escape(m) + seq!['"'] + rest;
        assert(b[0] == '"');
        assert(b.skip(1) =~= rest);
    }
}



proof fn lemma_escape_concat(a: Seq<char>, b: Seq<char>)
    ensures
        escape(a + b) == escape(a) + escape(b),
    decreases a.len(),
{
    if a.len() == 0 {
        assert(a + b =~= b);
        assert(escape(a) =~= Seq::<char>::empty());
        assert(escape(a) + escape(b) =~= escape(b));
    } else {
        lemma_escape_concat(a.skip(1), b);
        assert((a + b).skip(1) =~= a.skip(1) + b);
        assert((a + b)[0] == a[0]);
        assert(escape(a + b) =~= escape_char(a[0]) + escape(a.skip(1) + b));
        assert(escape(a) + escape(b) =~= escape_char(a[0]) + (escape(a.skip(1)) + escape(b)));
    }
}

pub proof fn lemma_escape_push(a: Seq<char>, c: char)
    ensures
        escape(a.push(c)) == escape(a) + escape_char(c),
{
    lemma_escape_concat(a, seq![c]);
    assert(a.push(c) =~= a + seq![c]);
    assert(seq![c].skip(1) =~= Seq::<char>::empty());
    assert(seq![c][0] == c);
    assert(escape(Seq::<char>::empty()) =~= Seq::<char>::empty());
    assert(escape(seq![c]) =~= escape_char(c) + Seq::<char>::empty());
    assert(escape_char(c) + Seq::<char>::empty() =~= escape_char(c));
}

/// Relies on std's `String::push`: appends one character.
#[verifier::external_body]
fn push_char(s: &mut String, c: char)
    ensures
        final(s)@ == old(s)@.push(c),
{
    s.push(c)
}

/// Relies on std's `char::from_u32`: the character of a scalar value, `None`
/// for a surrogate or a value past the last scalar.
#[verifier::external_body]
fn char_from_u32(v: u32) -> (r: Option<char>)
    ensures
        r is Some <==> is_scalar(v as int),
        r matches Some(c) ==> code(c) == v as int,
{
    char::from_u32(v)
}

fn hex_digit(n: u32) -> (r: char)
    requires
        n < 16,
    ensures
        r == hex_digit_spec(n as int),
{
    if n == 0 { '0' } else if n == 1 { '1' } else if n == 2 { '2' } else if n == 3 { '3' }
    else if n == 4 { '4' } else if n == 5 { '5' } else if n == 6 { '6' } else if n == 7 { '7' }
    else if n == 8 { '8' } else if n == 9 { '9' } else if n == 10 { 'a' } else if n == 11 { 'b' }
    else if n == 12 { 'c' } else if n == 13 { 'd' } else if n == 14 { 'e' } else { 'f' }
}

fn hex_value(c: char) -> (r: Option<u32>)
    ensures
        match hex_val(c) {
            Some(v) => r == Some(v as u32),
            None => r is None,
        },
{
    let v = c as u32;
    if '0' as u32 <= v && v <= '9' as u32 {
        Some(v - '0' as u32)
    } else if 'a' as u32 <= v && v <= 'f' as u32 {
        Some(v - 'a' as u32 + 10)
    } else if 'A' as u32 <= v && v <= 'F' as u32 {
        Some(v - 'A' as u32 + 10)
    } else {
        None
    }
}

pub(crate) fn append_escaped(out: &mut String, c: char)
    ensures
        final(out)@ == old(out)@ + escape_char(c),
{
    let ghost before = out@;
    let v = c as u32;
    proof {
        reveal_strlit("\\\"");
        reveal_strlit("\\\\");
        reveal_strlit("\\n");
        reveal_strlit("\\r");
        reveal_strlit("\\t");
        reveal_strlit("\\b");
        reveal_strlit("\\f");
        reveal_strlit("\\u00");
    }
    if c == '"' {
        out.append("\\\"");
    } else if c == '\\' {
        out.append("\\\\");
    } else if c == '\n' {
        out.append("\\n");
    } else if c == '\r' {
        out.append("\\r");
    } else if c == '\t' {
        out.append("\\t");
    } else if v == 8 {
        out.append("\\b");
    } else if v == 12 {
        out.append("\\f");
    } else if v < 0x20 {
        out.append("\\u00");
        push_char(out, hex_digit(v / 16));
        push_char(out, hex_digit(v % 16));
    } else {
        push_char(out, c);
    }
    assert(out@ =~= before + escape_char(c));
}

pub open spec fn prepend_all(a: Seq<char>, o: Option<(Seq<char>, Seq<char>)>) -> Option<(Seq<char>, Seq<char>)> {
    match o {
        Some((v, r)) => Some((a + v, r)),
        None => None,
    }
}

proof fn lemma_prepend_all(a: Seq<char>, c: char, x: Option<(Seq<char>, Seq<char>)>)
    ensures
        prepend_all(a, prepend(c, x)) == prepend_all(a.push(c), x),
{
    if let Some((v, r)) = x {
        assert(a + (seq![c] + v) =~= a.push(c) + v);
    }
}


fn simple_escape_char(e: char) -> (r: Option<char>)
    ensures
        r == simple_escape(e),
{
    proof {
        lemma_char_of('\x08');
        lemma_char_of('\x0c');
    }
    if e == '"' {
        Some('"')
    } else if e == '\\' {
        Some('\\')
    } else if e == '/' {
        Some('/')
    } else if e == 'n' {
        Some('\n')
    } else if e == 'r' {
        Some('\r')
    } else if e == 't' {
        Some('\t')
    } else if e == 'b' {
        Some('\x08')
    } else if e == 'f' {
        Some('\x0c')
    } else {
        None
    }
}

/// The value of the four hexadecimal digits at `at` in `b`.
fn hex4_at(b: &str, at: usize) -> (r: Option<u32>)
    requires
        at + 4 <= b@.len(),
    ensures
        match hex4(b@.subrange(at as int, at + 4)) {
            Some(v) => r == Some(v as u32) && 0 <= v < 0x10000,
            None => r is None,
        },
{
    let _ = b.unicode_len();
    let ghost d = b@.subrange(at as int, at + 4);
    assert(d[0] == b@[at as int] && d[1] == b@[at + 1] && d[2] == b@[at + 2] && d[3] == b@[at + 3]);
    let a0 = hex_value(b.get_char(at));
    let a1 = hex_value(b.get_char(at + 1));
    let a2 = hex_value(b.get_char(at + 2));
    let a3 = hex_value(b.get_char(at + 3));
    match (a0, a1, a2, a3) {
        (Some(w0), Some(w1), Some(w2), Some(w3)) => {
            assert(w0 < 16 && w1 < 16 && w2 < 16 && w3 < 16);
            assert(((w0 * 16 + w1) * 16 + w2) * 16 + w3 < 0x10000) by (nonlinear_arith)
                requires
                    w0 < 16,
                    w1 < 16,
                    w2 < 16,
                    w3 < 16,
            ;
            Some(((w0 * 16 + w1) * 16 + w2) * 16 + w3)
        },
        _ => None,
    }
}

/// The characters that the body of a quoted string stands for.
/// Reads the escape that starts at position `i` of `text`.
fn read_escape(text: &str, i: usize) -> (r: Option<(char, usize)>)
    requires
        i < text@.len(),
        text@[i as int] == '\\',
    ensures
        match escape_step(text@.skip(i as int)) {
            Some((c, k)) => r == Some((c, (i + k) as usize)) && i + k <= text@.len(),
            None => r is None,
        },
{
    let n = text.unicode_len();
    let ghost t = text@.skip(i as int);
    if n - i < 2 {
        return None;
    }
    let e = text.get_char(i + 1);
    assert(t[1] == e);
    if e != 'u' {
        return match simple_escape_char(e) {
            Some(x) => Some((x, i + 2)),
            None => None,
        };
    }
    if n - i < 6 {
        return None;
    }
    assert(t.subrange(2, 6) =~= text@.subrange(i + 2, i + 6));
    let v = match hex4_at(text, i + 2) {
        Some(v) => v,
        None => {
            return None;
        },
    };
    if v < 0xD800 || v >= 0xDC00 {
        return match char_from_u32(v) {
            Some(x) => {
                proof {
                    lemma_char_of(x);
                }
                Some((x, i + 6))
            },
            None => None,
        };
    }
    if n - i < 12 || text.get_char(i + 6) != '\\' || text.get_char(i + 7) != 'u' {
        return None;
    }
    assert(t[6] == text@[i + 6] && t[7] == text@[i + 7]);
    assert(t.subrange(8, 12) =~= text@.subrange(i + 8, i + 12));
    let w = match hex4_at(text, i + 8) {
        Some(w) => w,
        None => {
            return None;
        },
    };
    if w < 0xDC00 || w >= 0xE000 {
        return None;
    }
    match char_from_u32(0x10000 + (v - 0xD800) * 0x400 + (w - 0xDC00)) {
        Some(x) => {
            proof {
                lemma_char_of(x);
            }
            Some((x, i + 12))
        },
        None => None,
    }
}

/// Reads the JSON string that starts after its opening quote at `start`:
/// the characters it stands for and the position after its closing quote.
pub fn scan_string_at(text: &str, start: usize) -> (r: Option<(String, usize)>)
    requires
        start <= text@.len(),
    ensures
        match scan_string(text@.skip(start as int)) {
            Some((v, rest)) => r matches Some((x, e)) && x@ == v && e <= text@.len() && rest == text@.skip(e as int),
            None => r is None,
        },
{
    let n = text.unicode_len();
    let mut out = String::new();
    let mut i: usize = start;
    assert(prepend_all(out@, scan_string(text@.skip(start as int))) == scan_string(text@.skip(start as int))) by {
        if let Some((v, r)) = scan_string(text@.skip(start as int)) {
            assert(out@ + v =~= v);
        }
    }
    while i < n
        invariant
            start <= i <= n,
            n == text@.len(),
            scan_string(text@.skip(start as int)) == prepend_all(out@, scan_string(text@.skip(i as int))),
        decreases n - i,
    {
        let ghost t = text@.skip(i as int);
        let c = text.get_char(i);
        assert(t[0] == c);
        if c == '"' {
            assert(t.skip(1) =~= text@.skip(i + 1));
            assert(out@ + Seq::<char>::empty() =~= out@);
            return Some((out, i + 1));
        } else if (c as u32) < 0x20 {
            return None;
        } else if c != '\\' {
            proof {
                lemma_prepend_all(out@, c, scan_string(t.skip(1)));
                assert(t.skip(1) =~= text@.skip(i + 1));
            }
            push_char(&mut out, c);
            i = i + 1;
        } else {
            proof {
                lemma_scan_escape_step(t);
            }
            match read_escape(text, i) {
                Some((x, j)) => {
                    proof {
                        lemma_prepend_all(out@, x, scan_string(t.skip(j - i)));
                        assert(t.skip(j - i) =~= text@.skip(j as int));
                    }
                    push_char(&mut out, x);
                    i = j;
                },
                None => {
                    return None;
                },
            }
        }
    }
    assert(text@.skip(n as int).len() == 0);
    None
}

} // verus!
