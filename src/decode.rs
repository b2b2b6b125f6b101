//! Reading the session file back: a JSON array of objects, each with exactly
//! the three string members `window_id`, `app_command` and `window_title`, in
//! any order. JSON whitespace may stand between tokens, and strings may use
//! every JSON escape.
use vstd::prelude::*;
use crate::codec::{hex_value, id_key, command_key, title_key};
use crate::record::{AppWindow, WindowModel, models};
use crate::text::{chars_of, string_of, same_chars};

verus! {

pub open spec fn json_space(c: char) -> bool {
    c == ' ' || c == '\t' || c == '\n' || c == '\r'
}

pub open spec fn char_at(s: Seq<char>, i: int, c: char) -> bool {
    0 <= i < s.len() && s[i] == c
}

/// The first position at or after `i` that holds no JSON whitespace.
pub open spec fn skip_space(s: Seq<char>, i: int) -> int
    decreases s.len() - i,
{
    if 0 <= i < s.len() && json_space(s[i]) {
        skip_space(s, i + 1)
    } else {
        i
    }
}

/// The value of four hexadecimal digits at `i`.
pub open spec fn hex4(s: Seq<char>, i: int) -> Option<u32> {
    if 0 <= i && i + 4 <= s.len() && hex_value(s[i]) is Some && hex_value(s[i + 1]) is Some
        && hex_value(s[i + 2]) is Some && hex_value(s[i + 3]) is Some {
        Some(
            (((hex_value(s[i])->0 * 16 + hex_value(s[i + 1])->0) * 16 + hex_value(s[i + 2])->0)
                * 16 + hex_value(s[i + 3])->0) as u32,
        )
    } else {
        None
    }
}

/// A code that a single `\u` escape can name: a scalar value of the basic plane.
pub open spec fn single_code(v: u32) -> bool {
    v < 0xD800 || (0xE000 <= v && v <= 0x10FFFF)
}

/// The first half of a surrogate pair.
pub open spec fn high_surrogate(v: u32) -> bool {
    0xD800 <= v && v < 0xDC00
}

/// The second half of a surrogate pair.
pub open spec fn low_surrogate(v: u32) -> bool {
    0xDC00 <= v && v < 0xE000
}

/// The scalar value that a surrogate pair names.
pub open spec fn pair_code(hi: u32, lo: u32) -> u32 {
    (0x10000 + (hi - 0xD800) * 0x400 + (lo - 0xDC00)) as u32
}

/// The character whose scalar value is `v`.
pub open spec fn code_char(v: u32) -> char {
    choose|c: char| #[trigger] (c as u32) == v
}

/// The character of the escape that starts at `i` (a backslash), and the
/// position after it. A character beyond the basic plane is written as two
/// `\u` escapes, a surrogate pair.
pub open spec fn unescape_at(s: Seq<char>, i: int) -> Option<(char, int)> {
    if !(0 <= i && i + 1 < s.len()) {
        None
    } else {
        let e = s[i + 1];
        if e == '"' {
            Some(('"', i + 2))
        } else if e == '\\' {
            Some(('\\', i + 2))
        } else if e == '/' {
            Some(('/', i + 2))
        } else if e == 'b' {
            Some(('\x08', i + 2))
        } else if e == 'f' {
            Some(('\x0C', i + 2))
        } else if e == 'n' {
            Some(('\n', i + 2))
        } else if e == 'r' {
            Some(('\r', i + 2))
        } else if e == 't' {
            Some(('\t', i + 2))
        } else if e == 'u' {
            match hex4(s, i + 2) {
                Some(v) => if single_code(v) {
                    Some((code_char(v), i + 6))
                } else if high_surrogate(v) && char_at(s, i + 6, '\\') && char_at(s, i + 7, 'u') {
                    match hex4(s, i + 8) {
                        Some(lo) => if low_surrogate(lo) {
                            Some((code_char(pair_code(v, lo)), i + 12))
                        } else {
                            None
                        },
                        None => None,
                    }
                } else {
                    None
                },
                None => None,
            }
        } else {
            None
        }
    }
}

/// The next character of a string's contents at `i`, and the position after it.
pub open spec fn string_step(s: Seq<char>, i: int) -> Option<(char, int)> {
    if s[i] == '\\' {
        unescape_at(s, i)
    } else if (s[i] as u32) < 0x20 {
        None
    } else {
        Some((s[i], i + 1))
    }
}

/// The contents of a string whose opening quote stands before `i`, and the
/// position after its closing quote.
pub open spec fn string_body(s: Seq<char>, i: int) -> Option<(Seq<char>, int)>
    decreases s.len() - i,
{
    if !(0 <= i < s.len()) {
        None
    } else if s[i] == '"' {
        Some((seq![], i + 1))
    } else {
        match string_step(s, i) {
            Some((c, j)) => if i < j <= s.len() {
                match string_body(s, j) {
                    Some((t, k)) => Some((seq![c] + t, k)),
                    None => None,
                }
            } else {
                None
            },
            None => None,
        }
    }
}

/// The string that starts at `i`, and the position after it.
pub open spec fn string_at(s: Seq<char>, i: int) -> Option<(Seq<char>, int)> {
    if char_at(s, i, '"') {
        string_body(s, i + 1)
    } else {
        None
    }
}

/// The member `"key": "value"` that starts at `i`, and the position after it.
pub open spec fn member_at(s: Seq<char>, i: int) -> Option<(Seq<char>, Seq<char>, int)> {
    match string_at(s, i) {
        Some((k, j)) => {
            let c = skip_space(s, j);
            if char_at(s, c, ':') {
                match string_at(s, skip_space(s, c + 1)) {
                    Some((v, e)) => Some((k, v, e)),
                    None => None,
                }
            } else {
                None
            }
        },
        None => None,
    }
}

pub open spec fn is_key(k: Seq<char>) -> bool {
    k == id_key() || k == command_key() || k == title_key()
}

/// The three keys are the three field names, each once.
pub open spec fn keys_ok(k1: Seq<char>, k2: Seq<char>, k3: Seq<char>) -> bool {
    is_key(k1) && is_key(k2) && is_key(k3) && k1 != k2 && k1 != k3 && k2 != k3
}

/// The value under `name` among three members.
pub open spec fn pick(
    name: Seq<char>,
    m1: (Seq<char>, Seq<char>),
    m2: (Seq<char>, Seq<char>),
    m3: (Seq<char>, Seq<char>),
) -> Seq<char> {
    if m1.0 == name {
        m1.1
    } else if m2.0 == name {
        m2.1
    } else {
        m3.1
    }
}

pub open spec fn record_of_members(
    m1: (Seq<char>, Seq<char>),
    m2: (Seq<char>, Seq<char>),
    m3: (Seq<char>, Seq<char>),
) -> WindowModel {
    WindowModel {
        window_id: pick(id_key(), m1, m2, m3),
        app_command: pick(command_key(), m1, m2, m3),
        window_title: pick(title_key(), m1, m2, m3),
    }
}

/// The record whose object starts at `i`, and the position after it.
#[verifier::opaque]
pub open spec fn record_at(s: Seq<char>, i: int) -> Option<(WindowModel, int)> {
    if !char_at(s, i, '{') {
        None
    } else {
        match member_at(s, skip_space(s, i + 1)) {
            Some((k1, v1, e1)) => {
                let b = skip_space(s, e1);
                if !char_at(s, b, ',') {
                    None
                } else {
                    match member_at(s, skip_space(s, b + 1)) {
                        Some((k2, v2, e2)) => {
                            let d = skip_space(s, e2);
                            if !char_at(s, d, ',') {
                                None
                            } else {
                                match member_at(s, skip_space(s, d + 1)) {
                                    Some((k3, v3, e3)) => {
                                        let f = skip_space(s, e3);
                                        if char_at(s, f, '}') && keys_ok(k1, k2, k3) {
                                            Some(
                                                (
                                                    record_of_members(
                                                        (k1, v1),
                                                        (k2, v2),
                                                        (k3, v3),
                                                    ),
                                                    f + 1,
                                                ),
                                            )
                                        } else {
                                            None
                                        }
                                    },
                                    None => None,
                                }
                            }
                        },
                        None => None,
                    }
                }
            },
            None => None,
        }
    }
}

/// The records that follow a first one, from `i` up to and past the closing
/// bracket, and the position after that bracket.
pub open spec fn items_after(s: Seq<char>, i: int) -> Option<(Seq<WindowModel>, int)>
    decreases s.len() - i,
{
    let p = skip_space(s, i);
    if char_at(s, p, ']') {
        Some((seq![], p + 1))
    } else if char_at(s, p, ',') && i <= p {
        match record_at(s, skip_space(s, p + 1)) {
            Some((w, j)) => if i < j <= s.len() {
                match items_after(s, j) {
                    Some((ws, k)) => Some((seq![w] + ws, k)),
                    None => None,
                }
            } else {
                None
            },
            None => None,
        }
    } else {
        None
    }
}

/// The records that a whole session file holds, or `None` when the text is
/// not such a file.
pub open spec fn decode_session(s: Seq<char>) -> Option<Seq<WindowModel>> {
    let a = skip_space(s, 0);
    if !char_at(s, a, '[') {
        None
    } else {
        let b = skip_space(s, a + 1);
        let body: Option<(Seq<WindowModel>, int)> = if char_at(s, b, ']') {
            Some((seq![], b + 1))
        } else {
            match record_at(s, b) {
                Some((w, j)) => match items_after(s, j) {
                    Some((ws, k)) => Some((seq![w] + ws, k)),
                    None => None,
                },
                None => None,
            }
        };
        match body {
            Some((ws, k)) => if skip_space(s, k) == s.len() {
                Some(ws)
            } else {
                None
            },
            None => None,
        }
    }
}

} // verus!

verus! {

proof fn lemma_code_unique(a: char, b: char)
    requires
        a as u32 == b as u32,
    ensures
        a == b,
{
}

/// Relies on `char::from_u32`: `Some` exactly for Unicode scalar values, with
/// the character of that value.
#[verifier::external_body]
fn char_from_code(v: u32) -> (r: Option<char>)
    ensures
        match r {
            Some(c) => c as u32 == v,
            None => !(v < 0xD800 || (0xE000 <= v && v <= 0x10FFFF)),
        },
{
    char::from_u32(v)
}

fn skip_space_from(s: &Vec<char>, i: usize) -> (r: usize)
    requires
        i <= s@.len(),
    ensures
        r as int == skip_space(s@, i as int),
        i <= r <= s@.len(),
{
    let mut j: usize = i;
    while j < s.len() && (s[j] == ' ' || s[j] == '\t' || s[j] == '\n' || s[j] == '\r')
        invariant
            i <= j <= s@.len(),
            skip_space(s@, i as int) == skip_space(s@, j as int),
        decreases s@.len() - j,
    {
        j = j + 1;
    }
    j
}

fn hex_value_of(c: char) -> (r: Option<u32>)
    ensures
        r == hex_value(c),
{
    let u = c as u32;
    if 48 <= u && u <= 57 {
        Some(u - 48)
    } else if 97 <= u && u <= 102 {
        Some(u - 87)
    } else if 65 <= u && u <= 70 {
        Some(u - 55)
    } else {
        None
    }
}

fn hex4_from(s: &Vec<char>, i: usize) -> (r: Option<u32>)
    requires
        i <= s@.len(),
    ensures
        r == hex4(s@, i as int),
{
    if s.len() - i < 4 {
        return None;
    }
    match (hex_value_of(s[i]), hex_value_of(s[i + 1]), hex_value_of(s[i + 2]), hex_value_of(s[i + 3])) {
        (Some(a), Some(b), Some(c), Some(d)) => {
            assert(a < 16 && b < 16 && c < 16 && d < 16);
            Some(((a * 16 + b) * 16 + c) * 16 + d)
        },
        _ => None,
    }
}

fn unescape_from(s: &Vec<char>, i: usize) -> (r: Option<(char, usize)>)
    requires
        i < s@.len(),
    ensures
        match r {
            Some((c, j)) => unescape_at(s@, i as int) == Some((c, j as int)),
            None => unescape_at(s@, i as int) is None,
        },
{
    if s.len() - i < 2 {
        return None;
    }
    let e = s[i + 1];
    if e == '"' {
        Some(('"', i + 2))
    } else if e == '\\' {
        Some(('\\', i + 2))
    } else if e == '/' {
        Some(('/', i + 2))
    } else if e == 'b' {
        Some(('\x08', i + 2))
    } else if e == 'f' {
        Some(('\x0C', i + 2))
    } else if e == 'n' {
        Some(('\n', i + 2))
    } else if e == 'r' {
        Some(('\r', i + 2))
    } else if e == 't' {
        Some(('\t', i + 2))
    } else if e == 'u' {
        match hex4_from(s, i + 2) {
            Some(v) => {
                if v < 0xD800 || (0xE000 <= v && v <= 0x10FFFF) {
                    match char_from_code(v) {
                        Some(c) => {
                            assert(code_char(v) as u32 == v);
                            proof {
                                lemma_code_unique(c, code_char(v));
                            }
                            Some((c, i + 6))
                        },
                        None => None,
                    }
                } else if v < 0xDC00 && s.len() - i >= 12 && s[i + 6] == '\\' && s[i + 7] == 'u' {
                    match hex4_from(s, i + 8) {
                        Some(lo) => {
                            if 0xDC00 <= lo && lo < 0xE000 {
                                let code = 0x10000 + (v - 0xD800) * 0x400 + (lo - 0xDC00);
                                assert(code == pair_code(v, lo));
                                match char_from_code(code) {
                                    Some(c) => {
                                        assert(code_char(code) as u32 == code);
                                        proof {
                                            lemma_code_unique(c, code_char(code));
                                        }
                                        Some((c, i + 12))
                                    },
                                    None => None,
                                }
                            } else {
                                None
                            }
                        },
                        None => None,
                    }
                } else {
                    None
                }
            },
            None => None,
        }
    } else {
        None
    }
}

/// The string that starts at `i`, and the position after it.
fn string_from(s: &Vec<char>, i: usize) -> (r: Option<(Vec<char>, usize)>)
    requires
        i <= s@.len(),
    ensures
        match r {
            Some((t, j)) => string_at(s@, i as int) == Some((t@, j as int)) && i < j <= s@.len(),
            None => string_at(s@, i as int) is None,
        },
{
    if !(i < s.len() && s[i] == '"') {
        return None;
    }
    let ghost start = i + 1;
    let mut acc: Vec<char> = Vec::new();
    let mut j: usize = i + 1;
    while j < s.len()
        invariant
            start <= j <= s@.len(),
            start == i + 1,
            char_at(s@, i as int, '"'),
            string_body(s@, start as int) == match string_body(s@, j as int) {
                Some((t, k)) => Some((acc@ + t, k)),
                None => None,
            },
        decreases s@.len() - j,
    {
        let c = s[j];
        if c == '"' {
            assert(string_body(s@, j as int) == Some((Seq::<char>::empty(), j + 1)));
            assert(acc@ + seq![] =~= acc@);
            return Some((acc, j + 1));
        }
        let step: Option<(char, usize)> = if c == '\\' {
            unescape_from(s, j)
        } else if (c as u32) < 0x20 {
            None
        } else {
            Some((c, j + 1))
        };
        match step {
            Some((d, n)) => {
                assert(string_step(s@, j as int) == Some((d, n as int)));
                let ghost old_acc = acc@;
                acc.push(d);
                proof {
                    match string_body(s@, n as int) {
                        Some((t, k)) => {
                            assert(old_acc + (seq![d] + t) =~= acc@ + t);
                        },
                        None => {},
                    }
                }
                j = n;
            },
            None => {
                assert(string_body(s@, j as int) is None);
                return None;
            },
        }
    }
    None
}

/// The member that starts at `i`: its key, its value and the position after it.
fn member_from(s: &Vec<char>, i: usize) -> (r: Option<(Vec<char>, Vec<char>, usize)>)
    requires
        i <= s@.len(),
    ensures
        match r {
            Some((k, v, j)) => member_at(s@, i as int) == Some((k@, v@, j as int)) && i < j
                <= s@.len(),
            None => member_at(s@, i as int) is None,
        },
{
    match string_from(s, i) {
        Some((k, j)) => {
            let c = skip_space_from(s, j);
            if c < s.len() && s[c] == ':' {
                let d = skip_space_from(s, c + 1);
                match string_from(s, d) {
                    Some((v, e)) => Some((k, v, e)),
                    None => None,
                }
            } else {
                None
            }
        },
        None => None,
    }
}

struct FieldKeys {
    id: Vec<char>,
    command: Vec<char>,
    title: Vec<char>,
}

fn field_keys() -> (r: FieldKeys)
    ensures
        r.id@ == id_key(),
        r.command@ == command_key(),
        r.title@ == title_key(),
{
    proof {
        reveal_strlit("window_id");
        reveal_strlit("app_command");
        reveal_strlit("window_title");
    }
    let r = FieldKeys {
        id: chars_of("window_id"),
        command: chars_of("app_command"),
        title: chars_of("window_title"),
    };
    assert(r.id@ =~= id_key());
    assert(r.command@ =~= command_key());
    assert(r.title@ =~= title_key());
    r
}

fn is_key_of(k: &Vec<char>, keys: &FieldKeys) -> (r: bool)
    requires
        keys.id@ == id_key(),
        keys.command@ == command_key(),
        keys.title@ == title_key(),
    ensures
        r == is_key(k@),
{
    same_chars(k, &keys.id) || same_chars(k, &keys.command) || same_chars(k, &keys.title)
}

fn pick_of(
    name: &Vec<char>,
    k1: &Vec<char>,
    v1: &Vec<char>,
    k2: &Vec<char>,
    v2: &Vec<char>,
    v3: &Vec<char>,
) -> (r: String)
    ensures
        forall|k3: Seq<char>| r@ == pick(name@, (k1@, v1@), (k2@, v2@), (k3, v3@)),
{
    if same_chars(k1, name) {
        string_of(v1)
    } else if same_chars(k2, name) {
        string_of(v2)
    } else {
        string_of(v3)
    }
}

/// The record whose object starts at `i`, and the position after it.
fn record_from(s: &Vec<char>, i: usize, keys: &FieldKeys) -> (r: Option<(AppWindow, usize)>)
    requires
        i <= s@.len(),
        keys.id@ == id_key(),
        keys.command@ == command_key(),
        keys.title@ == title_key(),
    ensures
        match r {
            Some((w, j)) => record_at(s@, i as int) == Some((w@, j as int)) && i < j <= s@.len(),
            None => record_at(s@, i as int) is None,
        },
{
    proof {
        reveal(record_at);
    }
    if !(i < s.len() && s[i] == '{') {
        return None;
    }
    let (k1, v1, e1) = match member_from(s, skip_space_from(s, i + 1)) {
        Some(m) => m,
        None => {
            return None;
        },
    };
    let b = skip_space_from(s, e1);
    if !(b < s.len() && s[b] == ',') {
        return None;
    }
    let (k2, v2, e2) = match member_from(s, skip_space_from(s, b + 1)) {
        Some(m) => m,
        None => {
            return None;
        },
    };
    let d = skip_space_from(s, e2);
    if !(d < s.len() && s[d] == ',') {
        return None;
    }
    let (k3, v3, e3) = match member_from(s, skip_space_from(s, d + 1)) {
        Some(m) => m,
        None => {
            return None;
        },
    };
    let f = skip_space_from(s, e3);
    if !(f < s.len() && s[f] == '}') {
        return None;
    }
    if !(is_key_of(&k1, keys) && is_key_of(&k2, keys) && is_key_of(&k3, keys) && !same_chars(
        &k1,
        &k2,
    ) && !same_chars(&k1, &k3) && !same_chars(&k2, &k3)) {
        return None;
    }
    let w = AppWindow::new(
        pick_of(&keys.id, &k1, &v1, &k2, &v2, &v3),
        pick_of(&keys.command, &k1, &v1, &k2, &v2, &v3),
        pick_of(&keys.title, &k1, &v1, &k2, &v2, &v3),
    );
    assert(w@ == record_of_members((k1@, v1@), (k2@, v2@), (k3@, v3@)));
    Some((w, f + 1))
}

/// The records that follow a first one, from `i` on, and the position after
/// the closing bracket.
fn items_from(s: &Vec<char>, i: usize, keys: &FieldKeys) -> (r: Option<(Vec<AppWindow>, usize)>)
    requires
        i <= s@.len(),
        keys.id@ == id_key(),
        keys.command@ == command_key(),
        keys.title@ == title_key(),
    ensures
        match r {
            Some((v, j)) => items_after(s@, i as int) == Some((models(v@), j as int)) && j
                <= s@.len(),
            None => items_after(s@, i as int) is None,
        },
{
    let mut out: Vec<AppWindow> = Vec::new();
    let mut n: usize = i;
    loop
        invariant
            i <= n <= s@.len(),
            keys.id@ == id_key(),
            keys.command@ == command_key(),
            keys.title@ == title_key(),
            items_after(s@, i as int) == match items_after(s@, n as int) {
                Some((ws, e)) => Some((models(out@) + ws, e)),
                None => None,
            },
        decreases s@.len() - n,
    {
        let p = skip_space_from(s, n);
        if p < s.len() && s[p] == ']' {
            assert(items_after(s@, n as int) == Some((Seq::<WindowModel>::empty(), p + 1)));
            assert(models(out@) + seq![] =~= models(out@));
            return Some((out, p + 1));
        }
        if !(p < s.len() && s[p] == ',') {
            return None;
        }
        let q = skip_space_from(s, p + 1);
        match record_from(s, q, keys) {
            Some((w, j)) => {
                let ghost before = models(out@);
                out.push(w);
                assert(models(out@) =~= before.push(w@));
                proof {
                    match items_after(s@, j as int) {
                        Some((ws, e)) => {
                            assert(before + (seq![w@] + ws) =~= models(out@) + ws);
                        },
                        None => {},
                    }
                }
                n = j;
            },
            None => {
                return None;
            },
        }
    }
}

/// The records that a session file holds, or `None` when the text is not a
/// JSON array of well-formed records: a single malformed record rejects the
/// whole text.
pub fn decode_records(text: &str) -> (r: Option<Vec<AppWindow>>)
    ensures
        match r {
            Some(v) => decode_session(text@) == Some(models(v@)),
            None => decode_session(text@) is None,
        },
{
    let s = chars_of(text);
    let keys = field_keys();
    let a = skip_space_from(&s, 0);
    if !(a < s.len() && s[a] == '[') {
        return None;
    }
    let b = skip_space_from(&s, a + 1);
    let (out, k) = if b < s.len() && s[b] == ']' {
        let out: Vec<AppWindow> = Vec::new();
        assert(models(out@) =~= seq![]);
        (out, b + 1)
    } else {
        let (w, j) = match record_from(&s, b, &keys) {
            Some(p) => p,
            None => {
                return None;
            },
        };
        let (rest, k) = match items_from(&s, j, &keys) {
            Some(p) => p,
            None => {
                return None;
            },
        };
        let mut out: Vec<AppWindow> = Vec::new();
        out.push(w);
        let mut rest = rest;
        let ghost tail = models(rest@);
        out.append(&mut rest);
        assert(models(out@) =~= seq![w@] + tail);
        (out, k)
    };
    if skip_space_from(&s, k) == s.len() {
        Some(out)
    } else {
        None
    }
}

} // verus!
