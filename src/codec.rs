//! The session file: a JSON array of objects with the string fields
//! `window_id`, `app_command` and `window_title`, and no envelope.
use vstd::prelude::*;
use crate::record::{AppWindow, WindowModel, models};
use crate::text::{chars_of, string_of, push_all};

verus! {

/// The lower-case hexadecimal digit of `d < 16`.
pub open spec fn hex_digit(d: u32) -> char {
    if d < 10 {
        ((d + 48) as u8) as char
    } else {
        ((d + 87) as u8) as char
    }
}

/// The value of a hexadecimal digit of either case.
pub open spec fn hex_value(c: char) -> Option<u32> {
    let u = c as u32;
    if 48 <= u && u <= 57 {
        Some((u - 48) as u32)
    } else if 97 <= u && u <= 102 {
        Some((u - 87) as u32)
    } else if 65 <= u && u <= 70 {
        Some((u - 55) as u32)
    } else {
        None
    }
}

/// How one character is written inside a JSON string.
pub open spec fn escape_char(c: char) -> Seq<char> {
    if c == '"' {
        seq!['\\', '"']
    } else if c == '\\' {
        seq!['\\', '\\']
    } else if c == '\n' {
        seq!['\\', 'n']
    } else if c == '\r' {
        seq!['\\', 'r']
    } else if c == '\t' {
        seq!['\\', 't']
    } else if c == '\x08' {
        seq!['\\', 'b']
    } else if c == '\x0C' {
        seq!['\\', 'f']
    } else if (c as u32) < 0x20 {
        seq!['\\', 'u', '0', '0', hex_digit((c as u32) / 16), hex_digit((c as u32) % 16)]
    } else {
        seq![c]
    }
}

/// The characters of `s` as written inside a JSON string.
pub open spec fn escape(s: Seq<char>) -> Seq<char>
    decreases s.len(),
{
    if s.len() == 0 {
        seq![]
    } else {
        escape_char(s[0]) + escape(s.drop_first())
    }
}

/// `s` as a JSON string.
pub open spec fn quoted(s: Seq<char>) -> Seq<char> {
    seq!['"'] + escape(s) + seq!['"']
}

pub open spec fn id_key() -> Seq<char> {
    seq!['w', 'i', 'n', 'd', 'o', 'w', '_', 'i', 'd']
}

pub open spec fn command_key() -> Seq<char> {
    seq!['a', 'p', 'p', '_', 'c', 'o', 'm', 'm', 'a', 'n', 'd']
}

pub open spec fn title_key() -> Seq<char> {
    seq!['w', 'i', 'n', 'd', 'o', 'w', '_', 't', 'i', 't', 'l', 'e']
}

/// One member of a JSON object.
pub open spec fn member(key: Seq<char>, value: Seq<char>) -> Seq<char> {
    quoted(key) + seq![':'] + quoted(value)
}

/// A record as a JSON object, its members in declaration order.
#[verifier::opaque]
pub open spec fn encode_record(w: WindowModel) -> Seq<char> {
    seq!['{'] + member(id_key(), w.window_id) + seq![','] + member(command_key(), w.app_command)
        + seq![','] + member(title_key(), w.window_title) + seq!['}']
}

/// The records, each preceded by a comma.
pub open spec fn encode_tail(rs: Seq<WindowModel>) -> Seq<char>
    decreases rs.len(),
{
    if rs.len() == 0 {
        seq![]
    } else {
        seq![','] + encode_record(rs[0]) + encode_tail(rs.drop_first())
    }
}

/// The session file that holds `rs`, in order: `[]` when there are none.
pub open spec fn encode_session(rs: Seq<WindowModel>) -> Seq<char> {
    if rs.len() == 0 {
        seq!['[', ']']
    } else {
        seq!['['] + encode_record(rs[0]) + encode_tail(rs.drop_first()) + seq![']']
    }
}

pub proof fn lemma_escape_push(a: Seq<char>, c: char)
    ensures
        escape(a.push(c)) == escape(a) + escape_char(c),
    decreases a.len(),
{
    if a.len() == 0 {
        let p = a.push(c);
        assert(p.drop_first() =~= seq![]);
        assert(escape(p.drop_first()) == Seq::<char>::empty());
        assert(p[0] == c);
        assert(escape(a) == Seq::<char>::empty());
        assert(escape(p) =~= escape(a) + escape_char(c));
    } else {
        lemma_escape_push(a.drop_first(), c);
        assert(a.push(c).drop_first() =~= a.drop_first().push(c));
        assert(escape(a.push(c)) =~= escape(a) + escape_char(c));
    }
}

pub proof fn lemma_tail_push(rs: Seq<WindowModel>, w: WindowModel)
    ensures
        encode_tail(rs.push(w)) == encode_tail(rs) + seq![','] + encode_record(w),
    decreases rs.len(),
{
    if rs.len() == 0 {
        let p = rs.push(w);
        assert(p.drop_first() =~= seq![]);
        assert(encode_tail(p.drop_first()) == Seq::<char>::empty());
        assert(p[0] == w);
        assert(encode_tail(rs) == Seq::<char>::empty());
        assert(encode_tail(p) =~= encode_tail(rs) + seq![','] + encode_record(w));
    } else {
        lemma_tail_push(rs.drop_first(), w);
        assert(rs.push(w).drop_first() =~= rs.drop_first().push(w));
        assert(encode_tail(rs.push(w)) =~= encode_tail(rs) + seq![','] + encode_record(w));
    }
}

/// A character that JSON writes as itself, with no escape.
pub open spec fn is_plain(c: char) -> bool {
    c != '"' && c != '\\' && (c as u32) >= 0x20
}

pub proof fn lemma_escape_plain(s: Seq<char>)
    requires
        forall|k: int| 0 <= k < s.len() ==> is_plain(#[trigger] s[k]),
    ensures
        escape(s) == s,
    decreases s.len(),
{
    if s.len() > 0 {
        lemma_escape_plain(s.drop_first());
        assert(escape(s) =~= s);
    }
}

fn hex_digit_of(d: u32) -> (r: char)
    requires
        d < 16,
    ensures
        r == hex_digit(d),
{
    if d < 10 {
        ((d + 48) as u8) as char
    } else {
        ((d + 87) as u8) as char
    }
}

fn push_escaped_char(dst: &mut Vec<char>, c: char)
    ensures
        final(dst)@ == old(dst)@ + escape_char(c),
{
    let u = c as u32;
    let ghost start = dst@;
    if c == '"' {
        dst.push('\\');
        dst.push('"');
    } else if c == '\\' {
        dst.push('\\');
        dst.push('\\');
    } else if c == '\n' {
        dst.push('\\');
        dst.push('n');
    } else if c == '\r' {
        dst.push('\\');
        dst.push('r');
    } else if c == '\t' {
        dst.push('\\');
        dst.push('t');
    } else if c == '\x08' {
        dst.push('\\');
        dst.push('b');
    } else if c == '\x0C' {
        dst.push('\\');
        dst.push('f');
    } else if u < 0x20 {
        dst.push('\\');
        dst.push('u');
        dst.push('0');
        dst.push('0');
        dst.push(hex_digit_of(u / 16));
        dst.push(hex_digit_of(u % 16));
    } else {
        dst.push(c);
    }
    assert(dst@ =~= start + escape_char(c));
}

fn push_quoted(dst: &mut Vec<char>, s: &str)
    ensures
        final(dst)@ == old(dst)@ + quoted(s@),
{
    let ghost start = dst@;
    let v = chars_of(s);
    dst.push('"');
    let mut i: usize = 0;
    while i < v.len()
        invariant
            i <= v@.len(),
            dst@ == start + seq!['"'] + escape(v@.take(i as int)),
        decreases v@.len() - i,
    {
        proof {
            lemma_escape_push(v@.take(i as int), v@[i as int]);
            assert(v@.take(i + 1) =~= v@.take(i as int).push(v@[i as int]));
        }
        push_escaped_char(dst, v[i]);
        i = i + 1;
    }
    assert(v@.take(i as int) =~= v@);
    dst.push('"');
    assert(dst@ =~= start + quoted(s@));
}

fn push_key(dst: &mut Vec<char>, key: &str, Ghost(k): Ghost<Seq<char>>)
    requires
        key@ == k,
        forall|j: int| 0 <= j < k.len() ==> is_plain(#[trigger] k[j]),
    ensures
        final(dst)@ == old(dst)@ + quoted(k) + seq![':'],
{
    let ghost start = dst@;
    proof {
        lemma_escape_plain(k);
    }
    dst.push('"');
    let v = chars_of(key);
    push_all(dst, &v);
    dst.push('"');
    dst.push(':');
    assert(dst@ =~= start + quoted(k) + seq![':']);
}

fn push_record(dst: &mut Vec<char>, w: &AppWindow)
    ensures
        final(dst)@ == old(dst)@ + encode_record(w@),
{
    let ghost start = dst@;
    proof {
        reveal(encode_record);
        reveal_strlit("window_id");
        reveal_strlit("app_command");
        reveal_strlit("window_title");
        assert("window_id"@ =~= id_key());
        assert("app_command"@ =~= command_key());
        assert("window_title"@ =~= title_key());
    }
    dst.push('{');
    push_key(dst, "window_id", Ghost(id_key()));
    push_quoted(dst, w.window_id.as_str());
    dst.push(',');
    push_key(dst, "app_command", Ghost(command_key()));
    push_quoted(dst, w.app_command.as_str());
    dst.push(',');
    push_key(dst, "window_title", Ghost(title_key()));
    push_quoted(dst, w.window_title.as_str());
    dst.push('}');
    assert(dst@ =~= start + encode_record(w@));
}

/// The session file's text for `records`, in their order.
pub fn encode_records(records: &Vec<AppWindow>) -> (r: String)
    ensures
        r@ == encode_session(models(records@)),
{
    let ghost rs = models(records@);
    let mut out: Vec<char> = Vec::new();
    out.push('[');
    if records.len() > 0 {
        push_record(&mut out, &records[0]);
        let mut i: usize = 1;
        while i < records.len()
            invariant
                1 <= i <= records@.len(),
                rs == models(records@),
                out@ == seq!['['] + encode_record(rs[0]) + encode_tail(rs.subrange(1, i as int)),
            decreases records@.len() - i,
        {
            proof {
                lemma_tail_push(rs.subrange(1, i as int), rs[i as int]);
                assert(rs.subrange(1, i + 1) =~= rs.subrange(1, i as int).push(rs[i as int]));
            }
            out.push(',');
            push_record(&mut out, &records[i]);
            i = i + 1;
        }
        assert(rs.subrange(1, i as int) =~= rs.drop_first());
    }
    out.push(']');
    assert(out@ =~= encode_session(rs));
    string_of(&out)
}

} // verus!
