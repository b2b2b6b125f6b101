//! The decoder reads back exactly what the encoder writes.
use vstd::prelude::*;
use crate::codec::{
    escape_char, escape, quoted, member, encode_record, encode_tail, encode_session, hex_digit,
    hex_value, id_key, command_key, title_key,
};
use crate::decode::{
    string_step, string_body, string_at, member_at, record_at, items_after, decode_session,
    skip_space, hex4, code_char, keys_ok, record_of_members, single_code,
};
use crate::record::WindowModel;

verus! {

/// `p` stands in `s` from position `i` on.
pub open spec fn occurs_at(s: Seq<char>, i: int, p: Seq<char>) -> bool {
    0 <= i && i + p.len() <= s.len() && s.subrange(i, i + p.len()) == p
}

proof fn lemma_occurs_split(s: Seq<char>, i: int, a: Seq<char>, b: Seq<char>)
    requires
        occurs_at(s, i, a + b),
    ensures
        occurs_at(s, i, a),
        occurs_at(s, i + a.len(), b),
{
    assert forall|k: int| 0 <= k < a.len() implies s.subrange(i, i + a.len())[k] == a[k] by {
        assert(s.subrange(i, i + (a + b).len())[k] == (a + b)[k]);
    }
    assert(s.subrange(i, i + a.len()) =~= a);
    assert forall|k: int| 0 <= k < b.len() implies s.subrange(i + a.len(), i + a.len() + b.len())[k]
        == b[k] by {
        assert(s.subrange(i, i + (a + b).len())[a.len() + k] == (a + b)[a.len() + k]);
    }
    assert(s.subrange(i + a.len(), i + a.len() + b.len()) =~= b);
}

proof fn lemma_occurs_char(s: Seq<char>, i: int, p: Seq<char>, k: int)
    requires
        occurs_at(s, i, p),
        0 <= k < p.len(),
    ensures
        s[i + k] == p[k],
{
    assert(s.subrange(i, i + p.len())[k] == p[k]);
}

proof fn lemma_hex_round_trip(d: u32)
    requires
        d < 16,
    ensures
        hex_value(hex_digit(d)) == Some(d),
{
}

proof fn lemma_step(c: char, s: Seq<char>, i: int)
    requires
        occurs_at(s, i, escape_char(c)),
    ensures
        s[i] != '"',
        string_step(s, i) == Some((c, i + escape_char(c).len())),
{
    let e = escape_char(c);
    lemma_occurs_char(s, i, e, 0);
    if e.len() >= 2 {
        lemma_occurs_char(s, i, e, 1);
    }
    let u = c as u32;
    if c != '"' && c != '\\' && c != '\n' && c != '\r' && c != '\t' && c != '\x08' && c != '\x0C'
        && u < 0x20 {
        lemma_occurs_char(s, i, e, 2);
        lemma_occurs_char(s, i, e, 3);
        lemma_occurs_char(s, i, e, 4);
        lemma_occurs_char(s, i, e, 5);
        lemma_hex_round_trip(u / 16);
        lemma_hex_round_trip(u % 16);
        assert(hex4(s, i + 2) == Some(u));
        assert(single_code(u));
        assert(code_char(u) as u32 == u);
        assert(code_char(u) == c);
    }
}

proof fn lemma_string_body(x: Seq<char>, s: Seq<char>, i: int)
    requires
        occurs_at(s, i, escape(x) + seq!['"']),
    ensures
        string_body(s, i) == Some((x, i + escape(x).len() + 1)),
    decreases x.len(),
{
    if x.len() == 0 {
        lemma_occurs_char(s, i, escape(x) + seq!['"'], 0);
        assert(x =~= seq![]);
    } else {
        let c = x[0];
        let e = escape_char(c);
        let rest = escape(x.drop_first());
        assert(escape(x) + seq!['"'] =~= e + (rest + seq!['"']));
        lemma_occurs_split(s, i, e, rest + seq!['"']);
        lemma_step(c, s, i);
        lemma_string_body(x.drop_first(), s, i + e.len());
        assert(seq![c] + x.drop_first() =~= x);
    }
}

proof fn lemma_string_at(x: Seq<char>, s: Seq<char>, i: int)
    requires
        occurs_at(s, i, quoted(x)),
    ensures
        string_at(s, i) == Some((x, i + quoted(x).len())),
{
    assert(quoted(x) =~= seq!['"'] + (escape(x) + seq!['"']));
    lemma_occurs_split(s, i, seq!['"'], escape(x) + seq!['"']);
    lemma_occurs_char(s, i, seq!['"'], 0);
    lemma_string_body(x, s, i + 1);
}

proof fn lemma_member(k: Seq<char>, v: Seq<char>, s: Seq<char>, i: int)
    requires
        occurs_at(s, i, member(k, v)),
    ensures
        member_at(s, i) == Some((k, v, i + member(k, v).len())),
{
    let qk = quoted(k);
    let qv = quoted(v);
    lemma_occurs_split(s, i, qk + seq![':'], qv);
    lemma_occurs_split(s, i, qk, seq![':']);
    lemma_string_at(k, s, i);
    let j = i + qk.len();
    lemma_occurs_char(s, j, seq![':'], 0);
    assert(skip_space(s, j) == j);
    lemma_string_at(v, s, j + 1);
    lemma_occurs_char(s, j + 1, qv, 0);
    assert(skip_space(s, j + 1) == j + 1);
}

proof fn lemma_record(w: WindowModel, s: Seq<char>, i: int)
    requires
        occurs_at(s, i, encode_record(w)),
    ensures
        record_at(s, i) == Some((w, i + encode_record(w).len())),
{
    reveal(encode_record);
    reveal(record_at);
    let m1 = member(id_key(), w.window_id);
    let m2 = member(command_key(), w.app_command);
    let m3 = member(title_key(), w.window_title);
    let p1 = seq!['{'] + m1;
    let p2 = p1 + seq![','];
    let p3 = p2 + m2;
    let p4 = p3 + seq![','];
    let p5 = p4 + m3;
    lemma_occurs_split(s, i, p5, seq!['}']);
    lemma_occurs_split(s, i, p4, m3);
    lemma_occurs_split(s, i, p3, seq![',']);
    lemma_occurs_split(s, i, p2, m2);
    lemma_occurs_split(s, i, p1, seq![',']);
    lemma_occurs_split(s, i, seq!['{'], m1);
    lemma_occurs_char(s, i, seq!['{'], 0);
    lemma_occurs_char(s, i + p1.len(), seq![','], 0);
    lemma_occurs_char(s, i + p3.len(), seq![','], 0);
    lemma_occurs_char(s, i + p5.len(), seq!['}'], 0);
    lemma_occurs_char(s, i + 1, m1, 0);
    lemma_occurs_char(s, i + p2.len(), m2, 0);
    lemma_occurs_char(s, i + p4.len(), m3, 0);
    lemma_member(id_key(), w.window_id, s, i + 1);
    lemma_member(command_key(), w.app_command, s, i + p2.len());
    lemma_member(title_key(), w.window_title, s, i + p4.len());
    assert(skip_space(s, i + 1) == i + 1);
    assert(skip_space(s, i + p1.len()) == i + p1.len());
    assert(skip_space(s, i + p2.len()) == i + p2.len());
    assert(skip_space(s, i + p3.len()) == i + p3.len());
    assert(skip_space(s, i + p4.len()) == i + p4.len());
    assert(skip_space(s, i + p5.len()) == i + p5.len());
    assert(keys_ok(id_key(), command_key(), title_key())) by {
        assert(id_key().len() != command_key().len());
        assert(id_key().len() != title_key().len());
        assert(command_key().len() != title_key().len());
    }
    assert(record_of_members(
        (id_key(), w.window_id),
        (command_key(), w.app_command),
        (title_key(), w.window_title),
    ) == w);
}

proof fn lemma_record_starts(w: WindowModel)
    ensures
        encode_record(w).len() > 0,
        encode_record(w)[0] == '{',
{
    reveal(encode_record);
}

proof fn lemma_items(rs: Seq<WindowModel>, s: Seq<char>, i: int)
    requires
        occurs_at(s, i, encode_tail(rs) + seq![']']),
    ensures
        items_after(s, i) == Some((rs, i + encode_tail(rs).len() + 1)),
    decreases rs.len(),
{
    if rs.len() == 0 {
        lemma_occurs_char(s, i, encode_tail(rs) + seq![']'], 0);
        assert(skip_space(s, i) == i);
        assert(rs =~= seq![]);
    } else {
        let b = encode_record(rs[0]);
        let c = encode_tail(rs.drop_first());
        assert(encode_tail(rs) + seq![']'] =~= (seq![','] + b) + (c + seq![']']));
        lemma_occurs_split(s, i, seq![','] + b, c + seq![']']);
        lemma_occurs_split(s, i, seq![','], b);
        lemma_occurs_char(s, i, seq![','], 0);
        lemma_record_starts(rs[0]);
        lemma_occurs_char(s, i + 1, b, 0);
        assert(skip_space(s, i) == i);
        assert(skip_space(s, i + 1) == i + 1);
        lemma_record(rs[0], s, i + 1);
        lemma_items(rs.drop_first(), s, i + 1 + b.len());
        assert(seq![rs[0]] + rs.drop_first() =~= rs);
    }
}

proof fn lemma_decode_empty()
    ensures
        decode_session(encode_session(seq![])) == Some(Seq::<WindowModel>::empty()),
{
    let s = encode_session(seq![]);
    assert(s == seq!['[', ']']);
    assert(skip_space(s, 0) == 0);
    assert(skip_space(s, 1) == 1);
    assert(skip_space(s, 2) == 2);
}

proof fn lemma_decode_nonempty(rs: Seq<WindowModel>)
    requires
        rs.len() > 0,
    ensures
        decode_session(encode_session(rs)) == Some(rs),
{
    let s = encode_session(rs);
    let b = encode_record(rs[0]);
    let c = encode_tail(rs.drop_first());
    let j: int = 1 + b.len() as int;
    assert(s =~= (seq!['['] + b) + (c + seq![']']));
    assert(s.subrange(0, s.len() as int) =~= s);
    lemma_occurs_split(s, 0, seq!['['] + b, c + seq![']']);
    lemma_occurs_split(s, 0, seq!['['], b);
    lemma_occurs_char(s, 0, seq!['['], 0);
    lemma_record_starts(rs[0]);
    lemma_occurs_char(s, 1, b, 0);
    assert(skip_space(s, 0) == 0);
    assert(skip_space(s, 1) == 1);
    lemma_record(rs[0], s, 1);
    assert(record_at(s, 1) == Some((rs[0], j)));
    lemma_items(rs.drop_first(), s, j);
    assert(items_after(s, j) == Some((rs.drop_first(), s.len() as int)));
    assert(skip_space(s, s.len() as int) == s.len());
    assert(seq![rs[0]] + rs.drop_first() =~= rs);
}

/// Reading back what was written gives the same records, in the same order.
pub(crate) proof fn lemma_decode_encode(rs: Seq<WindowModel>)
    ensures
        decode_session(encode_session(rs)) == Some(rs),
{
    if rs.len() == 0 {
        lemma_decode_empty();
        assert(rs =~= seq![]);
    } else {
        lemma_decode_nonempty(rs);
    }
}

} // verus!
