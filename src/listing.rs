//! Parsing the window manager's listing: one window per line, columns
//! `window_id desktop pid x y width height client_host title...`.
use vstd::prelude::*;
use crate::record::{EntryModel, RawWindowEntry, entry_models};
use crate::text::{is_space, is_whitespace, chars_of, string_of, push_all, copy_chars};

verus! {

/// Fewest tokens of a well-formed listing line.
pub const MIN_TOKENS: usize = 9;

/// Column at which the title starts.
pub const TITLE_COLUMN: usize = 8;

/// The maximal runs of non-whitespace characters of `s`, in order.
pub open spec fn tokens(s: Seq<char>) -> Seq<Seq<char>>
    decreases s.len(),
{
    if s.len() == 0 {
        seq![]
    } else {
        let p = s.drop_last();
        let c = s.last();
        let t = tokens(p);
        if is_space(c) {
            t
        } else if p.len() > 0 && !is_space(p.last()) {
            t.update(t.len() - 1, t.last().push(c))
        } else {
            t.push(seq![c])
        }
    }
}

/// The tokens joined with one space between neighbours.
pub open spec fn join_spaced(ts: Seq<Seq<char>>) -> Seq<char>
    decreases ts.len(),
{
    if ts.len() == 0 {
        seq![]
    } else if ts.len() == 1 {
        ts[0]
    } else {
        join_spaced(ts.drop_last()) + seq![' '] + ts.last()
    }
}

/// The window that a listing line describes, if it has enough columns.
pub open spec fn line_entry(line: Seq<char>) -> Option<EntryModel> {
    let t = tokens(line);
    if t.len() < MIN_TOKENS {
        None
    } else {
        Some(
            EntryModel {
                window_id: t[0],
                pid: t[2],
                window_title: join_spaced(t.subrange(TITLE_COLUMN as int, t.len() as int)),
            },
        )
    }
}

/// The lines of `s`, split at each `'\n'`.
pub open spec fn lines_of(s: Seq<char>) -> Seq<Seq<char>>
    decreases s.len(),
{
    if s.len() == 0 {
        seq![seq![]]
    } else {
        let t = lines_of(s.drop_last());
        if s.last() == '\n' {
            t.push(seq![])
        } else {
            t.update(t.len() - 1, t.last().push(s.last()))
        }
    }
}

/// The windows described by the well-formed lines among `ls`, in order.
pub open spec fn entries_of_lines(ls: Seq<Seq<char>>) -> Seq<EntryModel>
    decreases ls.len(),
{
    if ls.len() == 0 {
        seq![]
    } else {
        let rest = entries_of_lines(ls.drop_last());
        match line_entry(ls.last()) {
            Some(e) => rest.push(e),
            None => rest,
        }
    }
}

/// The windows of a whole listing, in the order of its lines.
pub open spec fn listing_entries(s: Seq<char>) -> Seq<EntryModel> {
    entries_of_lines(lines_of(s))
}

fn split_tokens(v: &Vec<char>) -> (r: Vec<Vec<char>>)
    ensures
        r@.map_values(|t: Vec<char>| t@) == tokens(v@),
{
    let mut out: Vec<Vec<char>> = Vec::new();
    let mut cur: Vec<char> = Vec::new();
    let mut i: usize = 0;
    while i < v.len()
        invariant
            i <= v@.len(),
            tokens(v@.take(i as int)) == out@.map_values(|t: Vec<char>| t@) + (if cur@.len()
                > 0 {
                seq![cur@]
            } else {
                seq![]
            }),
            cur@.len() > 0 <==> (i > 0 && !is_space(v@[i - 1])),
        decreases v@.len() - i,
    {
        let c = v[i];
        let ghost p = v@.take(i as int);
        let ghost before = out@.map_values(|t: Vec<char>| t@);
        let ghost old_cur = cur@;
        assert(v@.take(i + 1).drop_last() == p);
        assert(v@.take(i + 1).last() == c);
        assert(i > 0 ==> p.last() == v@[i - 1]);
        if is_whitespace(c) {
            if cur.len() > 0 {
                out.push(cur);
                cur = Vec::new();
                assert(out@.map_values(|t: Vec<char>| t@) =~= before.push(old_cur));
                assert(before + seq![old_cur] =~= before.push(old_cur));
            }
            assert(cur@ =~= seq![]);
        } else {
            cur.push(c);
            if cur.len() > 1 {
                assert(tokens(p) =~= before + seq![old_cur]);
                assert(tokens(p).update(tokens(p).len() - 1, tokens(p).last().push(c))
                    =~= before + seq![cur@]);
            } else {
                assert(tokens(p) =~= before);
                assert(cur@ =~= seq![c]);
                assert(tokens(p).push(seq![c]) =~= before + seq![cur@]);
            }
        }
        i = i + 1;
        assert(tokens(v@.take(i as int)) == out@.map_values(|t: Vec<char>| t@) + (if cur@.len()
            > 0 {
            seq![cur@]
        } else {
            seq![]
        }));
    }
    if cur.len() > 0 {
        let ghost before = out@.map_values(|t: Vec<char>| t@);
        out.push(cur);
        assert(out@.map_values(|t: Vec<char>| t@) == before.push(out@[out@.len() - 1]@));
    }
    assert(v@.take(i as int) == v@);
    out
}

fn join_from(ts: &Vec<Vec<char>>, start: usize) -> (r: Vec<char>)
    requires
        start <= ts@.len(),
    ensures
        r@ == join_spaced(
            ts@.map_values(|t: Vec<char>| t@).subrange(start as int, ts@.len() as int),
        ),
{
    let ghost all = ts@.map_values(|t: Vec<char>| t@);
    let mut r: Vec<char> = Vec::new();
    let mut k: usize = start;
    while k < ts.len()
        invariant
            start <= k <= ts@.len(),
            all == ts@.map_values(|t: Vec<char>| t@),
            r@ == join_spaced(all.subrange(start as int, k as int)),
        decreases ts@.len() - k,
    {
        let ghost sub = all.subrange(start as int, k + 1);
        assert(sub.drop_last() == all.subrange(start as int, k as int));
        if k > start {
            r.push(' ');
        }
        push_all(&mut r, &ts[k]);
        k = k + 1;
        assert(r@ == join_spaced(all.subrange(start as int, k as int)));
    }
    r
}

/// The listed window of one line, read from its characters.
pub fn entry_of_chars(line: &Vec<char>) -> (r: Option<RawWindowEntry>)
    ensures
        match r {
            Some(e) => line_entry(line@) == Some(e@),
            None => line_entry(line@) is None,
        },
{
    let ts = split_tokens(line);
    let ghost t = ts@.map_values(|t: Vec<char>| t@);
    if ts.len() < MIN_TOKENS {
        return None;
    }
    let id = copy_chars(&ts[0]);
    let pid = copy_chars(&ts[2]);
    let title = join_from(&ts, TITLE_COLUMN);
    let e = RawWindowEntry {
        window_id: string_of(&id),
        pid: string_of(&pid),
        window_title: string_of(&title),
    };
    assert(t[0] == ts@[0]@);
    assert(t[2] == ts@[2]@);
    Some(e)
}

/// Parses one line of the listing. A line with fewer than nine
/// whitespace-separated tokens describes no window.
pub fn parse_wmctrl_line(line: &str) -> (r: Option<RawWindowEntry>)
    ensures
        match r {
            Some(e) => line_entry(line@) == Some(e@),
            None => line_entry(line@) is None,
        },
        r is None <==> tokens(line@).len() < 9,
{
    let v = chars_of(line);
    entry_of_chars(&v)
}

} // verus!

verus! {

/// Parses the whole listing, one window per well-formed line, in the order of
/// the lines; malformed lines are skipped.
pub fn parse_wmctrl_output(out: &str) -> (r: Vec<RawWindowEntry>)
    ensures
        entry_models(r@) == listing_entries(out@),
{
    let v = chars_of(out);
    let mut r: Vec<RawWindowEntry> = Vec::new();
    let mut cur: Vec<char> = Vec::new();
    let ghost mut done: Seq<Seq<char>> = seq![];
    let mut i: usize = 0;
    while i < v.len()
        invariant
            i <= v@.len(),
            v@ == out@,
            lines_of(v@.take(i as int)) == done.push(cur@),
            entry_models(r@) == entries_of_lines(done),
        decreases v@.len() - i,
    {
        let c = v[i];
        let ghost p = v@.take(i as int);
        let ghost old_r = entry_models(r@);
        assert(v@.take(i + 1).drop_last() == p);
        assert(v@.take(i + 1).last() == c);
        if c == '\n' {
            let e = entry_of_chars(&cur);
            proof {
                let d2 = done.push(cur@);
                assert(d2.drop_last() == done);
                assert(d2.last() == cur@);
            }
            match e {
                Some(e) => {
                    r.push(e);
                    assert(entry_models(r@) =~= old_r.push(e@));
                },
                None => {},
            }
            proof {
                done = done.push(cur@);
            }
            cur = Vec::new();
            assert(cur@ =~= seq![]);
        } else {
            let ghost old_cur = cur@;
            cur.push(c);
            assert(done.push(old_cur).update(done.len() as int, old_cur.push(c)) =~= done.push(
                cur@,
            ));
        }
        i = i + 1;
    }
    assert(v@.take(i as int) == v@);
    let ghost old_r = entry_models(r@);
    let last = entry_of_chars(&cur);
    proof {
        let d2 = done.push(cur@);
        assert(d2.drop_last() == done);
        assert(d2.last() == cur@);
    }
    match last {
        Some(e) => {
            r.push(e);
            assert(entry_models(r@) =~= old_r.push(e@));
        },
        None => {},
    }
    r
}

} // verus!
