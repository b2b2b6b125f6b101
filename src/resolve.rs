//! Resolving a window's process to its command line, and joining the listed
//! windows with the commands found for them.
use vstd::prelude::*;
use crate::record::{AppWindow, EntryModel, RawWindowEntry, WindowModel, entry_models, models};
use crate::text::{is_space, is_whitespace, chars_of, string_of};

verus! {

/// `s` without its leading whitespace.
pub open spec fn trim_start(s: Seq<char>) -> Seq<char>
    decreases s.len(),
{
    if s.len() > 0 && is_space(s[0]) {
        trim_start(s.drop_first())
    } else {
        s
    }
}

/// `s` without its trailing whitespace.
pub open spec fn trim_end(s: Seq<char>) -> Seq<char>
    decreases s.len(),
{
    if s.len() > 0 && is_space(s.last()) {
        trim_end(s.drop_last())
    } else {
        s
    }
}

/// `s` without leading or trailing whitespace.
pub open spec fn trim(s: Seq<char>) -> Seq<char> {
    trim_end(trim_start(s))
}

/// The command that the process table reports, if it reports one.
pub open spec fn resolved_command(out: Seq<char>) -> Option<Seq<char>> {
    if trim(out).len() == 0 {
        None
    } else {
        Some(trim(out))
    }
}

/// Strips leading and trailing whitespace.
pub fn trim_chars(v: &Vec<char>) -> (r: Vec<char>)
    ensures
        r@ == trim(v@),
{
    let n = v.len();
    let mut i: usize = 0;
    assert(v@.subrange(0, n as int) =~= v@);
    while i < n && is_whitespace(v[i])
        invariant
            i <= n == v@.len(),
            trim_start(v@.subrange(i as int, n as int)) == trim_start(v@),
        decreases n - i,
    {
        assert(v@.subrange(i as int, n as int).drop_first() =~= v@.subrange(i + 1, n as int));
        i = i + 1;
    }
    assert(trim_start(v@.subrange(i as int, n as int)) == v@.subrange(i as int, n as int));
    let mut j: usize = n;
    while j > i && is_whitespace(v[j - 1])
        invariant
            i <= j <= n == v@.len(),
            trim_end(v@.subrange(i as int, j as int)) == trim(v@),
        decreases j,
    {
        assert(v@.subrange(i as int, j as int).drop_last() =~= v@.subrange(i as int, j - 1));
        j = j - 1;
    }
    let mut r: Vec<char> = Vec::new();
    let mut k: usize = i;
    while k < j
        invariant
            i <= k <= j <= n == v@.len(),
            r@ == v@.subrange(i as int, k as int),
        decreases j - k,
    {
        r.push(v[k]);
        k = k + 1;
        assert(r@ =~= v@.subrange(i as int, k as int));
    }
    r
}

/// The command line read from the process table's output for one process:
/// the output without surrounding whitespace, or absence when nothing is left
/// (the process has exited or reported nothing). Never an error.
pub fn command_from_ps_output(out: &str) -> (r: Option<String>)
    ensures
        match r {
            Some(c) => resolved_command(out@) == Some(c@),
            None => resolved_command(out@) is None,
        },
{
    let v = chars_of(out);
    let t = trim_chars(&v);
    if t.len() == 0 {
        None
    } else {
        Some(string_of(&t))
    }
}

/// The view of a resolved command.
pub open spec fn command_view(c: Option<String>) -> Option<Seq<char>> {
    match c {
        Some(s) => Some(s@),
        None => None,
    }
}

/// The record of a listed window, given the command resolved for it.
pub open spec fn record_model(e: EntryModel, c: Option<Seq<char>>) -> Option<WindowModel> {
    match c {
        Some(cmd) => Some(
            WindowModel { window_id: e.window_id, app_command: cmd, window_title: e.window_title },
        ),
        None => None,
    }
}

/// The records of the listed windows whose command was resolved, in listing order.
pub open spec fn joined_records(es: Seq<EntryModel>, cs: Seq<Option<Seq<char>>>) -> Seq<
    WindowModel,
>
    decreases es.len(),
{
    if es.len() == 0 || cs.len() == 0 {
        seq![]
    } else {
        let rest = joined_records(es.drop_last(), cs.drop_last());
        match record_model(es.last(), cs.last()) {
            Some(w) => rest.push(w),
            None => rest,
        }
    }
}

/// The record of one listed window; a window without a command gives none.
pub fn record_of(entry: &RawWindowEntry, command: &Option<String>) -> (r: Option<AppWindow>)
    ensures
        match r {
            Some(w) => record_model(entry@, command_view(*command)) == Some(w@),
            None => command.is_none(),
        },
{
    match command {
        Some(c) => Some(
            AppWindow::new(entry.window_id.clone(), c.clone(), entry.window_title.clone()),
        ),
        None => None,
    }
}

/// Pairs each listed window with the command resolved for it (same position),
/// dropping the windows whose process could not be resolved.
pub fn collect_records(entries: &Vec<RawWindowEntry>, commands: &Vec<Option<String>>) -> (r: Vec<
    AppWindow,
>)
    requires
        entries@.len() == commands@.len(),
    ensures
        models(r@) == joined_records(
            entry_models(entries@),
            commands@.map_values(|c: Option<String>| command_view(c)),
        ),
{
    let ghost es = entry_models(entries@);
    let ghost cs = commands@.map_values(|c: Option<String>| command_view(c));
    let mut r: Vec<AppWindow> = Vec::new();
    let mut i: usize = 0;
    while i < entries.len()
        invariant
            i <= entries@.len() == commands@.len(),
            es == entry_models(entries@),
            cs == commands@.map_values(|c: Option<String>| command_view(c)),
            models(r@) == joined_records(es.take(i as int), cs.take(i as int)),
        decreases entries@.len() - i,
    {
        let ghost old_r = models(r@);
        assert(es.take(i + 1).drop_last() =~= es.take(i as int));
        assert(cs.take(i + 1).drop_last() =~= cs.take(i as int));
        assert(es.take(i + 1).last() == entries@[i as int]@);
        assert(cs.take(i + 1).last() == command_view(commands@[i as int]));
        match record_of(&entries[i], &commands[i]) {
            Some(w) => {
                r.push(w);
                assert(models(r@) =~= old_r.push(w@));
            },
            None => {},
        }
        i = i + 1;
    }
    assert(es.take(i as int) =~= es);
    assert(cs.take(i as int) =~= cs);
    r
}

} // verus!
