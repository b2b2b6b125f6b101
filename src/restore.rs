//! Replaying a stored session: every stored command is launched, in order,
//! and the records whose launch failed are reported; one failure stops none
//! of the others.
use vstd::prelude::*;
use crate::record::{AppWindow, WindowModel, models};

verus! {

/// The commands to launch for a session, one per record, in order.
pub open spec fn commands_of(rs: Seq<WindowModel>) -> Seq<Seq<char>> {
    rs.map_values(|w: WindowModel| w.app_command)
}

/// The records whose launch failed (`launched[i]` is false), in order.
pub open spec fn failed_of(rs: Seq<WindowModel>, launched: Seq<bool>) -> Seq<WindowModel>
    decreases rs.len(),
{
    if rs.len() == 0 || launched.len() == 0 {
        seq![]
    } else {
        let rest = failed_of(rs.drop_last(), launched.drop_last());
        if launched.last() {
            rest
        } else {
            rest.push(rs.last())
        }
    }
}

/// The shell commands to launch, one for each record, in storage order.
pub fn restore_commands(records: &Vec<AppWindow>) -> (r: Vec<String>)
    ensures
        r@.map_values(|c: String| c@) == commands_of(models(records@)),
{
    let mut r: Vec<String> = Vec::new();
    let mut i: usize = 0;
    while i < records.len()
        invariant
            i <= records@.len(),
            r@.map_values(|c: String| c@) == commands_of(models(records@)).take(i as int),
        decreases records@.len() - i,
    {
        assert(commands_of(models(records@))[i as int] == records@[i as int].app_command@);
        let ghost before = r@.map_values(|c: String| c@);
        let c = records[i].app_command.clone();
        r.push(c);
        assert(r@.map_values(|c: String| c@) =~= before.push(c@));
        assert(commands_of(models(records@)).take(i + 1) =~= commands_of(models(records@)).take(
            i as int,
        ).push(c@));
        i = i + 1;
    }
    assert(commands_of(models(records@)).take(i as int) =~= commands_of(models(records@)));
    r
}

/// The records whose launch failed, given whether each one was launched.
pub fn failed_restores(records: &Vec<AppWindow>, launched: &Vec<bool>) -> (r: Vec<AppWindow>)
    requires
        records@.len() == launched@.len(),
    ensures
        models(r@) == failed_of(models(records@), launched@),
{
    let ghost rs = models(records@);
    let mut r: Vec<AppWindow> = Vec::new();
    let mut i: usize = 0;
    while i < records.len()
        invariant
            i <= records@.len() == launched@.len(),
            rs == models(records@),
            models(r@) == failed_of(rs.take(i as int), launched@.take(i as int)),
        decreases records@.len() - i,
    {
        assert(rs.take(i + 1).drop_last() =~= rs.take(i as int));
        assert(launched@.take(i + 1).drop_last() =~= launched@.take(i as int));
        assert(rs.take(i + 1).last() == records@[i as int]@);
        if !launched[i] {
            let ghost before = models(r@);
            let w = AppWindow::new(
                records[i].window_id.clone(),
                records[i].app_command.clone(),
                records[i].window_title.clone(),
            );
            r.push(w);
            assert(models(r@) =~= before.push(w@));
        }
        i = i + 1;
    }
    assert(rs.take(i as int) =~= rs);
    assert(launched@.take(i as int) =~= launched@);
    r
}

/// In a session of two records whose first launch fails and whose second
/// succeeds, both are launched and only the first is reported.
pub proof fn lemma_failed_launch_isolated(bad: WindowModel, good: WindowModel)
    ensures
        commands_of(seq![bad, good]) == seq![bad.app_command, good.app_command],
        failed_of(seq![bad, good], seq![false, true]) == seq![bad],
{
    let rs = seq![bad, good];
    let ls = seq![false, true];
    assert(commands_of(rs) =~= seq![bad.app_command, good.app_command]);
    assert(rs.drop_last() =~= seq![bad]);
    assert(ls.drop_last() =~= seq![false]);
    assert(seq![bad].drop_last() =~= seq![]);
    assert(seq![false].drop_last() =~= seq![]);
    reveal_with_fuel(failed_of, 3);
    assert(seq![false].last() == false);
    assert(seq![bad].last() == bad);
    assert(failed_of(Seq::<WindowModel>::empty(), Seq::<bool>::empty()) == Seq::<WindowModel>::empty());
    assert(failed_of(seq![bad], seq![false]) =~= seq![bad]);
}

} // verus!
