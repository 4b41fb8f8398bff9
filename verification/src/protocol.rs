//! What the daemon and those who follow its builds can rely on.

use vstd::prelude::*;

use crate::client::{
    showing, silent, switched, SwitchEventView, SwitchModel, SwitchStage, COMPLETE, FAILED,
};
use crate::daemon::{
    built, cancel_target, cancel_text, cancelled, failure_line, forgotten, group_of, is_end,
    refusal_text, refused, report_of, upload_opening, uploaded, BuildEventView, BuildModel,
    BuildStage, BuildView, Caller, UploadModel, UploadReplyView, UploadStage, UploadView, STORE_DIR,
};
use crate::log::{aborted, finished, LogModel};
use crate::text::{digit, holds, lemma_decimal, occurs_at, signed_decimal};

verus! {

/// Law: whoever follows a build takes the line that the daemon sends of a build
/// that succeeded as its success.
pub proof fn law_success_is_understood(m: SwitchModel)
    requires
        m.stage == SwitchStage::Streaming,
    ensures
        ({
            let line = report_of(BuildEventView::Succeeded);
            switched(m, SwitchEventView::Line(line)) == (
                SwitchModel { stage: SwitchStage::Ended, log: LogModel::idle() },
                showing(finished(m.log)),
            )
        }),
{
    assert(occurs_at(COMPLETE@, COMPLETE@, 0)) by {
        assert(COMPLETE@.subrange(0, COMPLETE@.len() as int) =~= COMPLETE@);
    }
}

/// Law: whoever follows a build takes the line that the daemon sends of a build
/// that failed, with whatever status, as its failure.
pub proof fn law_failure_is_understood(m: SwitchModel, code: Option<i32>)
    requires
        m.stage == SwitchStage::Streaming,
    ensures
        ({
            let line = report_of(BuildEventView::Failed(code));
            let (after, turn) = switched(m, SwitchEventView::Line(line));
            &&& after == (SwitchModel { stage: SwitchStage::Ended, log: LogModel::idle() })
            &&& turn.ui == aborted(m.log)
            &&& turn.lines.len() == 1
        }),
{
    let n: int = match code {
        Some(n) => n as int,
        None => 1,
    };
    let line = failure_line(n);
    lemma_failure_line(n);
    assert(occurs_at(line, FAILED@, 0));
}

/// A line that reports a failure starts as such a line does, and holds no report of
/// success.
proof fn lemma_failure_line(code: int)
    ensures
        occurs_at(failure_line(code), FAILED@, 0),
        !holds(failure_line(code), COMPLETE@),
{
    reveal_strlit("--- Switch Failed with code ");
    reveal_strlit("--- Switch Failed");
    reveal_strlit("--- Switch Complete ---");
    reveal_strlit(" ---");
    let line = failure_line(code);
    let head = "--- Switch Failed with code "@;
    let tail = " ---"@;
    let number = signed_decimal(code);
    assert(line.subrange(0, FAILED@.len() as int) =~= FAILED@) by {
        assert forall|i: int| 0 <= i < FAILED@.len() implies line[i] == FAILED@[i] by {
            assert(line[i] == head[i]);
        }
    }
    assert forall|i: int| 0 <= i < line.len() implies line[i] != 'C' by {
        if i < head.len() {
            assert(line[i] == head[i]);
        } else if i < head.len() + number.len() {
            assert(line[i] == number[i - head.len()]);
            lemma_number(code, i - head.len());
        } else {
            assert(line[i] == tail[i - head.len() - number.len()]);
        }
    }
    assert forall|i: int| !occurs_at(line, COMPLETE@, i) by {
        if occurs_at(line, COMPLETE@, i) {
            assert(COMPLETE@[11] == 'C');
            assert(line.subrange(i, i + COMPLETE@.len())[11] == line[i + 11]);
        }
    }
}

/// A number in decimal is made of digits, with a minus sign at most.
proof fn lemma_number(n: int, i: int)
    requires
        0 <= i < signed_decimal(n).len(),
    ensures
        digit(signed_decimal(n)[i]) || signed_decimal(n)[i] == '-',
{
    if n < 0 {
        lemma_decimal((-n) as nat);
    } else {
        lemma_decimal(n as nat);
    }
}

/// What a run of events makes of a build.
pub open spec fn model_after(events: Seq<BuildEventView>) -> BuildModel
    decreases events.len(),
{
    if events.len() == 0 {
        BuildModel::starting()
    } else {
        built(model_after(events.drop_last()), events.last()).0
    }
}

/// What to do about the last of a run of events.
pub open spec fn actions_after(events: Seq<BuildEventView>) -> Seq<BuildView> {
    built(model_after(events.drop_last()), events.last()).1
}

/// The processes that are noted once these actions are carried out.
pub open spec fn noted_by(noted: Seq<u32>, actions: Seq<BuildView>) -> Seq<u32>
    decreases actions.len(),
{
    if actions.len() == 0 {
        noted
    } else {
        let before = noted_by(noted, actions.drop_last());
        match actions.last() {
            BuildView::StorePid(pid) => before.push(pid),
            BuildView::ClearPid(pid) => forgotten(before, pid),
            BuildView::Emit(_) => before,
        }
    }
}

/// The lines that these actions send.
pub open spec fn sent_by(actions: Seq<BuildView>) -> Seq<Seq<char>>
    decreases actions.len(),
{
    if actions.len() == 0 {
        seq![]
    } else {
        match actions.last() {
            BuildView::Emit(line) => sent_by(actions.drop_last()).push(line),
            _ => sent_by(actions.drop_last()),
        }
    }
}

/// What no action, one action, and the end of a build come to.
proof fn lemma_actions(noted: Seq<u32>, action: BuildView, pid: u32, line: Seq<char>)
    ensures
        noted_by(noted, seq![]) == noted,
        noted_by(noted, seq![action]) == (match action {
            BuildView::StorePid(p) => noted.push(p),
            BuildView::ClearPid(p) => forgotten(noted, p),
            BuildView::Emit(_) => noted,
        }),
        noted_by(noted, seq![BuildView::ClearPid(pid), BuildView::Emit(line)]) == forgotten(
            noted,
            pid,
        ),
        sent_by(seq![]) == Seq::<Seq<char>>::empty(),
        sent_by(seq![action]) == (match action {
            BuildView::Emit(text) => seq![text],
            _ => Seq::<Seq<char>>::empty(),
        }),
        sent_by(seq![BuildView::ClearPid(pid), BuildView::Emit(line)]) == seq![line],
{
    let one = seq![action];
    let first = seq![BuildView::ClearPid(pid)];
    let two = seq![BuildView::ClearPid(pid), BuildView::Emit(line)];
    assert(one.drop_last() =~= seq![]);
    assert(first.drop_last() =~= seq![]);
    assert(two.drop_last() =~= first);
    reveal_with_fuel(noted_by, 3);
    reveal_with_fuel(sent_by, 3);
}

/// The processes that are noted after a run of events, where `before` were noted
/// before it.
pub open spec fn noted_after(before: Seq<u32>, events: Seq<BuildEventView>) -> Seq<u32>
    decreases events.len(),
{
    if events.len() == 0 {
        before
    } else {
        noted_by(noted_after(before, events.drop_last()), actions_after(events))
    }
}

/// The lines that are sent over a run of events.
pub open spec fn lines_sent(events: Seq<BuildEventView>) -> Seq<Seq<char>>
    decreases events.len(),
{
    if events.len() == 0 {
        seq![]
    } else {
        lines_sent(events.drop_last()) + sent_by(actions_after(events))
    }
}

/// The lines that a process writes over a run of events.
pub open spec fn lines_written(events: Seq<BuildEventView>) -> Seq<Seq<char>>
    decreases events.len(),
{
    if events.len() == 0 {
        seq![]
    } else {
        let written = lines_written(events.drop_last());
        match events.last() {
            BuildEventView::Stdout(Some(line)) => written.push(line),
            BuildEventView::Stderr(Some(line)) => written.push(line),
            _ => written,
        }
    }
}

/// What the actions after an event come to.
proof fn lemma_step(noted: Seq<u32>, m: BuildModel, event: BuildEventView)
    ensures
        ({
            let (after, actions) = built(m, event);
            let started = m.stage == BuildStage::Starting && event is Started;
            let ended = m.stage == BuildStage::Waiting && is_end(event);
            &&& noted_by(noted, actions) == (if started && event->Started_0 is Some {
                noted.push(event->Started_0->0)
            } else if ended && m.pid is Some {
                forgotten(noted, m.pid->0)
            } else {
                noted
            })
            &&& ended ==> sent_by(actions) == seq![report_of(event)]
            &&& m.stage == BuildStage::Reading ==> sent_by(actions) == (match event {
                BuildEventView::Stdout(Some(line)) => seq![line],
                BuildEventView::Stderr(Some(line)) => seq![line],
                _ => Seq::<Seq<char>>::empty(),
            })
            &&& m.stage == BuildStage::Waiting && !is_end(event) ==> sent_by(actions)
                == Seq::<Seq<char>>::empty()
            &&& started ==> sent_by(actions) == Seq::<Seq<char>>::empty()
        }),
{
    let actions = built(m, event).1;
    let pid = match m.pid {
        Some(pid) => pid,
        None => 0,
    };
    lemma_actions(noted, actions[0], pid, report_of(event));
    assert(actions.len() == 0 ==> actions =~= seq![]);
    assert(actions.len() == 1 ==> actions =~= seq![actions[0]]);
}

/// A process that was noted last and is forgotten leaves the others noted.
proof fn lemma_forgotten_last(noted: Seq<u32>, pid: u32)
    ensures
        forgotten(noted.push(pid), pid) == noted,
{
    assert(noted.push(pid).drop_last() =~= noted);
}

/// Law: from its start to the end of its process a build is noted, whatever can be
/// read of its output, and it is not once it has been reported. Other processes stay
/// noted as they were.
pub proof fn law_the_noted_process_runs(before: Seq<u32>, events: Seq<BuildEventView>, pid: u32)
    requires
        events.len() > 0,
        events[0] == BuildEventView::Started(Some(pid)),
    ensures
        model_after(events).pid == Some(pid),
        model_after(events).stage != BuildStage::Starting,
        model_after(events).running() ==> noted_after(before, events) == before.push(pid),
        model_after(events).stage == BuildStage::Ended ==> noted_after(before, events) == before,
    decreases events.len(),
{
    let front = events.drop_last();
    lemma_step(noted_after(before, front), model_after(front), events.last());
    if events.len() == 1 {
        assert(front =~= seq![]);
    } else {
        law_the_noted_process_runs(before, front, pid);
        lemma_forgotten_last(before, pid);
    }
}

/// Law: when the end of a build is reported, its process has been forgotten before.
pub proof fn law_forgotten_before_the_report(m: BuildModel, end: BuildEventView)
    requires
        m.stage == BuildStage::Waiting,
        is_end(end),
    ensures
        built(m, end).0.stage == BuildStage::Ended,
        built(m, end).1 == (match m.pid {
            Some(pid) => seq![BuildView::ClearPid(pid), BuildView::Emit(report_of(end))],
            None => seq![BuildView::Emit(report_of(end))],
        }),
{
}

/// Law: while a build is read, every line that its process writes is sent, in
/// order, and nothing else is.
pub proof fn law_every_line_is_sent(events: Seq<BuildEventView>)
    requires
        events.len() > 0,
        events[0] is Started,
        model_after(events).stage == BuildStage::Reading,
    ensures
        lines_sent(events) == lines_written(events),
    decreases events.len(),
{
    let front = events.drop_last();
    lemma_step(seq![], model_after(front), events.last());
    if events.len() == 1 {
        assert(front =~= seq![]);
        reveal_with_fuel(lines_sent, 2);
        reveal_with_fuel(lines_written, 2);
    } else {
        lemma_started(front);
        law_every_line_is_sent(front);
    }
    assert(lines_sent(events) =~= lines_written(events));
}

/// A build that has been started is not about to start.
proof fn lemma_started(events: Seq<BuildEventView>)
    requires
        events.len() > 0,
        events[0] is Started,
    ensures
        model_after(events).stage != BuildStage::Starting,
    decreases events.len(),
{
    if events.len() == 1 {
        assert(events.drop_last() =~= seq![]);
        reveal_with_fuel(model_after, 2);
    } else {
        lemma_started(events.drop_last());
    }
}

/// Something that happens to a daemon that runs several builds.
pub enum Happening {
    /// An event of one of the builds.
    Build { id: nat, event: BuildEventView },
    /// A cancellation that is granted.
    Cancel,
}

/// A daemon and its builds, however many.
pub struct World {
    pub builds: Map<nat, BuildModel>,
    /// The processes that are noted.
    pub noted: Seq<u32>,
    /// The processes at which a cancellation has been aimed.
    pub signalled: Set<u32>,
}

/// A daemon none of whose builds has started.
pub open spec fn at_rest() -> World {
    World {
        builds: Map::new(|id: nat| true, |id: nat| BuildModel::starting()),
        noted: seq![],
        signalled: Set::empty(),
    }
}

/// The process that an event starts for a build.
pub open spec fn started_by(m: BuildModel, event: BuildEventView) -> Option<u32> {
    match event {
        BuildEventView::Started(pid) => if m.stage == BuildStage::Starting {
            pid
        } else {
            None
        },
        _ => None,
    }
}

/// What comes of it.
pub open spec fn happened(w: World, h: Happening) -> World {
    match h {
        Happening::Build { id, event } => {
            let (m, actions) = built(w.builds[id], event);
            World {
                builds: w.builds.insert(id, m),
                noted: noted_by(w.noted, actions),
                signalled: match started_by(w.builds[id], event) {
                    Some(pid) => w.signalled.remove(pid),
                    None => w.signalled,
                },
            }
        },
        Happening::Cancel => World {
            noted: cancelled(w.noted),
            signalled: if w.noted.len() > 0 {
                w.signalled.insert(w.noted.last())
            } else {
                w.signalled
            },
            ..w
        },
    }
}

/// The daemon after all this.
pub open spec fn world_after(hs: Seq<Happening>) -> World
    decreases hs.len(),
{
    if hs.len() == 0 {
        at_rest()
    } else {
        happened(world_after(hs.drop_last()), hs.last())
    }
}

/// Whether the build `id` runs in the process `pid`.
pub open spec fn runs_in(w: World, id: nat, pid: u32) -> bool {
    w.builds[id].running() && w.builds[id].pid == Some(pid)
}

/// Whether this can happen: the number of a process that is started is not that of
/// one that runs.
pub open spec fn possible(w: World, h: Happening) -> bool {
    match h {
        Happening::Build { id, event } => match started_by(w.builds[id], event) {
            Some(pid) => forall|other: nat| !runs_in(w, other, pid),
            None => true,
        },
        Happening::Cancel => true,
    }
}

/// Whether all this can happen, one after the other.
pub open spec fn all_possible(hs: Seq<Happening>) -> bool
    decreases hs.len(),
{
    hs.len() == 0 || (all_possible(hs.drop_last()) && possible(
        world_after(hs.drop_last()),
        hs.last(),
    ))
}

/// Law: however builds overlap, a cancellation is aimed at a build that runs and was
/// not cancelled yet; it is aimed at nothing only where there is no such build.
pub proof fn law_a_cancellation_hits_a_running_build(hs: Seq<Happening>)
    requires
        all_possible(hs),
    ensures
        ({
            let w = world_after(hs);
            match cancel_target(w.noted) {
                Some(target) => exists|id: nat, pid: u32| #[trigger]
                    runs_in(w, id, pid) && !w.signalled.contains(pid) && target == group_of(pid),
                None => forall|id: nat, pid: u32| #[trigger]
                    runs_in(w, id, pid) ==> w.signalled.contains(pid),
            }
        }),
{
    lemma_in_order(hs);
    let w = world_after(hs);
    if w.noted.len() > 0 {
        let pid = w.noted.last();
        assert(w.noted.contains(pid));
        let id = choose|id: nat| runs_in(w, id, pid);
        assert(runs_in(w, id, pid));
    } else {
        assert forall|id: nat, pid: u32| #[trigger] runs_in(w, id, pid) implies
            w.signalled.contains(pid) by {
            assert(!w.noted.contains(pid));
        }
    }
}

/// Law: a process number that a system gives out names the group as its negation.
pub proof fn law_the_group_is_the_negated_number(pid: u32)
    requires
        pid <= i32::MAX,
    ensures
        group_of(pid) == -(pid as int),
{
}

/// Whether the processes that are noted are those that run and were not cancelled,
/// each once.
pub open spec fn in_order(w: World) -> bool {
    &&& w.noted.no_duplicates()
    &&& forall|id: nat| w.builds.contains_key(id)
    &&& forall|id: nat| (#[trigger] w.builds[id]).stage == BuildStage::Starting ==> w.builds[id].pid
        is None
    &&& forall|pid: u32| #[trigger]
        w.noted.contains(pid) <==> !w.signalled.contains(pid) && exists|id: nat|
            runs_in(w, id, pid)
    &&& forall|i: nat, j: nat, pid: u32| #[trigger]
        runs_in(w, i, pid) && #[trigger] runs_in(w, j, pid) ==> i == j
}

/// Law: however builds overlap, the processes that are noted are those that run and
/// were not cancelled, each once.
pub proof fn law_running_builds_are_noted(hs: Seq<Happening>)
    requires
        all_possible(hs),
    ensures
        in_order(world_after(hs)),
{
    lemma_in_order(hs);
}

proof fn lemma_in_order(hs: Seq<Happening>)
    requires
        all_possible(hs),
    ensures
        in_order(world_after(hs)),
    decreases hs.len(),
{
    if hs.len() > 0 {
        lemma_in_order(hs.drop_last());
        lemma_kept_in_order(world_after(hs.drop_last()), hs.last());
    }
}

/// A process that is forgotten is noted no more, and all others are.
proof fn lemma_forgotten(noted: Seq<u32>, pid: u32)
    requires
        noted.no_duplicates(),
    ensures
        forgotten(noted, pid).no_duplicates(),
        forall|p: u32| #[trigger]
            forgotten(noted, pid).contains(p) <==> noted.contains(p) && p != pid,
    decreases noted.len(),
{
    if noted.len() > 0 {
        let front = noted.drop_last();
        lemma_forgotten(front, pid);
        lemma_without_last(noted);
        if noted.last() != pid {
            let rest = forgotten(front, pid);
            let r = forgotten(noted, pid);
            assert(!rest.contains(noted.last()));
            assert(r == rest.push(noted.last()));
            lemma_pushed(rest, noted.last());
        }
    }
}

/// What a list without duplicates holds besides its last item.
proof fn lemma_without_last(noted: Seq<u32>)
    requires
        noted.no_duplicates(),
        noted.len() > 0,
    ensures
        noted.drop_last().no_duplicates(),
        forall|p: u32| #[trigger]
            noted.drop_last().contains(p) <==> noted.contains(p) && p != noted.last(),
{
    let front = noted.drop_last();
    assert forall|p: u32| #[trigger] front.contains(p) <==> noted.contains(p) && p
        != noted.last() by {
        if front.contains(p) {
            let k = choose|k: int| 0 <= k < front.len() && front[k] == p;
            assert(noted[k] == p);
        }
        if noted.contains(p) && p != noted.last() {
            let k = choose|k: int| 0 <= k < noted.len() && noted[k] == p;
            assert(front[k] == p);
        }
    }
}

/// What a list holds with one item more.
proof fn lemma_pushed(noted: Seq<u32>, pid: u32)
    requires
        noted.no_duplicates(),
        !noted.contains(pid),
    ensures
        noted.push(pid).no_duplicates(),
        forall|p: u32| #[trigger] noted.push(pid).contains(p) <==> noted.contains(p) || p == pid,
{
    let all = noted.push(pid);
    assert forall|p: u32| #[trigger] all.contains(p) <==> noted.contains(p) || p == pid by {
        assert(all[noted.len() as int] == pid);
        if noted.contains(p) {
            let k = choose|k: int| 0 <= k < noted.len() && noted[k] == p;
            assert(all[k] == p);
        }
    }
}

/// What happens keeps the notes in order.
proof fn lemma_kept_in_order(w: World, h: Happening)
    requires
        in_order(w),
        possible(w, h),
    ensures
        in_order(happened(w, h)),
{
    let v = happened(w, h);
    match h {
        Happening::Build { id, event } => {
            let m = w.builds[id];
            lemma_step(w.noted, m, event);
            assert forall|i: nat, pid: u32| i != id implies #[trigger] runs_in(v, i, pid)
                == runs_in(w, i, pid) by {}
            assert forall|i: nat, j: nat, pid: u32| #[trigger]
                runs_in(v, i, pid) && #[trigger] runs_in(v, j, pid) implies i == j by {
                assert(i != id ==> runs_in(w, i, pid));
                assert(j != id ==> runs_in(w, j, pid));
                if started_by(m, event) is None {
                    assert(runs_in(v, id, pid) ==> runs_in(w, id, pid));
                }
            }
            match started_by(m, event) {
                Some(pid) => {
                    assert(!w.noted.contains(pid));
                    lemma_pushed(w.noted, pid);
                    assert(runs_in(v, id, pid));
                    assert forall|p: u32| #[trigger] v.noted.contains(p) <==>
                        !v.signalled.contains(p) && exists|i: nat| runs_in(v, i, p) by {
                        if p != pid {
                            assert(w.noted.contains(p) <==> !w.signalled.contains(p)
                                && exists|i: nat| runs_in(w, i, p));
                            lemma_same_runs(w, v, id, p);
                        }
                    }
                },
                None => {
                    let ended = m.stage == BuildStage::Waiting && is_end(event) && m.pid is Some;
                    if ended {
                        lemma_forgotten(w.noted, m.pid->0);
                        assert(runs_in(w, id, m.pid->0));
                    }
                    assert forall|p: u32| #[trigger] v.noted.contains(p) <==>
                        !v.signalled.contains(p) && exists|i: nat| runs_in(v, i, p) by {
                        assert(w.noted.contains(p) <==> !w.signalled.contains(p)
                            && exists|i: nat| runs_in(w, i, p));
                        if ended && p == m.pid->0 {
                            assert forall|i: nat| !runs_in(v, i, p) by {
                                if i != id {
                                    assert(!runs_in(w, i, p));
                                }
                            }
                        } else {
                            lemma_same_runs(w, v, id, p);
                        }
                    }
                },
            }
        },
        Happening::Cancel => {
            assert forall|i: nat, p: u32| #[trigger] runs_in(v, i, p) == runs_in(w, i, p) by {}
            if w.noted.len() > 0 {
                lemma_without_last(w.noted);
            }
            assert forall|p: u32| #[trigger] v.noted.contains(p) <==> !v.signalled.contains(p)
                && exists|i: nat| runs_in(v, i, p) by {
                assert(w.noted.contains(p) <==> !w.signalled.contains(p) && exists|i: nat|
                    runs_in(w, i, p));
                if exists|i: nat| runs_in(w, i, p) {
                    let i = choose|i: nat| runs_in(w, i, p);
                    assert(runs_in(v, i, p));
                }
            }
        },
    }
}

/// Where a build runs in `p` after an event as it did before, some build runs in `p`
/// as before.
proof fn lemma_same_runs(w: World, v: World, id: nat, p: u32)
    requires
        forall|i: nat| i != id ==> #[trigger] runs_in(v, i, p) == runs_in(w, i, p),
        runs_in(v, id, p) == runs_in(w, id, p),
    ensures
        (exists|i: nat| runs_in(v, i, p)) == (exists|i: nat| runs_in(w, i, p)),
{
    if exists|i: nat| runs_in(w, i, p) {
        let i = choose|i: nat| runs_in(w, i, p);
        assert(runs_in(v, i, p));
    }
}

/// The run of events of a build that is over: its output ends, and then its process
/// does.
pub open spec fn to_the_end(events: Seq<BuildEventView>, end: BuildEventView) -> Seq<
    BuildEventView,
> {
    events.push(BuildEventView::Stdout(None)).push(end)
}

/// Law: of a build that is over, every line that its process wrote until its output
/// ended was sent, in order, and then one report.
pub proof fn law_the_report_comes_last(events: Seq<BuildEventView>, end: BuildEventView)
    requires
        events.len() > 0,
        events[0] is Started,
        model_after(events).stage == BuildStage::Reading,
        is_end(end),
    ensures
        model_after(to_the_end(events, end)).stage == BuildStage::Ended,
        lines_sent(to_the_end(events, end)) == lines_written(events).push(report_of(end)),
{
    law_every_line_is_sent(events);
    let closed = events.push(BuildEventView::Stdout(None));
    let whole = to_the_end(events, end);
    assert(closed.drop_last() =~= events);
    assert(whole.drop_last() =~= closed);
    lemma_step(seq![], model_after(events), BuildEventView::Stdout(None));
    lemma_step(seq![], model_after(closed), end);
    assert(lines_sent(closed) =~= lines_sent(events));
    assert(lines_sent(whole) =~= lines_written(events).push(report_of(end)));
}

/// What is known of a build after these lines of it.
pub open spec fn followed(m: SwitchModel, lines: Seq<Seq<char>>) -> SwitchModel
    decreases lines.len(),
{
    if lines.len() == 0 {
        m
    } else {
        switched(followed(m, lines.drop_last()), SwitchEventView::Line(lines.last())).0
    }
}

/// Lines leave a build followed, or end it.
proof fn lemma_followed(m: SwitchModel, lines: Seq<Seq<char>>)
    requires
        m.stage == SwitchStage::Streaming,
    ensures
        followed(m, lines).stage == SwitchStage::Streaming || followed(m, lines).stage
            == SwitchStage::Ended,
    decreases lines.len(),
{
    if lines.len() > 0 {
        lemma_followed(m, lines.drop_last());
    }
}

/// Law: whoever follows a build from its start is done once the build has succeeded
/// or failed.
pub proof fn law_a_follower_comes_to_an_end(
    m: SwitchModel,
    events: Seq<BuildEventView>,
    end: BuildEventView,
)
    requires
        m.stage == SwitchStage::Streaming,
        events.len() > 0,
        events[0] is Started,
        model_after(events).stage == BuildStage::Reading,
        end is Succeeded || end is Failed,
    ensures
        followed(m, lines_sent(to_the_end(events, end))).stage == SwitchStage::Ended,
{
    law_the_report_comes_last(events, end);
    let lines = lines_sent(to_the_end(events, end));
    assert(lines.drop_last() =~= lines_written(events));
    let before = followed(m, lines.drop_last());
    lemma_followed(m, lines.drop_last());
    if before.stage == SwitchStage::Streaming {
        match end {
            BuildEventView::Failed(code) => law_failure_is_understood(before, code),
            _ => law_success_is_understood(before),
        }
    }
}

/// Law: whoever is not root is refused, and an upload of theirs touches nothing.
pub proof fn law_root_only(caller: Caller, src: Seq<char>)
    requires
        caller != Caller::User(0),
    ensures
        refused(caller) is Some,
        upload_opening(caller, src).0.stage == UploadStage::Ended,
        upload_opening(caller, src).1 == UploadView::Fail(refusal_text(refused(caller)->0)),
{
}

/// What is known of an upload after these replies, and what it asks for.
pub open spec fn upload_after(
    caller: Caller,
    src: Seq<char>,
    replies: Seq<UploadReplyView>,
) -> (UploadModel, UploadView)
    decreases replies.len(),
{
    if replies.len() == 0 {
        upload_opening(caller, src)
    } else {
        uploaded(upload_after(caller, src, replies.drop_last()).0, replies.last())
    }
}

/// Whether every reply is one to the request before it.
pub open spec fn in_turn(caller: Caller, src: Seq<char>, replies: Seq<UploadReplyView>) -> bool
    decreases replies.len(),
{
    replies.len() == 0 || (in_turn(caller, src, replies.drop_last()) && upload_after(
        caller,
        src,
        replies.drop_last(),
    ).0.awaits(replies.last()))
}

/// Law: what is copied is what was listed of the directory that root named, all of it
/// in its order, into the directory that was created, over what is there.
pub proof fn law_what_was_listed_is_copied(
    caller: Caller,
    src: Seq<char>,
    replies: Seq<UploadReplyView>,
)
    requires
        in_turn(caller, src, replies),
        upload_after(caller, src, replies).1 is CopyTo,
    ensures
        refused(caller) is None,
        replies.len() == 2,
        replies[0] == UploadReplyView::Done,
        upload_after(caller, src, replies.take(1)).1 == UploadView::List(src),
        replies[1] is Entries,
        upload_after(caller, src, replies).1 == (UploadView::CopyTo {
            items: replies[1]->Entries_0,
            dir: STORE_DIR@,
            overwrite: true,
        }),
{
    lemma_upload(caller, src, replies);
}

/// Law: an upload succeeds where the directory was created, the entries were listed and
/// the copy was made, and nowhere else.
pub proof fn law_an_upload_that_succeeds_has_copied(
    caller: Caller,
    src: Seq<char>,
    replies: Seq<UploadReplyView>,
)
    requires
        in_turn(caller, src, replies),
    ensures
        upload_after(caller, src, replies).1 is Succeed <==> refused(caller) is None
            && replies.len() == 3 && replies[0] is Done && replies[1] is Entries && replies[2]
            is Done,
{
    lemma_upload(caller, src, replies);
    if replies.len() > 0 {
        lemma_upload(caller, src, replies.drop_last());
    }
}

/// Which replies lead to a stage of an upload.
proof fn lemma_upload(caller: Caller, src: Seq<char>, replies: Seq<UploadReplyView>)
    requires
        in_turn(caller, src, replies),
    ensures
        ({
            let (m, request) = upload_after(caller, src, replies);
            &&& m.src == src
            &&& m.stage != UploadStage::Ended ==> refused(caller) is None
            &&& m.stage == UploadStage::CreateDir ==> replies.len() == 0
            &&& m.stage == UploadStage::List <==> refused(caller) is None && replies.len() == 1
                && replies[0] is Done
            &&& m.stage == UploadStage::List ==> request == UploadView::List(src)
            &&& m.stage == UploadStage::Copy <==> refused(caller) is None && replies.len() == 2
                && replies[0] is Done && replies[1] is Entries
            &&& m.stage == UploadStage::Copy <==> request is CopyTo
            &&& m.stage == UploadStage::Copy ==> request == (UploadView::CopyTo {
                items: replies[1]->Entries_0,
                dir: STORE_DIR@,
                overwrite: true,
            }) && upload_after(caller, src, replies.take(1)).1 == UploadView::List(src)
        }),
    decreases replies.len(),
{
    if replies.len() > 0 {
        let front = replies.drop_last();
        lemma_upload(caller, src, front);
        if replies.len() == 2 {
            assert(replies.take(1) =~= front);
        }
        if front.len() == 0 {
            assert(front =~= seq![]);
        }
    }
}

/// Law: where at most one process is noted, a second cancellation finds nothing to
/// cancel.
pub proof fn law_a_second_cancellation_finds_nothing(noted: Seq<u32>)
    requires
        noted.len() <= 1,
    ensures
        cancel_target(cancelled(noted)) is None,
        cancel_text(cancelled(noted)) == "No active build to cancel"@,
{
}

/// Law: once a build is no longer followed, nothing more is shown or printed.
pub proof fn law_the_end_is_final(m: SwitchModel, event: SwitchEventView)
    requires
        m.stage == SwitchStage::Ended,
    ensures
        switched(m, event) == (m, silent()),
{
}

/// Law: however a build that is followed ends, other than by the lines running
/// out, no derivation is left as being built.
pub proof fn law_an_end_settles_the_log(m: SwitchModel, event: SwitchEventView)
    requires
        m.stage == SwitchStage::Streaming,
        switched(m, event).0.stage != SwitchStage::Streaming,
        !(event is Closed),
    ensures
        switched(m, event).0.log == LogModel::idle(),
{
}

} // verus!
