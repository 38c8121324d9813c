//! What holds of every install run, proved over the transitions of
//! [`crate::run`]: a locked ledger freezes the installer, a failed tool
//! leaves the ledger's record of it alone and does not end the run, a run
//! that installed all it planned leaves nothing for the next one, and the
//! events of a run come in order.

use crate::assoc::{find_key, keys_distinct, lemma_find_key, lemma_find_key_at, lookup, Entries};
use crate::binaries_manager::{check_of, names, probe_targets_of};
use crate::binaries_state::CheckView;
use crate::commands::{CommandView, SignalView};
use crate::digest::digest_hex;
use crate::events::{EventView, ToolErrorView};
use crate::filters::{
    lemma_filter_agree, lemma_filter_keeps_distinct, lemma_filter_no_duplicates,
    lemma_filter_push, lemma_push_contains,
};
use crate::manifest::{ManifestView, ToolView};
use crate::metadata::LedgerView;
use crate::pipeline::{
    abandon, after_failure, begin_of, cleanup, install_steps_come_alone, step_of, InstallView,
    PhaseView,
};
use crate::plan::{due, plan_of};
use crate::site::{SiteView, StrategyView};
use crate::run::{
    advance_of, ensure_of, idle_run, result_of, run_step_of, OutcomeView, RunPhaseView, RunView,
};
use vstd::prelude::*;

verus! {

/// A locked ledger freezes the installer. A run under it is over at once:
/// it asks for no work and publishes no event, and no later signal makes it
/// do so. The check reports nothing, and no file on disk is to be looked at.
pub proof fn locked_ledger_freezes(
    site: SiteView,
    manifest: ManifestView,
    ledger: LedgerView,
    allow: Option<Seq<Seq<char>>>,
    strategy: StrategyView,
    present: Seq<Seq<char>>,
    signal: SignalView,
)
    requires
        ledger.is_locked,
    ensures
        ensure_of(site, manifest, ledger, allow, strategy, present) == (
            idle_run(site, ledger, strategy),
            Seq::<CommandView>::empty(),
        ),
        run_step_of(idle_run(site, ledger, strategy), signal) == (
            idle_run(site, ledger, strategy),
            Seq::<CommandView>::empty(),
        ),
        check_of(manifest, ledger, site.platform, present) == (CheckView {
            tools: Seq::empty(),
            all_tools: Seq::empty(),
        }),
        probe_targets_of(manifest, ledger, site.platform, allow) == Seq::<Seq<char>>::empty(),
{
}

/// The names of the tools that failed.
pub open spec fn failed_names(failures: Seq<ToolErrorView>) -> Seq<Seq<char>> {
    failures.map_values(|f: ToolErrorView| f.tool)
}

/// The predicate "`list` holds this name".
pub open spec fn among(list: Seq<Seq<char>>) -> spec_fn(Seq<char>) -> bool {
    |n: Seq<char>| list.contains(n)
}

/// The predicate "`list` does not hold this name".
pub open spec fn apart_from(list: Seq<Seq<char>>) -> spec_fn(Seq<char>) -> bool {
    |n: Seq<char>| !list.contains(n)
}

/// The names of the tools of the plan whose pipeline has come to its end,
/// in the plan's order.
pub open spec fn finished_names(r: RunView) -> Seq<Seq<char>> {
    names(r.queue.take(finished(r)))
}

/// The state of a run after it has taken the signals `signals`, in order.
pub open spec fn run_after(start: RunView, signals: Seq<SignalView>) -> RunView
    decreases signals.len(),
{
    if signals.len() == 0 {
        start
    } else {
        run_step_of(run_after(start, signals.drop_last()), signals.last()).0
    }
}

/// Partial-failure isolation. At every moment of every run, whatever the
/// manifest, the ledger, the allow-list, the strategy, the disk and the
/// signals: a tool that the run has installed has in the ledger the version
/// that the manifest pins, and a tool that has failed has there what it had
/// when the run started, its earlier version or no record. No tool is both,
/// and the result of the run lists the one among the successes and the
/// other among the failures.
pub proof fn failure_is_isolated(
    site: SiteView,
    manifest: ManifestView,
    ledger: LedgerView,
    allow: Option<Seq<Seq<char>>>,
    strategy: StrategyView,
    present: Seq<Seq<char>>,
    signals: Seq<SignalView>,
    failed: Seq<char>,
    done: Seq<char>,
    error: Option<Seq<char>>,
)
    requires
        keys_distinct(manifest.tools),
        failed_names(
            run_after(
                ensure_of(site, manifest, ledger, allow, strategy, present).0,
                signals,
            ).failures,
        ).contains(failed),
        run_after(
            ensure_of(site, manifest, ledger, allow, strategy, present).0,
            signals,
        ).successes.contains(done),
    ensures
        ({
            let r = run_after(ensure_of(site, manifest, ledger, allow, strategy, present).0, signals);
            &&& failed != done
            &&& r.ledger.versions.contains_key(done)
            &&& lookup(manifest.tools, done) is Some
            &&& r.ledger.versions[done] == lookup(manifest.tools, done).unwrap().version
            &&& r.ledger.versions.contains_key(failed) == ledger.versions.contains_key(failed)
            &&& ledger.versions.contains_key(failed) ==> r.ledger.versions[failed]
                == ledger.versions[failed]
            &&& result_of(r, error).successes.contains(done)
            &&& failed_names(result_of(r, error).failures).contains(failed)
        }),
{
    let start = ensure_of(site, manifest, ledger, allow, strategy, present).0;
    let r = run_after(start, signals);
    lemma_every_run(site, manifest, ledger, allow, strategy, present, signals);
    assert(!(r.successes.contains(failed) && failed_names(r.failures).contains(failed)));
    assert(among_first(r.queue, finished(r), done));
    let j = choose|j: int|
        0 <= j < finished(r) && j < r.queue.len() && (#[trigger] r.queue[j]).0 == done;
    lemma_queue_is_of_the_manifest(site, manifest, ledger, allow, strategy, present, j);
    lemma_find_key_at(r.queue, j);
}

/// The two lists of a run hold exactly the tools that have come to their
/// end. At every moment of every run, whatever the manifest, the ledger,
/// the allow-list, the strategy, the disk and the signals:
/// the successes are the finished tools of the plan that were installed, in
/// the plan's order and once each; the failures are all the other finished
/// tools, in the plan's order and once each, each with the version that the
/// manifest pins; and the ledger's record of any tool that is not among the
/// successes, a tool outside the plan above all, is what it was when the
/// run started.
pub proof fn lists_hold_the_finished_tools(
    site: SiteView,
    manifest: ManifestView,
    ledger: LedgerView,
    allow: Option<Seq<Seq<char>>>,
    strategy: StrategyView,
    present: Seq<Seq<char>>,
    signals: Seq<SignalView>,
)
    requires
        keys_distinct(manifest.tools),
    ensures
        ({
            let r = run_after(ensure_of(site, manifest, ledger, allow, strategy, present).0, signals);
            &&& 0 <= finished(r) <= r.queue.len()
            &&& finished_names(r).no_duplicates()
            &&& r.successes == finished_names(r).filter(among(r.successes))
            &&& failed_names(r.failures) == finished_names(r).filter(apart_from(r.successes))
            &&& r.successes.no_duplicates()
            &&& failed_names(r.failures).no_duplicates()
            &&& !(r.phase is Installing) ==> finished_names(r) == names(r.queue)
            &&& forall|k: int|
                0 <= k < r.failures.len() ==> lookup(
                    manifest.tools,
                    (#[trigger] r.failures[k]).tool,
                ) is Some && lookup(manifest.tools, r.failures[k].tool).unwrap().version
                    == r.failures[k].version
            &&& forall|n: Seq<char>|
                !names(r.queue).contains(n) ==> !(#[trigger] r.successes.contains(n))
            &&& forall|n: Seq<char>|
                !(#[trigger] r.successes.contains(n)) ==> {
                    &&& r.ledger.versions.contains_key(n) == ledger.versions.contains_key(n)
                    &&& ledger.versions.contains_key(n) ==> r.ledger.versions[n]
                        == ledger.versions[n]
                }
        }),
{
    let r = run_after(ensure_of(site, manifest, ledger, allow, strategy, present).0, signals);
    lemma_every_run(site, manifest, ledger, allow, strategy, present, signals);
    let done = finished_names(r);
    assert(r.queue.take(finished(r)).len() == finished(r));
    assert(done.no_duplicates()) by {
        assert forall|i: int, j: int|
            0 <= i < done.len() && 0 <= j < done.len() && i != j implies done[i] != done[j] by {
            assert(done[i] == r.queue[i].0 && done[j] == r.queue[j].0);
            if i < j {
                assert(r.queue[i].0 != r.queue[j].0);
            } else {
                assert(r.queue[j].0 != r.queue[i].0);
            }
        }
    }
    assert forall|i: int| 0 <= i < done.len() implies among(failed_names(r.failures))(
        #[trigger] done[i],
    ) == apart_from(r.successes)(done[i]) by {
        assert(done[i] == r.queue[i].0);
        assert(r.successes.contains(r.queue[i].0) || failed_names(r.failures).contains(
            r.queue[i].0,
        ));
        assert(!(r.successes.contains(done[i]) && failed_names(r.failures).contains(done[i])));
    }
    lemma_filter_agree(done, among(failed_names(r.failures)), apart_from(r.successes));
    lemma_filter_no_duplicates(done, among(r.successes));
    lemma_filter_no_duplicates(done, apart_from(r.successes));
    if !(r.phase is Installing) {
        assert(r.queue.take(finished(r)) =~= r.queue);
    }
    assert forall|k: int| 0 <= k < r.failures.len() implies lookup(
        manifest.tools,
        (#[trigger] r.failures[k]).tool,
    ) is Some && lookup(manifest.tools, r.failures[k].tool).unwrap().version
        == r.failures[k].version by {
        let name = r.failures[k].tool;
        lemma_find_key(r.queue, name);
        let j = find_key(r.queue, name).unwrap();
        lemma_queue_is_of_the_manifest(site, manifest, ledger, allow, strategy, present, j);
    }
    assert forall|n: Seq<char>| !names(r.queue).contains(n) implies !(#[trigger] r.successes.contains(
        n,
    )) by {
        if r.successes.contains(n) {
            assert(among_first(r.queue, finished(r), n));
            let j = choose|j: int|
                0 <= j < finished(r) && j < r.queue.len() && (#[trigger] r.queue[j]).0 == n;
            assert(names(r.queue)[j] == n);
        }
    }
}

/// The failure of one tool never ends the run. Once a run has gone through
/// its plan, whatever signals it took, every tool of the plan is noted
/// either as installed or as failed, and none as both.
pub proof fn every_planned_tool_gets_its_turn(
    site: SiteView,
    manifest: ManifestView,
    ledger: LedgerView,
    allow: Option<Seq<Seq<char>>>,
    strategy: StrategyView,
    present: Seq<Seq<char>>,
    signals: Seq<SignalView>,
    j: int,
)
    requires
        keys_distinct(manifest.tools),
        !(run_after(
            ensure_of(site, manifest, ledger, allow, strategy, present).0,
            signals,
        ).phase is Installing),
        0 <= j < run_after(
            ensure_of(site, manifest, ledger, allow, strategy, present).0,
            signals,
        ).queue.len(),
    ensures
        ({
            let r = run_after(ensure_of(site, manifest, ledger, allow, strategy, present).0, signals);
            &&& r.queue == plan_of(manifest, ledger.versions, site.platform, allow, present)
            &&& r.successes.contains(r.queue[j].0) != failed_names(r.failures).contains(
                r.queue[j].0,
            )
        }),
{
    let r = run_after(ensure_of(site, manifest, ledger, allow, strategy, present).0, signals);
    lemma_every_run(site, manifest, ledger, allow, strategy, present, signals);
    lemma_queue_is_of_the_manifest(site, manifest, ledger, allow, strategy, present, j);
    assert(r.successes.contains(r.queue[j].0) || failed_names(r.failures).contains(r.queue[j].0));
    assert(!(r.successes.contains(r.queue[j].0) && failed_names(r.failures).contains(
        r.queue[j].0,
    )));
}

/// Idempotence. A run that has installed everything it had planned, and
/// has written the ledger, leaves nothing to do: with the ledger as that
/// run left it, and with every canonical file on disk that was there before
/// or was installed by the run, the next run with the same allow-list and
/// strategy is over at once and asks for no work. `signals` are the signals
/// that the first run took; `present_after` names the tools whose canonical
/// file exists when the next run starts.
pub proof fn complete_run_leaves_nothing(
    site: SiteView,
    manifest: ManifestView,
    ledger: LedgerView,
    allow: Option<Seq<Seq<char>>>,
    strategy: StrategyView,
    present: Seq<Seq<char>>,
    signals: Seq<SignalView>,
    present_after: Seq<Seq<char>>,
)
    requires
        keys_distinct(manifest.tools),
        run_after(ensure_of(site, manifest, ledger, allow, strategy, present).0, signals).phase
            == RunPhaseView::Done(OutcomeView::Success),
        forall|n: Seq<char>|
            present.contains(n) || run_after(
                ensure_of(site, manifest, ledger, allow, strategy, present).0,
                signals,
            ).successes.contains(n) ==> #[trigger] present_after.contains(n),
    ensures
        ({
            let r = run_after(ensure_of(site, manifest, ledger, allow, strategy, present).0, signals);
            ensure_of(site, manifest, r.ledger, allow, strategy, present_after) == (
                idle_run(site, r.ledger, strategy),
                Seq::<CommandView>::empty(),
            )
        }),
{
    let r = run_after(ensure_of(site, manifest, ledger, allow, strategy, present).0, signals);
    lemma_every_run(site, manifest, ledger, allow, strategy, present, signals);
    lemma_nothing_left(site, manifest, ledger, allow, strategy, present, r, present_after);
}

/// What a listener has heard of a run so far.
pub enum Heard {
    /// No tool is open: none has started yet, or each that has started has
    /// also completed or failed.
    Between,
    /// The named tool has started, and has neither completed nor failed.
    Open(Seq<char>),
    /// The run has reported its result.
    Closed,
}

/// What a listener has heard after one more event, if the event comes in
/// order. A tool starts between tools; progress, completion and failure
/// belong to the tool that is open; a tool that cannot even begin fails
/// between tools, without a start; the result of the run comes between
/// tools and is the last event.
pub open spec fn hear(heard: Heard, event: EventView) -> Option<Heard> {
    match (heard, event) {
        (Heard::Between, EventView::DownloadStart { tool, .. }) => Some(Heard::Open(tool)),
        (Heard::Between, EventView::DownloadError(_)) => Some(Heard::Between),
        (Heard::Between, EventView::UpdateComplete(_)) => Some(Heard::Closed),
        (Heard::Open(open), EventView::DownloadProgress { tool, .. }) => if tool == open {
            Some(Heard::Open(open))
        } else {
            None
        },
        (Heard::Open(open), EventView::DownloadComplete { tool }) => if tool == open {
            Some(Heard::Between)
        } else {
            None
        },
        (Heard::Open(open), EventView::DownloadError(error)) => if error.tool == open {
            Some(Heard::Between)
        } else {
            None
        },
        _ => None,
    }
}

/// What a listener has heard after the events among `commands`, if they
/// all come in order.
pub open spec fn hear_all(heard: Heard, commands: Seq<CommandView>) -> Option<Heard>
    decreases commands.len(),
{
    if commands.len() == 0 {
        Some(heard)
    } else {
        match hear_all(heard, commands.drop_last()) {
            Some(so_far) => match commands.last() {
                CommandView::Emit(event) => hear(so_far, event),
                _ => Some(so_far),
            },
            None => None,
        }
    }
}

/// Every command that a run has issued when it has taken `signals`: those
/// with which it started, then those of each step.
pub open spec fn issued(start: (RunView, Seq<CommandView>), signals: Seq<SignalView>) -> Seq<
    CommandView,
>
    decreases signals.len(),
{
    if signals.len() == 0 {
        start.1
    } else {
        issued(start, signals.drop_last()) + run_step_of(
            run_after(start.0, signals.drop_last()),
            signals.last(),
        ).1
    }
}

/// What a listener of the run `r` has heard when every event so far came
/// in order.
pub open spec fn heard_of(r: RunView) -> Heard {
    match r.current {
        Some(install) => Heard::Open(install.tool),
        None => if r.phase is Done && r.queue.len() > 0 {
            Heard::Closed
        } else {
            Heard::Between
        },
    }
}

/// The events of a run come in order. Whatever the signals: per tool the
/// listeners get a start, then progress reports, then one completion or one
/// failure, all of that tool and before the next tool starts; a tool that
/// cannot begin gets its failure alone; and the result of the run, if the
/// run did any work, comes once, after all tools, and last.
pub proof fn events_come_in_order(
    site: SiteView,
    manifest: ManifestView,
    ledger: LedgerView,
    allow: Option<Seq<Seq<char>>>,
    strategy: StrategyView,
    present: Seq<Seq<char>>,
    signals: Seq<SignalView>,
)
    requires
        keys_distinct(manifest.tools),
    ensures
        ({
            let start = ensure_of(site, manifest, ledger, allow, strategy, present);
            hear_all(Heard::Between, issued(start, signals)) == Some(
                heard_of(run_after(start.0, signals)),
            )
        }),
    decreases signals.len(),
{
    let start = ensure_of(site, manifest, ledger, allow, strategy, present);
    if signals.len() == 0 {
        let plan = plan_of(manifest, ledger.versions, site.platform, allow, present);
        let idle = idle_run(site, ledger, strategy);
        if !(ledger.is_locked || plan.len() == 0) && strategy != (StrategyView::Embedded {
            available: false,
        }) {
            lemma_hear_advance(RunView { queue: plan, phase: RunPhaseView::Installing, ..idle });
        }
    } else {
        let before = signals.drop_last();
        let r = run_after(start.0, before);
        events_come_in_order(site, manifest, ledger, allow, strategy, present, before);
        lemma_every_run(site, manifest, ledger, allow, strategy, present, before);
        lemma_hear_step(ledger, r, signals.last());
        lemma_hear_both(Heard::Between, issued(start, before), run_step_of(r, signals.last()).1);
    }
}

/// Hearing two lists of commands in a row is hearing the first and then the
/// second.
proof fn lemma_hear_both(heard: Heard, first: Seq<CommandView>, second: Seq<CommandView>)
    ensures
        hear_all(heard, first + second) == match hear_all(heard, first) {
            Some(so_far) => hear_all(so_far, second),
            None => None,
        },
    decreases second.len(),
{
    if second.len() == 0 {
        assert(first + second =~= first);
    } else {
        assert((first + second).drop_last() =~= first + second.drop_last());
        lemma_hear_both(heard, first, second.drop_last());
    }
}

/// Commands without events leave a listener where it was.
proof fn lemma_hear_nothing(heard: Heard, commands: Seq<CommandView>)
    requires
        forall|i: int| 0 <= i < commands.len() ==> !(#[trigger] commands[i] is Emit),
    ensures
        hear_all(heard, commands) == Some(heard),
    decreases commands.len(),
{
    if commands.len() > 0 {
        lemma_hear_nothing(heard, commands.drop_last());
    }
}

/// Hearing one command.
proof fn lemma_hear_one(heard: Heard, command: CommandView)
    ensures
        hear_all(heard, seq![command]) == match command {
            CommandView::Emit(event) => hear(heard, event),
            _ => Some(heard),
        },
{
    reveal_with_fuel(hear_all, 2);
    assert(seq![command].drop_last() =~= Seq::<CommandView>::empty());
}

/// What a listener hears when a pipeline gives up an attempt.
proof fn lemma_hear_abandon(s: InstallView)
    ensures
        hear_all(Heard::Open(s.tool), abandon(s).1) == Some(
            if abandon(s).0.phase is Failed {
                Heard::Between
            } else {
                Heard::Open(s.tool)
            },
        ),
        !(abandon(s).0.phase is Installed),
{
    lemma_hear_nothing(Heard::Open(s.tool), cleanup(s));
    lemma_hear_both(Heard::Open(s.tool), cleanup(s), after_failure(s).1);
    lemma_hear_one(Heard::Open(s.tool), after_failure(s).1[0]);
    assert(after_failure(s).1 =~= seq![after_failure(s).1[0]]);
}

/// What a listener hears of one step of a pipeline.
proof fn lemma_hear_tool(s: InstallView, signal: SignalView)
    requires
        !(s.phase is Installed),
        !(s.phase is Failed),
    ensures
        hear_all(Heard::Open(s.tool), step_of(s, signal).1) == Some(
            if step_of(s, signal).0.phase is Installed || step_of(s, signal).0.phase is Failed {
                Heard::Between
            } else {
                Heard::Open(s.tool)
            },
        ),
{
    let open = Heard::Open(s.tool);
    let commands = step_of(s, signal).1;
    lemma_hear_abandon(s);
    install_steps_come_alone(s, signal);
    if s.phase is Acquiring && signal is Completed && digest_hex(s.payload) == s.file.sha256 {
        lemma_hear_nothing(open, commands);
    } else if commands.len() == 1 {
        lemma_hear_one(open, commands[0]);
        assert(commands =~= seq![commands[0]]);
    }
}

/// What a listener hears when a run goes on with its plan.
proof fn lemma_hear_advance(r: RunView)
    requires
        r.current is None,
        r.phase is Installing,
        r.queue.len() > 0,
    ensures
        hear_all(Heard::Between, advance_of(r).1) == Some(heard_of(advance_of(r).0)),
    decreases r.queue.len() - r.next,
{
    if 0 <= r.next < r.queue.len() {
        let entry = r.queue[r.next];
        let begun = begin_of(r.site, entry.0, entry.1, r.strategy);
        match begun.0 {
            Ok(install) => {
                assert(begun.1 =~= seq![begun.1[0]] + seq![begun.1[1]]);
                lemma_hear_both(Heard::Between, seq![begun.1[0]], seq![begun.1[1]]);
                lemma_hear_one(Heard::Between, begun.1[0]);
                lemma_hear_one(Heard::Open(install.tool), begun.1[1]);
            },
            Err(error) => {
                let noted = RunView { next: r.next + 1, failures: r.failures.push(error), ..r };
                lemma_hear_one(Heard::Between, begun.1[0]);
                assert(begun.1 =~= seq![begun.1[0]]);
                lemma_hear_advance(noted);
                lemma_hear_both(Heard::Between, begun.1, advance_of(noted).1);
            },
        }
    } else {
        lemma_hear_one(Heard::Between, advance_of(r).1[0]);
        assert(advance_of(r).1 =~= seq![advance_of(r).1[0]]);
    }
}

/// What a listener hears of one step of a run.
proof fn lemma_hear_step(before: LedgerView, r: RunView, signal: SignalView)
    requires
        consistent(before, r),
    ensures
        hear_all(heard_of(r), run_step_of(r, signal).1) == Some(heard_of(run_step_of(r, signal).0)),
{
    match r.phase {
        RunPhaseView::Installing => match r.current {
            Some(install) => {
                let stepped = step_of(install, signal);
                lemma_hear_tool(install, signal);
                lemma_failure_names_the_tool(install, signal);
                match stepped.0.phase {
                    PhaseView::Installed => {
                        let noted = RunView {
                            current: None,
                            ledger: LedgerView {
                                versions: r.ledger.versions.insert(install.tool, install.version),
                                ..r.ledger
                            },
                            successes: r.successes.push(install.tool),
                            ..r
                        };
                        lemma_hear_advance(noted);
                        lemma_hear_both(heard_of(r), stepped.1, advance_of(noted).1);
                    },
                    PhaseView::Failed(error) => {
                        let noted = RunView {
                            current: None,
                            failures: r.failures.push(error),
                            ..r
                        };
                        lemma_hear_advance(noted);
                        lemma_hear_both(heard_of(r), stepped.1, advance_of(noted).1);
                    },
                    _ => {},
                }
            },
            None => {},
        },
        RunPhaseView::Saving => {
            let commands = run_step_of(r, signal).1;
            if commands.len() == 1 {
                lemma_hear_one(heard_of(r), commands[0]);
                assert(commands =~= seq![commands[0]]);
            }
        },
        RunPhaseView::Done(_) => {},
    }
}

/// Number of tools of the plan whose pipeline has come to its end.
pub open spec fn finished(r: RunView) -> int {
    if r.current is Some {
        r.next - 1
    } else {
        r.next
    }
}

/// Whether `name` is the name of one of the first `count` tools of `queue`.
spec fn among_first(queue: Entries<ToolView>, count: int, name: Seq<char>) -> bool {
    exists|j: int| 0 <= j < count && j < queue.len() && (#[trigger] queue[j]).0 == name
}

/// What holds of a run at every moment, where `before` is the ledger with
/// which the run started: the tools noted as installed and as failed are
/// tools of the plan that came to their end, none is both, and the ledger's
/// versions differ from those of `before` only by the pinned versions of
/// the tools that were installed. A run that started under a locked ledger
/// is over, with that lock in place.
spec fn consistent(before: LedgerView, r: RunView) -> bool {
    &&& keys_distinct(r.queue)
    &&& 0 <= finished(r) <= r.next <= r.queue.len()
    &&& match r.current {
        Some(install) => {
            &&& r.phase is Installing
            &&& install.tool == r.queue[r.next - 1].0
            &&& install.version == r.queue[r.next - 1].1.version
            &&& !(install.phase is Installed)
            &&& !(install.phase is Failed)
        },
        None => true,
    }
    &&& (!(r.phase is Installing) ==> r.current is None && r.next == r.queue.len())
    &&& (r.phase == RunPhaseView::Done(OutcomeView::Success) ==> r.failures.len() == 0)
    &&& (before.is_locked ==> r.ledger.is_locked && r.phase is Done)
    &&& (!(r.phase is Done) ==> r.queue.len() > 0)
    &&& forall|j: int|
        0 <= j < finished(r) ==> r.successes.contains((#[trigger] r.queue[j]).0) || failed_names(
            r.failures,
        ).contains(r.queue[j].0)
    &&& forall|n: Seq<char>|
        (#[trigger] r.successes.contains(n)) ==> among_first(r.queue, finished(r), n)
    &&& forall|n: Seq<char>|
        (#[trigger] failed_names(r.failures).contains(n)) ==> among_first(
            r.queue,
            finished(r),
            n,
        )
    &&& forall|n: Seq<char>|
        !(#[trigger] r.successes.contains(n) && failed_names(r.failures).contains(n))
    &&& forall|n: Seq<char>|
        (#[trigger] r.successes.contains(n)) ==> r.ledger.versions.contains_key(n) && lookup(
            r.queue,
            n,
        ) is Some && lookup(r.queue, n).unwrap().version == r.ledger.versions[n]
    &&& forall|n: Seq<char>|
        !(#[trigger] r.successes.contains(n)) ==> {
            &&& r.ledger.versions.contains_key(n) == before.versions.contains_key(n)
            &&& before.versions.contains_key(n) ==> r.ledger.versions[n] == before.versions[n]
        }
    &&& r.successes == finished_names(r).filter(among(r.successes))
    &&& failed_names(r.failures) == finished_names(r).filter(among(failed_names(r.failures)))
    &&& forall|k: int|
        0 <= k < r.failures.len() ==> lookup(r.queue, (#[trigger] r.failures[k]).tool) is Some
            && lookup(r.queue, r.failures[k].tool).unwrap().version == r.failures[k].version
}

/// A name among the first `count` tools is not the name of the tool at
/// `count`, when no name occurs twice.
proof fn lemma_fresh_name(queue: Entries<ToolView>, count: int)
    requires
        keys_distinct(queue),
        0 <= count < queue.len(),
    ensures
        !among_first(queue, count, queue[count].0),
        forall|n: Seq<char>| among_first(queue, count, n) ==> among_first(queue, count + 1, n),
        among_first(queue, count + 1, queue[count].0),
{
    assert forall|n: Seq<char>| among_first(queue, count, n) implies among_first(
        queue,
        count + 1,
        n,
    ) by {
        let j = choose|j: int| 0 <= j < count && j < queue.len() && (#[trigger] queue[j]).0 == n;
        assert(0 <= j < count + 1 && queue[j].0 == n);
    }
    assert(queue[count].0 == queue[count].0);
}

/// A list of names that is cut out of the finished tools stays so when one
/// more tool comes to its end, whether its name joins the list or not.
proof fn lemma_finished_filter(
    queue: Entries<ToolView>,
    k: int,
    old_list: Seq<Seq<char>>,
    new_list: Seq<Seq<char>>,
)
    requires
        keys_distinct(queue),
        0 <= k < queue.len(),
        old_list == names(queue.take(k)).filter(among(old_list)),
        forall|n: Seq<char>| (#[trigger] old_list.contains(n)) ==> among_first(queue, k, n),
        new_list == old_list || new_list == old_list.push(queue[k].0),
    ensures
        new_list == names(queue.take(k + 1)).filter(among(new_list)),
{
    let before = names(queue.take(k));
    let x = queue[k].0;
    assert(names(queue.take(k + 1)) =~= before.push(x));
    lemma_fresh_name(queue, k);
    assert(!old_list.contains(x));
    if new_list == old_list {
        lemma_filter_push(before, x, among(old_list));
    } else {
        lemma_push_contains(old_list, x);
        assert forall|i: int| 0 <= i < before.len() implies among(old_list)(#[trigger] before[i])
            == among(new_list)(before[i]) by {
            assert(before[i] == queue[i].0);
            assert(queue[i].0 != queue[k].0);
        }
        lemma_filter_agree(before, among(old_list), among(new_list));
        lemma_filter_push(before, x, among(new_list));
    }
}

/// Before any tool has come to its end, the empty list is cut out of the
/// finished tools.
proof fn lemma_nothing_finished(queue: Entries<ToolView>, list: Seq<Seq<char>>)
    requires
        list.len() == 0,
    ensures
        list == names(queue.take(0)).filter(among(list)),
{
    reveal(Seq::filter);
    assert(names(queue.take(0)) =~= Seq::empty());
    assert(list =~= Seq::empty());
}

/// The run `r` between two tools: no tool is being installed, and the next
/// one to begin is the first that has not come to its end.
spec fn between_tools(r: RunView) -> RunView {
    RunView { current: None, next: finished(r), phase: RunPhaseView::Installing, ..r }
}

/// Noting the tool at the head of the unfinished plan as failed keeps a run
/// consistent.
proof fn lemma_note_failure(before: LedgerView, r: RunView, done: RunView, error: ToolErrorView)
    requires
        consistent(before, between_tools(r)),
        0 <= finished(r) < r.queue.len(),
        error.tool == r.queue[finished(r)].0,
        error.version == r.queue[finished(r)].1.version,
        done == (RunView {
            failures: r.failures.push(error),
            next: finished(r) + 1,
            ..between_tools(r)
        }),
    ensures
        consistent(before, done),
{
    let base = between_tools(r);
    let k = finished(r);
    let name = r.queue[k].0;
    lemma_fresh_name(r.queue, k);
    lemma_push_contains(failed_names(r.failures), name);
    assert(failed_names(done.failures) =~= failed_names(r.failures).push(name));
    assert(finished(base) == k && finished(done) == k + 1);
    lemma_finished_filter(r.queue, k, base.successes, done.successes);
    lemma_finished_filter(
        r.queue,
        k,
        failed_names(base.failures),
        failed_names(done.failures),
    );
    lemma_find_key_at(r.queue, k);
    assert forall|i: int| 0 <= i < done.failures.len() implies lookup(
        done.queue,
        (#[trigger] done.failures[i]).tool,
    ) is Some && lookup(done.queue, done.failures[i].tool).unwrap().version
        == done.failures[i].version by {
        if i < r.failures.len() {
            assert(done.failures[i] == base.failures[i]);
        }
    }
    assert forall|j: int| 0 <= j < finished(done) implies done.successes.contains(
        (#[trigger] done.queue[j]).0,
    ) || failed_names(done.failures).contains(done.queue[j].0) by {
        if j < k {
            assert(base.successes.contains(base.queue[j].0) || failed_names(
                base.failures,
            ).contains(base.queue[j].0));
        }
    }
    assert forall|n: Seq<char>| (#[trigger] done.successes.contains(n)) implies among_first(
        done.queue,
        finished(done),
        n,
    ) by {
        assert(base.successes.contains(n));
        assert(among_first(base.queue, finished(base), n));
    }
    assert forall|n: Seq<char>|
        (#[trigger] failed_names(done.failures).contains(n)) implies among_first(
        done.queue,
        finished(done),
        n,
    ) by {
        if n != name {
            assert(failed_names(base.failures).contains(n));
            assert(among_first(base.queue, finished(base), n));
        }
    }
    assert forall|n: Seq<char>|
        !(#[trigger] done.successes.contains(n) && failed_names(done.failures).contains(n)) by {
        if done.successes.contains(n) {
            assert(among_first(base.queue, finished(base), n));
            assert(!(base.successes.contains(n) && failed_names(base.failures).contains(n)));
        }
    }
}

/// Noting the tool at the head of the unfinished plan as installed, with
/// its pinned version entered in the ledger, keeps a run consistent.
proof fn lemma_note_success(before: LedgerView, r: RunView, done: RunView)
    requires
        consistent(before, between_tools(r)),
        0 <= finished(r) < r.queue.len(),
        done == (RunView {
            successes: r.successes.push(r.queue[finished(r)].0),
            ledger: LedgerView {
                versions: r.ledger.versions.insert(
                    r.queue[finished(r)].0,
                    r.queue[finished(r)].1.version,
                ),
                ..r.ledger
            },
            next: finished(r) + 1,
            ..between_tools(r)
        }),
    ensures
        consistent(before, done),
{
    let base = between_tools(r);
    let k = finished(r);
    let name = r.queue[k].0;
    lemma_fresh_name(r.queue, k);
    lemma_push_contains(r.successes, name);
    lemma_find_key_at(r.queue, k);
    assert(finished(base) == k && finished(done) == k + 1);
    lemma_finished_filter(r.queue, k, base.successes, done.successes);
    lemma_finished_filter(
        r.queue,
        k,
        failed_names(base.failures),
        failed_names(done.failures),
    );
    assert forall|i: int| 0 <= i < done.failures.len() implies lookup(
        done.queue,
        (#[trigger] done.failures[i]).tool,
    ) is Some && lookup(done.queue, done.failures[i].tool).unwrap().version
        == done.failures[i].version by {
        assert(done.failures[i] == base.failures[i]);
    }
}

/// Going on with the plan keeps a run consistent.
proof fn lemma_advance_consistent(before: LedgerView, r: RunView)
    requires
        consistent(before, r),
        r.current is None,
        r.phase is Installing,
    ensures
        consistent(before, advance_of(r).0),
    decreases r.queue.len() - r.next,
{
    if 0 <= r.next < r.queue.len() {
        let entry = r.queue[r.next];
        let begun = begin_of(r.site, entry.0, entry.1, r.strategy);
        match begun.0 {
            Ok(install) => {
                let next = RunView { next: r.next + 1, current: Some(install), ..r };
                assert(finished(next) == finished(r));
            },
            Err(error) => {
                let noted = RunView { next: r.next + 1, failures: r.failures.push(error), ..r };
                assert(r == between_tools(r));
                lemma_note_failure(before, r, noted, error);
                lemma_advance_consistent(before, noted);
            },
        }
    }
}

/// A step of a pipeline changes neither the tool nor the version that it
/// installs, and a failure that it ends in names that tool.
proof fn lemma_failure_names_the_tool(s: InstallView, signal: SignalView)
    requires
        !(s.phase is Failed),
    ensures
        step_of(s, signal).0.phase matches PhaseView::Failed(error) ==> error.tool == s.tool
            && error.version == s.version,
        step_of(s, signal).0.tool == s.tool,
        step_of(s, signal).0.version == s.version,
{
}

/// A run starts consistent, given a manifest in which no name occurs twice.
proof fn lemma_start_consistent(
    site: SiteView,
    manifest: ManifestView,
    ledger: LedgerView,
    allow: Option<Seq<Seq<char>>>,
    strategy: StrategyView,
    present: Seq<Seq<char>>,
)
    requires
        keys_distinct(manifest.tools),
    ensures
        consistent(
            ledger,
            ensure_of(site, manifest, ledger, allow, strategy, present).0,
        ),
{
    let plan = plan_of(manifest, ledger.versions, site.platform, allow, present);
    lemma_filter_keeps_distinct(
        manifest.tools,
        due(ledger.versions, site.platform, allow, present),
    );
    let idle = idle_run(site, ledger, strategy);
    lemma_nothing_finished(idle.queue, idle.successes);
    lemma_nothing_finished(idle.queue, failed_names(idle.failures));
    lemma_nothing_finished(plan, idle.successes);
    lemma_nothing_finished(plan, failed_names(idle.failures));
    assert(consistent(ledger, idle));
    if !(ledger.is_locked || plan.len() == 0) {
        let start = RunView { queue: plan, phase: RunPhaseView::Installing, ..idle };
        assert(consistent(ledger, start));
        lemma_advance_consistent(ledger, start);
    }
}

/// Every step keeps a run consistent.
proof fn lemma_step_consistent(
    before: LedgerView,
    r: RunView,
    signal: SignalView,
)
    requires
        consistent(before, r),
    ensures
        consistent(before, run_step_of(r, signal).0),
        run_step_of(r, signal).0.queue == r.queue,
        run_step_of(r, signal).0.site == r.site,
        r.phase is Done ==> run_step_of(r, signal).0 == r,
{
    lemma_step_keeps_plan(r, signal);
    if r.phase is Installing && r.current is Some {
        let install = r.current.unwrap();
        lemma_failure_names_the_tool(install, signal);
        assert(consistent(before, between_tools(r)));
        match step_of(install, signal).0.phase {
            PhaseView::Installed => {
                let noted = RunView {
                    current: None,
                    ledger: LedgerView {
                        versions: r.ledger.versions.insert(install.tool, install.version),
                        ..r.ledger
                    },
                    successes: r.successes.push(install.tool),
                    ..r
                };
                lemma_note_success(before, r, noted);
                lemma_advance_consistent(before, noted);
            },
            PhaseView::Failed(error) => {
                let noted = RunView { current: None, failures: r.failures.push(error), ..r };
                lemma_note_failure(before, r, noted, error);
                lemma_advance_consistent(before, noted);
            },
            _ => {},
        }
    }
}

/// Going on with the plan changes neither the plan nor the site.
proof fn lemma_advance_keeps_plan(r: RunView)
    ensures
        advance_of(r).0.queue == r.queue,
        advance_of(r).0.site == r.site,
    decreases r.queue.len() - r.next,
{
    if 0 <= r.next < r.queue.len() {
        let entry = r.queue[r.next];
        let begun = begin_of(r.site, entry.0, entry.1, r.strategy);
        match begun.0 {
            Ok(install) => {},
            Err(error) => {
                lemma_advance_keeps_plan(
                    RunView { next: r.next + 1, failures: r.failures.push(error), ..r },
                );
            },
        }
    }
}

/// A step changes neither the plan nor the site.
proof fn lemma_step_keeps_plan(r: RunView, signal: SignalView)
    ensures
        run_step_of(r, signal).0.queue == r.queue,
        run_step_of(r, signal).0.site == r.site,
{
    match r.phase {
        RunPhaseView::Installing => match r.current {
            Some(install) => {
                let stepped = step_of(install, signal);
                match stepped.0.phase {
                    PhaseView::Installed => {
                        lemma_advance_keeps_plan(
                            RunView {
                                current: None,
                                ledger: LedgerView {
                                    versions: r.ledger.versions.insert(
                                        install.tool,
                                        install.version,
                                    ),
                                    ..r.ledger
                                },
                                successes: r.successes.push(install.tool),
                                ..r
                            },
                        );
                    },
                    PhaseView::Failed(error) => {
                        lemma_advance_keeps_plan(
                            RunView { current: None, failures: r.failures.push(error), ..r },
                        );
                    },
                    _ => {},
                }
            },
            None => {},
        },
        _ => {},
    }
}

/// Whatever signals a run takes, it stays consistent and keeps its plan; a
/// run that was over when it started stays as it was.
proof fn lemma_every_run(
    site: SiteView,
    manifest: ManifestView,
    ledger: LedgerView,
    allow: Option<Seq<Seq<char>>>,
    strategy: StrategyView,
    present: Seq<Seq<char>>,
    signals: Seq<SignalView>,
)
    requires
        keys_distinct(manifest.tools),
    ensures
        ({
            let start = ensure_of(site, manifest, ledger, allow, strategy, present).0;
            let r = run_after(start, signals);
            &&& consistent(ledger, r)
            &&& r.queue == start.queue
            &&& r.site == start.site
            &&& start.phase is Done ==> r == start
        }),
    decreases signals.len(),
{
    let start = ensure_of(site, manifest, ledger, allow, strategy, present).0;
    if signals.len() == 0 {
        lemma_start_consistent(site, manifest, ledger, allow, strategy, present);
    } else {
        lemma_every_run(site, manifest, ledger, allow, strategy, present, signals.drop_last());
        lemma_step_consistent(ledger, run_after(start, signals.drop_last()), signals.last());
    }
}

/// The plan with which a run starts is the plan of its inputs, or empty;
/// either way each of its tools is the manifest's tool of that name.
proof fn lemma_queue_is_of_the_manifest(
    site: SiteView,
    manifest: ManifestView,
    ledger: LedgerView,
    allow: Option<Seq<Seq<char>>>,
    strategy: StrategyView,
    present: Seq<Seq<char>>,
    j: int,
)
    requires
        keys_distinct(manifest.tools),
        0 <= j < ensure_of(site, manifest, ledger, allow, strategy, present).0.queue.len(),
    ensures
        ({
            let queue = ensure_of(site, manifest, ledger, allow, strategy, present).0.queue;
            &&& queue == plan_of(manifest, ledger.versions, site.platform, allow, present)
            &&& lookup(manifest.tools, queue[j].0) == Some(queue[j].1)
        }),
{
    let wanted = due(ledger.versions, site.platform, allow, present);
    let plan = plan_of(manifest, ledger.versions, site.platform, allow, present);
    lemma_advance_keeps_plan(
        RunView {
            queue: plan,
            phase: RunPhaseView::Installing,
            ..idle_run(site, ledger, strategy)
        },
    );
    assert(plan.contains(plan[j]));
    manifest.tools.lemma_filter_contains_rev(wanted, plan[j]);
    let k = choose|k: int| 0 <= k < manifest.tools.len() && manifest.tools[k] == plan[j];
    lemma_find_key_at(manifest.tools, k);
}

/// The core of idempotence, over a consistent run at its successful end.
proof fn lemma_nothing_left(
    site: SiteView,
    manifest: ManifestView,
    ledger: LedgerView,
    allow: Option<Seq<Seq<char>>>,
    strategy: StrategyView,
    present: Seq<Seq<char>>,
    r: RunView,
    present_after: Seq<Seq<char>>,
)
    requires
        keys_distinct(manifest.tools),
        consistent(ledger, r),
        r.queue == ensure_of(site, manifest, ledger, allow, strategy, present).0.queue,
        ensure_of(site, manifest, ledger, allow, strategy, present).0.phase is Done ==> r.phase
            == ensure_of(site, manifest, ledger, allow, strategy, present).0.phase,
        r.phase == RunPhaseView::Done(OutcomeView::Success),
        forall|n: Seq<char>|
            present.contains(n) || r.successes.contains(n) ==> #[trigger] present_after.contains(n),
    ensures
        ensure_of(site, manifest, r.ledger, allow, strategy, present_after) == (
            idle_run(site, r.ledger, strategy),
            Seq::<CommandView>::empty(),
        ),
{
    let first = due(ledger.versions, site.platform, allow, present);
    let second = due(r.ledger.versions, site.platform, allow, present_after);
    let plan = plan_of(manifest, ledger.versions, site.platform, allow, present);
    let again = plan_of(manifest, r.ledger.versions, site.platform, allow, present_after);
    lemma_advance_keeps_plan(
        RunView {
            queue: plan,
            phase: RunPhaseView::Installing,
            ..idle_run(site, ledger, strategy)
        },
    );
    if !ledger.is_locked && again.len() > 0 {
        assert(r.queue == plan) by {
            if plan.len() == 0 {
                assert(plan =~= Seq::empty());
            }
        }
        manifest.tools.lemma_filter_pred(second, 0);
        let e = again[0];
        assert(again.contains(e));
        manifest.tools.lemma_filter_contains_rev(second, e);
        let i = choose|i: int| 0 <= i < manifest.tools.len() && manifest.tools[i] == e;
        assert(second(e));
        if first(e) {
            manifest.tools.lemma_filter_contains(first, i);
            let j = choose|j: int| 0 <= j < plan.len() && plan[j] == e;
            assert(r.successes.contains(r.queue[j].0) || failed_names(r.failures).contains(
                r.queue[j].0,
            ));
            assert(failed_names(r.failures).len() == 0);
            lemma_find_key_at(r.queue, j);
            assert(present_after.contains(e.0));
        } else {
            if r.successes.contains(e.0) {
                assert(among_first(r.queue, finished(r), e.0));
                let j = choose|j: int|
                    0 <= j < finished(r) && j < r.queue.len() && (#[trigger] r.queue[j]).0 == e.0;
                assert(plan.contains(plan[j]));
                manifest.tools.lemma_filter_contains_rev(first, plan[j]);
                let k = choose|k: int| 0 <= k < manifest.tools.len() && manifest.tools[k] == plan[j];
                assert(k == i) by {
                    if k < i {
                        assert(manifest.tools[k].0 != manifest.tools[i].0);
                    }
                    if i < k {
                        assert(manifest.tools[i].0 != manifest.tools[k].0);
                    }
                }
                manifest.tools.lemma_filter_pred(first, j);
            }
            assert(present_after.contains(e.0));
        }
        assert(false);
    }
    if again.len() == 0 {
        assert(again =~= Seq::empty());
    }
}

} // verus!
