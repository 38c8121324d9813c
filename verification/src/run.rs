//! An install run, as a state machine over the pipelines of its tools. The
//! tools of the plan are installed one after the other, in the plan's order;
//! the failure of one never ends the run. The ledger is changed in memory
//! for each tool that was installed, and written once, at the end.

use crate::assoc::Entries;
use crate::events::{
    copy_failures, copy_texts, failures_view, Event, EventView, ToolError, ToolErrorView,
    ToolResult, ToolResultView,
};
use crate::manifest::{Manifest, ManifestView, ToolInfo, ToolView};
use crate::metadata::{LedgerView, Metadata};
use crate::commands::{commands_view, Command, CommandView, Signal, SignalView};
use crate::pipeline::{begin_of, step_of, InstallView, Phase, PhaseView, ToolInstall};
use crate::site::{Site, SiteView, Strategy, StrategyView};
use crate::plan::{allow_view, build_plan, plan_entries, plan_of};
use crate::text::{text_opt, texts};
use vstd::prelude::*;

verus! {

/// What a caller of a run is told when a tool failed.
pub const TOOLS_FAILED: &'static str = "one or more tools failed to install";

/// What a caller of a run is told when payloads are to be released from
/// the build and the build carries none.
pub const NO_EMBEDDED_HELPERS: &'static str = "no embedded helpers for this build";

/// How a run ended.
#[derive(Debug, PartialEq, Eq)]
pub enum Outcome {
    /// Nothing failed, or there was nothing to do.
    Success,
    /// The ledger is written, but at least one tool failed.
    ToolsFailed,
    /// The ledger could not be written. Tools that were installed may be
    /// installed again by the next run.
    LedgerWrite(String),
    /// There was something to install from the build, and the build carries
    /// no helpers. Nothing was attempted.
    NoEmbeddedHelpers,
}

/// Mathematical value of an [`Outcome`].
pub enum OutcomeView {
    Success,
    ToolsFailed,
    LedgerWrite(Seq<char>),
    NoEmbeddedHelpers,
}

impl View for Outcome {
    type V = OutcomeView;

    open spec fn view(&self) -> OutcomeView {
        match self {
            Outcome::Success => OutcomeView::Success,
            Outcome::ToolsFailed => OutcomeView::ToolsFailed,
            Outcome::LedgerWrite(m) => OutcomeView::LedgerWrite(m@),
            Outcome::NoEmbeddedHelpers => OutcomeView::NoEmbeddedHelpers,
        }
    }
}

/// What the caller of a run is told: nothing when it succeeded, else why
/// it failed.
pub open spec fn outcome_error(outcome: OutcomeView) -> Option<Seq<char>> {
    match outcome {
        OutcomeView::Success => None,
        OutcomeView::ToolsFailed => Some(TOOLS_FAILED@),
        OutcomeView::LedgerWrite(m) => Some(m),
        OutcomeView::NoEmbeddedHelpers => Some(NO_EMBEDDED_HELPERS@),
    }
}

impl Outcome {
    /// What the caller of the run is told.
    pub fn error(&self) -> (message: Option<String>)
        ensures
            text_opt(message) == outcome_error(self@),
    {
        match self {
            Outcome::Success => None,
            Outcome::ToolsFailed => Some(String::from_str(TOOLS_FAILED)),
            Outcome::LedgerWrite(m) => Some(m.clone()),
            Outcome::NoEmbeddedHelpers => Some(String::from_str(NO_EMBEDDED_HELPERS)),
        }
    }
}

/// Where a run rests between two signals.
#[derive(Debug, PartialEq, Eq)]
pub enum RunPhase {
    /// A tool is being installed.
    Installing,
    /// The ledger is being written.
    Saving,
    /// The run is over. Final.
    Done(Outcome),
}

/// Mathematical value of a [`RunPhase`].
pub enum RunPhaseView {
    Installing,
    Saving,
    Done(OutcomeView),
}

impl View for RunPhase {
    type V = RunPhaseView;

    open spec fn view(&self) -> RunPhaseView {
        match self {
            RunPhase::Installing => RunPhaseView::Installing,
            RunPhase::Saving => RunPhaseView::Saving,
            RunPhase::Done(o) => RunPhaseView::Done(o@),
        }
    }
}

/// The entries of a queue of tools, each name and tool by its view.
pub open spec fn queue_entries(queue: Seq<(String, ToolInfo)>) -> Entries<ToolView> {
    queue.map_values(|e: (String, ToolInfo)| (e.0@, e.1@))
}

/// The view of a pipeline that may be there.
pub open spec fn install_opt(o: Option<ToolInstall>) -> Option<InstallView> {
    match o {
        Some(i) => Some(i@),
        None => None,
    }
}

/// An install run.
pub struct InstallRun {
    site: Site,
    strategy: Strategy,
    queue: Vec<(String, ToolInfo)>,
    next: usize,
    current: Option<ToolInstall>,
    ledger: Metadata,
    successes: Vec<String>,
    failures: Vec<ToolError>,
    phase: RunPhase,
}

/// Mathematical value of an [`InstallRun`].
pub struct RunView {
    pub site: SiteView,
    pub strategy: StrategyView,
    /// The plan of the run.
    pub queue: Entries<ToolView>,
    /// Index in the plan of the first tool that has not begun yet.
    pub next: int,
    /// The pipeline of the tool that is being installed.
    pub current: Option<InstallView>,
    /// The ledger as it stands in memory.
    pub ledger: LedgerView,
    /// The tools installed so far, in the plan's order.
    pub successes: Seq<Seq<char>>,
    /// The tools that failed so far, in the plan's order.
    pub failures: Seq<ToolErrorView>,
    pub phase: RunPhaseView,
}

impl View for InstallRun {
    type V = RunView;

    closed spec fn view(&self) -> RunView {
        RunView {
            site: self.site@,
            strategy: self.strategy@,
            queue: queue_entries(self.queue@),
            next: self.next as int,
            current: install_opt(self.current),
            ledger: self.ledger@,
            successes: texts(self.successes@),
            failures: failures_view(self.failures@),
            phase: self.phase@,
        }
    }
}

/// The ledger that a run writes at its end: the versions as they stand,
/// unlocked.
pub open spec fn ledger_to_save(r: RunView) -> LedgerView {
    LedgerView { versions: r.ledger.versions, is_locked: false }
}

/// Goes on with the plan when no tool is being installed: begins the next
/// tool; a tool that fails at once is noted and the one after it begins;
/// when the plan is done the ledger is to be written.
pub open spec fn advance_of(r: RunView) -> (RunView, Seq<CommandView>)
    decreases r.queue.len() - r.next,
{
    if 0 <= r.next < r.queue.len() {
        let entry = r.queue[r.next];
        let begun = begin_of(r.site, entry.0, entry.1, r.strategy);
        match begun.0 {
            Ok(install) => (RunView { next: r.next + 1, current: Some(install), ..r }, begun.1),
            Err(error) => {
                let rest = advance_of(
                    RunView { next: r.next + 1, failures: r.failures.push(error), ..r },
                );
                (rest.0, begun.1 + rest.1)
            },
        }
    } else {
        (
            RunView {
                ledger: ledger_to_save(r),
                phase: RunPhaseView::Saving,
                ..r
            },
            seq![CommandView::SaveLedger(ledger_to_save(r))],
        )
    }
}

/// The result of the run as it stands, with the error of the ledger write
/// if that failed.
pub open spec fn result_of(r: RunView, error: Option<Seq<char>>) -> ToolResultView {
    ToolResultView { successes: r.successes, failures: r.failures, error }
}

/// The transition of a run: the state after `signal` and the commands to
/// carry out. While a tool is being installed the signal goes to its
/// pipeline; when that comes to its end the tool is noted as installed, with
/// its version entered in the ledger, or as failed, with the ledger left as
/// it is, and the run goes on with the plan. A signal that the phase does
/// not expect changes nothing.
pub open spec fn run_step_of(r: RunView, signal: SignalView) -> (RunView, Seq<CommandView>) {
    match r.phase {
        RunPhaseView::Installing => match r.current {
            Some(install) => {
                let stepped = step_of(install, signal);
                match stepped.0.phase {
                    PhaseView::Installed => {
                        let rest = advance_of(
                            RunView {
                                current: None,
                                ledger: LedgerView {
                                    versions: r.ledger.versions.insert(
                                        install.tool,
                                        install.version,
                                    ),
                                    ..r.ledger
                                },
                                successes: r.successes.push(install.tool),
                                ..r
                            },
                        );
                        (rest.0, stepped.1 + rest.1)
                    },
                    PhaseView::Failed(error) => {
                        let rest = advance_of(
                            RunView { current: None, failures: r.failures.push(error), ..r },
                        );
                        (rest.0, stepped.1 + rest.1)
                    },
                    _ => (RunView { current: Some(stepped.0), ..r }, stepped.1),
                }
            },
            None => (r, seq![]),
        },
        RunPhaseView::Saving => match signal {
            SignalView::Saved => (
                RunView {
                    phase: RunPhaseView::Done(
                        if r.failures.len() == 0 {
                            OutcomeView::Success
                        } else {
                            OutcomeView::ToolsFailed
                        },
                    ),
                    ..r
                },
                seq![CommandView::Emit(EventView::UpdateComplete(result_of(r, None)))],
            ),
            SignalView::SaveFailed { message } => (
                RunView { phase: RunPhaseView::Done(OutcomeView::LedgerWrite(message)), ..r },
                seq![CommandView::Emit(EventView::UpdateComplete(result_of(r, Some(message))))],
            ),
            _ => (r, seq![]),
        },
        RunPhaseView::Done(_) => (r, seq![]),
    }
}

/// A run that is over before it began, with nothing done.
pub open spec fn idle_run(site: SiteView, ledger: LedgerView, strategy: StrategyView) -> RunView {
    RunView {
        site,
        strategy,
        queue: Seq::empty(),
        next: 0,
        current: None,
        ledger,
        successes: Seq::empty(),
        failures: Seq::empty(),
        phase: RunPhaseView::Done(OutcomeView::Success),
    }
}

/// How a run starts. A locked ledger freezes the installer: the run is over
/// at once, with nothing done. So is a run with an empty plan. A run that
/// is to release its payloads from a build without helpers fails at once,
/// with nothing attempted. Otherwise the run begins with the first tool of
/// the plan.
pub open spec fn ensure_of(
    site: SiteView,
    manifest: ManifestView,
    ledger: LedgerView,
    allow: Option<Seq<Seq<char>>>,
    strategy: StrategyView,
    present: Seq<Seq<char>>,
) -> (RunView, Seq<CommandView>) {
    let plan = plan_of(manifest, ledger.versions, site.platform, allow, present);
    if ledger.is_locked || plan.len() == 0 {
        (idle_run(site, ledger, strategy), seq![])
    } else if strategy == (StrategyView::Embedded { available: false }) {
        (
            RunView {
                phase: RunPhaseView::Done(OutcomeView::NoEmbeddedHelpers),
                ..idle_run(site, ledger, strategy)
            },
            seq![],
        )
    } else {
        advance_of(
            RunView {
                queue: plan,
                phase: RunPhaseView::Installing,
                ..idle_run(site, ledger, strategy)
            },
        )
    }
}

impl InstallRun {
    /// Starts a run; see [`ensure_of`]. `present` names the tools whose
    /// canonical file exists on disk.
    pub fn ensure(
        site: &Site,
        manifest: &Manifest,
        meta: Metadata,
        allow: Option<&[String]>,
        strategy: &Strategy,
        present: &[String],
    ) -> (out: (InstallRun, Vec<Command>))
        ensures
            out.0@ == ensure_of(
                site@,
                manifest@,
                meta@,
                allow_view(allow),
                strategy@,
                texts(present@),
            ).0,
            commands_view(out.1@) == ensure_of(
                site@,
                manifest@,
                meta@,
                allow_view(allow),
                strategy@,
                texts(present@),
            ).1,
    {
        let mut queue: Vec<(String, ToolInfo)> = Vec::new();
        let mut commands: Vec<Command> = Vec::new();
        assert(commands_view(commands@) =~= seq![]);
        assert(queue_entries(queue@) =~= Seq::empty());
        let site_copy = Site {
            bin_dir: site.bin_dir.clone(),
            platform: site.platform.clone(),
            windows: site.windows,
        };
        if !meta.is_locked() {
            let plan = build_plan(manifest, &meta, site.platform.as_str(), allow, present);
            let mut i: usize = 0;
            while i < plan.len()
                invariant
                    i <= plan.len(),
                    queue@.len() == i,
                    forall|j: int|
                        0 <= j < i ==> (#[trigger] queue@[j]).0@ == plan@[j].0@ && queue@[j].1@
                            == plan@[j].1@,
                decreases plan.len() - i,
            {
                let name = plan[i].0.clone();
                let tool = plan[i].1.clone();
                queue.push((name, tool));
                i = i + 1;
            }
            assert(queue_entries(queue@) =~= plan_entries(plan@));
        }
        let helpless = match strategy {
            Strategy::Embedded { available } => !*available,
            _ => false,
        };
        if queue.len() > 0 && helpless {
            let refused = InstallRun {
                site: site_copy,
                strategy: strategy.clone(),
                queue: Vec::new(),
                next: 0,
                current: None,
                ledger: meta,
                successes: Vec::new(),
                failures: Vec::new(),
                phase: RunPhase::Done(Outcome::NoEmbeddedHelpers),
            };
            assert(queue_entries(refused.queue@) =~= Seq::empty());
            assert(texts(refused.successes@) =~= Seq::empty());
            assert(failures_view(refused.failures@) =~= Seq::empty());
            return (refused, commands);
        }
        let idle = queue.len() == 0;
        let mut run = InstallRun {
            site: site_copy,
            strategy: strategy.clone(),
            queue,
            next: 0,
            current: None,
            ledger: meta,
            successes: Vec::new(),
            failures: Vec::new(),
            phase: if idle {
                RunPhase::Done(Outcome::Success)
            } else {
                RunPhase::Installing
            },
        };
        assert(texts(run.successes@) =~= Seq::empty());
        assert(failures_view(run.failures@) =~= Seq::empty());
        assert(idle ==> run@.queue =~= Seq::empty());
        if !idle {
            let ghost start = run@;
            run.advance(&mut commands);
            assert(Seq::<CommandView>::empty() + advance_of(start).1 =~= advance_of(start).1);
        }
        (run, commands)
    }

    fn advance(&mut self, commands: &mut Vec<Command>)
        ensures
            final(self)@ == advance_of(old(self)@).0,
            commands_view(final(commands)@) == commands_view(old(commands)@) + advance_of(
                old(self)@,
            ).1,
    {
        let ghost start = self@;
        let ghost base = commands_view(commands@);
        let ghost mut acc: Seq<CommandView> = Seq::empty();
        assert(base + acc =~= base);
        assert(acc + advance_of(start).1 =~= advance_of(start).1);
        while self.next < self.queue.len()
            invariant
                start == old(self)@,
                base == commands_view(old(commands)@),
                commands_view(commands@) == base + acc,
                advance_of(start).0 == advance_of(self@).0,
                advance_of(start).1 == acc + advance_of(self@).1,
            decreases self.queue.len() - self.next,
        {
            let ghost before = self@;
            let begun = ToolInstall::begin(
                &self.site,
                self.queue[self.next].0.as_str(),
                &self.queue[self.next].1,
                &self.strategy,
            );
            let result = begun.0;
            let mut first = begun.1;
            let ghost issued = commands_view(first@);
            let ghost so_far = commands_view(commands@);
            commands.append(&mut first);
            assert(commands_view(commands@) =~= so_far + issued);
            self.next = self.next + 1;
            match result {
                Ok(install) => {
                    self.current = Some(install);
                    proof {
                        assert(base + acc + issued =~= base + (acc + issued));
                        assert(advance_of(before).1 == issued);
                    }
                    return ;
                },
                Err(error) => {
                    let ghost kept = failures_view(self.failures@);
                    self.failures.push(error);
                    assert(failures_view(self.failures@) =~= kept.push(error@));
                    proof {
                        assert(advance_of(before).1 == issued + advance_of(self@).1);
                        assert(acc + (issued + advance_of(self@).1) =~= (acc + issued) + advance_of(
                            self@,
                        ).1);
                        assert(base + acc + issued =~= base + (acc + issued));
                        acc = acc + issued;
                    }
                },
            }
        }
        let ghost before = self@;
        let mut ledger = Metadata::new();
        core::mem::swap(&mut ledger, &mut self.ledger);
        self.ledger = ledger.with_lock(false);
        self.phase = RunPhase::Saving;
        let ghost so_far = commands_view(commands@);
        commands.push(Command::SaveLedger(self.ledger.clone()));
        proof {
            assert(commands_view(commands@) =~= so_far.push(
                CommandView::SaveLedger(ledger_to_save(before)),
            ));
            assert(base + acc + advance_of(before).1 =~= base + (acc + advance_of(before).1));
        }
    }

    /// Takes the run one step: `signal` says what happened, the result says
    /// what to do next; see [`run_step_of`].
    pub fn step(&mut self, signal: Signal) -> (commands: Vec<Command>)
        ensures
            final(self)@ == run_step_of(old(self)@, signal@).0,
            commands_view(commands@) == run_step_of(old(self)@, signal@).1,
    {
        let mut commands: Vec<Command> = Vec::new();
        assert(commands_view(commands@) =~= seq![]);
        match self.phase {
            RunPhase::Installing => {
                let mut current: Option<ToolInstall> = None;
                core::mem::swap(&mut current, &mut self.current);
                match current {
                    Some(mut install) => {
                        let ghost was = install@;
                        let mut issued = install.step(signal);
                        let ghost stepped = commands_view(issued@);
                        let failed = match install.phase() {
                            Phase::Failed(e) => Some(e.clone()),
                            _ => None,
                        };
                        if let Phase::Installed = install.phase() {
                            let name = install.tool().clone();
                            let version = install.version().clone();
                            let mut ledger = Metadata::new();
                            core::mem::swap(&mut ledger, &mut self.ledger);
                            self.ledger = ledger.with_version(name.clone(), version);
                            let ghost kept = texts(self.successes@);
                            self.successes.push(name);
                            assert(texts(self.successes@) =~= kept.push(was.tool));
                            proof {
                                lemma_step_keeps_identity(was, signal@);
                            }
                            self.advance(&mut issued);
                            return issued;
                        } else if let Some(error) = failed {
                            let ghost kept = failures_view(self.failures@);
                            self.failures.push(error);
                            assert(failures_view(self.failures@) =~= kept.push(error@));
                            self.advance(&mut issued);
                            return issued;
                        } else {
                            self.current = Some(install);
                            return issued;
                        }
                    },
                    None => {},
                }
            },
            RunPhase::Saving => {
                match signal {
                    Signal::Saved => {
                        let result = ToolResult {
                            successes: copy_texts(&self.successes),
                            failures: copy_failures(&self.failures),
                            error: None,
                        };
                        commands.push(Command::Emit(Event::UpdateComplete(result)));
                        self.phase = RunPhase::Done(
                            if self.failures.len() == 0 {
                                Outcome::Success
                            } else {
                                Outcome::ToolsFailed
                            },
                        );
                        assert(commands_view(commands@) =~= run_step_of(old(self)@, signal@).1);
                    },
                    Signal::SaveFailed { message } => {
                        let result = ToolResult {
                            successes: copy_texts(&self.successes),
                            failures: copy_failures(&self.failures),
                            error: Some(String::from_str(message)),
                        };
                        commands.push(Command::Emit(Event::UpdateComplete(result)));
                        self.phase = RunPhase::Done(Outcome::LedgerWrite(String::from_str(message)));
                        assert(commands_view(commands@) =~= run_step_of(old(self)@, signal@).1);
                    },
                    _ => {},
                }
            },
            RunPhase::Done(_) => {},
        }
        commands
    }

    /// The phase in which the run rests.
    pub fn phase(&self) -> (phase: &RunPhase)
        ensures
            phase@ == self@.phase,
    {
        &self.phase
    }

    /// Whether the run is over.
    pub fn is_over(&self) -> (over: bool)
        ensures
            over == self@.phase is Done,
    {
        match self.phase {
            RunPhase::Done(_) => true,
            _ => false,
        }
    }

    /// How the run ended, once it is over.
    pub fn outcome(&self) -> (outcome: Option<&Outcome>)
        ensures
            match outcome {
                Some(o) => self@.phase == RunPhaseView::Done(o@),
                None => !(self@.phase is Done),
            },
    {
        match &self.phase {
            RunPhase::Done(o) => Some(o),
            _ => None,
        }
    }

    /// The ledger as it stands in memory.
    pub fn ledger(&self) -> (ledger: &Metadata)
        ensures
            ledger@ == self@.ledger,
    {
        &self.ledger
    }

    /// The tools installed so far, in the plan's order.
    pub fn successes(&self) -> (names: &Vec<String>)
        ensures
            texts(names@) == self@.successes,
    {
        &self.successes
    }

    /// The tools that failed so far, in the plan's order.
    pub fn failures(&self) -> (errors: &Vec<ToolError>)
        ensures
            failures_view(errors@) == self@.failures,
    {
        &self.failures
    }
}

/// A step of a pipeline changes neither the tool nor the version that it
/// installs.
pub proof fn lemma_step_keeps_identity(s: InstallView, signal: SignalView)
    ensures
        step_of(s, signal).0.tool == s.tool,
        step_of(s, signal).0.version == s.version,
{
}

} // verus!
