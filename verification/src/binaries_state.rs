//! The single-flight guard around install runs, and the plain results that
//! the read-only operations hand to the host.

use crate::text::texts;
use vstd::prelude::*;

verus! {

/// Single-flight guard: at most one install run holds it at a time. A caller
/// that finds it held does nothing and reports success; it neither waits nor
/// fails. The guard takes `&mut self`, so whoever shares it between callers
/// has to serialise access, which makes each call one atomic test-and-set.
#[derive(Debug)]
pub struct BinariesState {
    running: bool,
}

/// What one attempt to take the guard does to a guard that is held
/// (`running`) or free: whether the attempt is granted, and that the guard is
/// held afterwards either way.
pub open spec fn try_start_outcome(running: bool) -> (bool, bool) {
    (!running, true)
}

impl View for BinariesState {
    type V = bool;

    /// Whether a run holds the guard.
    closed spec fn view(&self) -> bool {
        self.running
    }
}

impl BinariesState {
    /// A free guard.
    pub fn new() -> (state: Self)
        ensures
            !state@,
    {
        BinariesState { running: false }
    }

    /// Takes the guard if it is free. Returns whether this caller now holds it.
    pub fn try_start(&mut self) -> (started: bool)
        ensures
            (started, final(self)@) == try_start_outcome(old(self)@),
    {
        let started = !self.running;
        self.running = true;
        started
    }

    /// Releases the guard, whoever holds it.
    pub fn finish(&mut self)
        ensures
            !final(self)@,
    {
        self.running = false;
    }
}

impl Default for BinariesState {
    fn default() -> (state: Self)
        ensures
            !state@,
    {
        BinariesState::new()
    }
}

/// Of two attempts to take the guard with no release between them, the second
/// is refused, whatever the guard's state before the first; and once the
/// guard is released, the next attempt is granted.
pub proof fn single_flight(running: bool)
    ensures
        !try_start_outcome(try_start_outcome(running).1).0,
        try_start_outcome(false).0,
{
}

/// Result of the read-only check.
#[derive(Debug, PartialEq, Eq)]
pub struct CheckResult {
    /// Names of the tools that an install run would install now.
    pub tools: Vec<String>,
    /// Names of all tools that the manifest offers for this platform.
    pub all_tools: Vec<String>,
}

/// Mathematical value of a [`CheckResult`].
pub struct CheckView {
    pub tools: Seq<Seq<char>>,
    pub all_tools: Seq<Seq<char>>,
}

impl View for CheckResult {
    type V = CheckView;

    open spec fn view(&self) -> CheckView {
        CheckView { tools: texts(self.tools@), all_tools: texts(self.all_tools@) }
    }
}

/// One line of the helper list: a tool, the version the manifest pins, and
/// whether exactly that version is installed.
#[derive(Debug, PartialEq, Eq)]
pub struct HelperToolStatus {
    pub name: String,
    pub version: String,
    pub installed: bool,
}

/// Mathematical value of a [`HelperToolStatus`].
pub struct StatusView {
    pub name: Seq<char>,
    pub version: Seq<char>,
    pub installed: bool,
}

impl View for HelperToolStatus {
    type V = StatusView;

    open spec fn view(&self) -> StatusView {
        StatusView { name: self.name@, version: self.version@, installed: self.installed }
    }
}

/// What a user needs to install a tool by hand: where to download it and the
/// directory to put it in.
#[derive(Debug, PartialEq, Eq)]
pub struct ManualToolInfo {
    pub url: String,
    pub bin_dir: String,
}

/// Mathematical value of a [`ManualToolInfo`].
pub struct ManualView {
    pub url: Seq<char>,
    pub bin_dir: Seq<char>,
}

impl View for ManualToolInfo {
    type V = ManualView;

    open spec fn view(&self) -> ManualView {
        ManualView { url: self.url@, bin_dir: self.bin_dir@ }
    }
}

} // verus!
