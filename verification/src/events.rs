//! What an install run reports: the stage at which a tool failed, the
//! lifecycle events for listeners, and the result of the whole run.

use crate::text::{copy_text_opt, text_opt, texts};
use vstd::prelude::*;

verus! {

/// Where in its pipeline a tool failed.
#[derive(Clone, Copy, PartialEq, Eq, Debug)]
pub enum Stage {
    /// The manifest has no file of the tool for the platform.
    SelectFile,
    /// The file's URL names no file.
    ParseFilename,
    /// Every download candidate failed, or the payload's digest was wrong.
    DownloadVerify,
    /// Releasing the embedded payload failed, or its digest was wrong.
    ReleaseVerify,
    /// The canonical path could not be computed. The installer's own
    /// computation of the path cannot fail; the stage is part of the
    /// vocabulary for hosts whose computation can.
    CanonicalPath,
    /// The canonical file is missing after the installation.
    PostInstallCheck,
}

/// The stage's name in reports.
pub open spec fn stage_label(stage: Stage) -> Seq<char> {
    match stage {
        Stage::SelectFile => "select_file"@,
        Stage::ParseFilename => "parse_filename"@,
        Stage::DownloadVerify => "download_verify"@,
        Stage::ReleaseVerify => "release_verify"@,
        Stage::CanonicalPath => "canonical_path"@,
        Stage::PostInstallCheck => "post_install_check"@,
    }
}

impl Stage {
    /// The stage's name in reports.
    pub fn label(&self) -> (name: &'static str)
        ensures
            name@ == stage_label(*self),
    {
        match self {
            Stage::SelectFile => "select_file",
            Stage::ParseFilename => "parse_filename",
            Stage::DownloadVerify => "download_verify",
            Stage::ReleaseVerify => "release_verify",
            Stage::CanonicalPath => "canonical_path",
            Stage::PostInstallCheck => "post_install_check",
        }
    }
}

/// The failure of one tool. It never ends the run: the remaining tools are
/// still installed.
#[derive(Debug, PartialEq, Eq)]
pub struct ToolError {
    pub tool: String,
    pub version: String,
    pub stage: Stage,
    pub error: String,
}

/// Mathematical value of a [`ToolError`].
pub struct ToolErrorView {
    pub tool: Seq<char>,
    pub version: Seq<char>,
    pub stage: Stage,
    pub error: Seq<char>,
}

impl View for ToolError {
    type V = ToolErrorView;

    open spec fn view(&self) -> ToolErrorView {
        ToolErrorView {
            tool: self.tool@,
            version: self.version@,
            stage: self.stage,
            error: self.error@,
        }
    }
}

impl Clone for ToolError {
    fn clone(&self) -> (out: Self)
        ensures
            out@ == self@,
    {
        ToolError {
            tool: self.tool.clone(),
            version: self.version.clone(),
            stage: self.stage,
            error: self.error.clone(),
        }
    }
}

/// The views of a list of tool failures.
pub open spec fn failures_view(list: Seq<ToolError>) -> Seq<ToolErrorView> {
    list.map_values(|e: ToolError| e@)
}

/// A copy of a list of texts.
pub fn copy_texts(list: &Vec<String>) -> (out: Vec<String>)
    ensures
        texts(out@) == texts(list@),
{
    let mut out: Vec<String> = Vec::new();
    let mut i: usize = 0;
    while i < list.len()
        invariant
            i <= list.len(),
            out@.len() == i,
            forall|j: int| 0 <= j < i ==> (#[trigger] out@[j])@ == list@[j]@,
        decreases list.len() - i,
    {
        out.push(list[i].clone());
        i = i + 1;
    }
    assert(texts(out@) =~= texts(list@));
    out
}

/// A copy of a list of tool failures.
pub fn copy_failures(list: &Vec<ToolError>) -> (out: Vec<ToolError>)
    ensures
        failures_view(out@) == failures_view(list@),
{
    let mut out: Vec<ToolError> = Vec::new();
    let mut i: usize = 0;
    while i < list.len()
        invariant
            i <= list.len(),
            out@.len() == i,
            forall|j: int| 0 <= j < i ==> (#[trigger] out@[j])@ == list@[j]@,
        decreases list.len() - i,
    {
        out.push(list[i].clone());
        i = i + 1;
    }
    assert(failures_view(out@) =~= failures_view(list@));
    out
}

/// The result of a whole run.
#[derive(Debug, PartialEq, Eq)]
pub struct ToolResult {
    /// The tools that were installed, in the order of the plan.
    pub successes: Vec<String>,
    /// The tools that failed, in the order of the plan.
    pub failures: Vec<ToolError>,
    /// Set only when writing the ledger itself failed.
    pub error: Option<String>,
}

/// Mathematical value of a [`ToolResult`].
pub struct ToolResultView {
    pub successes: Seq<Seq<char>>,
    pub failures: Seq<ToolErrorView>,
    pub error: Option<Seq<char>>,
}

impl View for ToolResult {
    type V = ToolResultView;

    open spec fn view(&self) -> ToolResultView {
        ToolResultView {
            successes: texts(self.successes@),
            failures: failures_view(self.failures@),
            error: text_opt(self.error),
        }
    }
}

impl Clone for ToolResult {
    fn clone(&self) -> (out: Self)
        ensures
            out@ == self@,
    {
        ToolResult {
            successes: copy_texts(&self.successes),
            failures: copy_failures(&self.failures),
            error: copy_text_opt(&self.error),
        }
    }
}

/// A lifecycle event. Per tool the events come in the order start, any
/// number of progress reports, then complete or error; a run that did any
/// work ends with one update-complete event.
#[derive(Debug, PartialEq, Eq)]
pub enum Event {
    /// The installation of a tool begins.
    DownloadStart { tool: String, version: String },
    /// Payload bytes arrived: `received` of `total`, where a `total` of 0
    /// means that the size is not known.
    DownloadProgress { tool: String, total: u64, received: u64 },
    /// The tool is installed.
    DownloadComplete { tool: String },
    /// The tool failed.
    DownloadError(ToolError),
    /// The run is over.
    UpdateComplete(ToolResult),
}

/// Mathematical value of an [`Event`].
pub enum EventView {
    DownloadStart { tool: Seq<char>, version: Seq<char> },
    DownloadProgress { tool: Seq<char>, total: u64, received: u64 },
    DownloadComplete { tool: Seq<char> },
    DownloadError(ToolErrorView),
    UpdateComplete(ToolResultView),
}

impl View for Event {
    type V = EventView;

    open spec fn view(&self) -> EventView {
        match self {
            Event::DownloadStart { tool, version } => EventView::DownloadStart {
                tool: tool@,
                version: version@,
            },
            Event::DownloadProgress { tool, total, received } => EventView::DownloadProgress {
                tool: tool@,
                total: *total,
                received: *received,
            },
            Event::DownloadComplete { tool } => EventView::DownloadComplete { tool: tool@ },
            Event::DownloadError(e) => EventView::DownloadError(e@),
            Event::UpdateComplete(r) => EventView::UpdateComplete(r@),
        }
    }
}

/// The name of an event's kind.
pub open spec fn event_name(event: EventView) -> Seq<char> {
    match event {
        EventView::DownloadStart { .. } => "download_start"@,
        EventView::DownloadProgress { .. } => "download_progress"@,
        EventView::DownloadComplete { .. } => "download_complete"@,
        EventView::DownloadError(_) => "download_error"@,
        EventView::UpdateComplete(_) => "update_complete"@,
    }
}

impl Event {
    /// The name of this event's kind. A host names the channel on which it
    /// publishes the event after it.
    pub fn name(&self) -> (name: &'static str)
        ensures
            name@ == event_name(self@),
    {
        match self {
            Event::DownloadStart { .. } => "download_start",
            Event::DownloadProgress { .. } => "download_progress",
            Event::DownloadComplete { .. } => "download_complete",
            Event::DownloadError(_) => "download_error",
            Event::UpdateComplete(_) => "update_complete",
        }
    }
}

} // verus!
