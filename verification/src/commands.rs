//! The language between the installer and its driver: the commands that the
//! installer issues, and the signals with which the driver answers.

use crate::events::{Event, EventView};
use crate::extract::ArchiveKind;
use crate::metadata::{LedgerView, Metadata};
use crate::text::text_opt;
use vstd::prelude::*;

verus! {

/// One piece of outside work, or one event to publish. A list of commands is
/// carried out in order; whether a failure ends the list is said with each
/// signal.
#[derive(Debug)]
pub enum Command {
    /// Publish the event to the listeners.
    Emit(Event),
    /// Open `url` and write its body to the file `temp`, replacing it.
    Fetch { url: String, temp: String },
    /// Write the embedded binary of `tool` to the file `temp`, replacing it,
    /// in chunks and no faster than the release rate allows.
    Release { tool: String, temp: String },
    /// Delete the file `path`. Unless `required`, a failure is ignored.
    Remove { path: String, required: bool },
    /// Rename the file `from` to `to`.
    Rename { from: String, to: String },
    /// Extract one entry of the archive, `entry` or the format's default, to
    /// the canonical path. `into` is the directory that holds the archive.
    ExtractEntry {
        kind: ArchiveKind,
        tool: String,
        archive: String,
        into: String,
        canonical: String,
        entry: Option<String>,
    },
    /// Unpack the folder of a bundle archive, `folder_name` or the one named
    /// after the archive, into a scratch folder under `into`, and rename the
    /// bundle's main file, `main_entry`, if `rename_entry_to` is set.
    ExtractBundle {
        kind: ArchiveKind,
        archive: String,
        into: String,
        folder_name: Option<String>,
        main_entry: String,
        rename_entry_to: Option<String>,
    },
    /// Hoist the scratch folder that the unpacking before made into the
    /// directory of the canonical path.
    HoistBundle { canonical: String },
    /// Give the file an execute permission if it has none.
    MakeExecutable { path: String },
    /// Look whether the file `path` exists.
    Probe { path: String },
    /// Write the ledger to disk, replacing the whole file.
    SaveLedger(Metadata),
}

/// Mathematical value of a [`Command`].
pub enum CommandView {
    Emit(EventView),
    Fetch { url: Seq<char>, temp: Seq<char> },
    Release { tool: Seq<char>, temp: Seq<char> },
    Remove { path: Seq<char>, required: bool },
    Rename { from: Seq<char>, to: Seq<char> },
    ExtractEntry {
        kind: ArchiveKind,
        tool: Seq<char>,
        archive: Seq<char>,
        into: Seq<char>,
        canonical: Seq<char>,
        entry: Option<Seq<char>>,
    },
    ExtractBundle {
        kind: ArchiveKind,
        archive: Seq<char>,
        into: Seq<char>,
        folder_name: Option<Seq<char>>,
        main_entry: Seq<char>,
        rename_entry_to: Option<Seq<char>>,
    },
    HoistBundle { canonical: Seq<char> },
    MakeExecutable { path: Seq<char> },
    Probe { path: Seq<char> },
    SaveLedger(LedgerView),
}

impl View for Command {
    type V = CommandView;

    open spec fn view(&self) -> CommandView {
        match self {
            Command::Emit(e) => CommandView::Emit(e@),
            Command::Fetch { url, temp } => CommandView::Fetch { url: url@, temp: temp@ },
            Command::Release { tool, temp } => CommandView::Release { tool: tool@, temp: temp@ },
            Command::Remove { path, required } => CommandView::Remove {
                path: path@,
                required: *required,
            },
            Command::Rename { from, to } => CommandView::Rename { from: from@, to: to@ },
            Command::ExtractEntry { kind, tool, archive, into, canonical, entry } => {
                CommandView::ExtractEntry {
                    kind: *kind,
                    tool: tool@,
                    archive: archive@,
                    into: into@,
                    canonical: canonical@,
                    entry: text_opt(*entry),
                }
            },
            Command::ExtractBundle {
                kind,
                archive,
                into,
                folder_name,
                main_entry,
                rename_entry_to,
            } => {
                CommandView::ExtractBundle {
                    kind: *kind,
                    archive: archive@,
                    into: into@,
                    folder_name: text_opt(*folder_name),
                    main_entry: main_entry@,
                    rename_entry_to: text_opt(*rename_entry_to),
                }
            },
            Command::HoistBundle { canonical } => CommandView::HoistBundle { canonical: canonical@ },
            Command::MakeExecutable { path } => CommandView::MakeExecutable { path: path@ },
            Command::Probe { path } => CommandView::Probe { path: path@ },
            Command::SaveLedger(ledger) => CommandView::SaveLedger(ledger@),
        }
    }
}

/// Whether a command installs a payload: moves it into place, unpacks it,
/// or touches the canonical file.
pub open spec fn installs(c: CommandView) -> bool {
    c is Rename || c is ExtractEntry || c is ExtractBundle || c is HoistBundle || c is MakeExecutable
}

/// Whether a command removes the file `path`.
pub open spec fn removes(c: CommandView, path: Seq<char>) -> bool {
    c matches CommandView::Remove { path: removed, .. } && removed == path
}

/// Whether a command is a step of an installation: it installs a payload,
/// or removes the archive that was unpacked. Such a step may fail, and then
/// the steps after it are not carried out.
pub open spec fn install_step(c: CommandView) -> bool {
    installs(c) || c matches CommandView::Remove { required: true, .. }
}

impl Command {
    /// Whether this command is a step of an installation; see
    /// [`install_step`].
    pub fn is_install_step(&self) -> (yes: bool)
        ensures
            yes == install_step(self@),
    {
        match self {
            Command::Rename { .. } => true,
            Command::ExtractEntry { .. } => true,
            Command::ExtractBundle { .. } => true,
            Command::HoistBundle { .. } => true,
            Command::MakeExecutable { .. } => true,
            Command::Remove { required, .. } => *required,
            _ => false,
        }
    }
}

/// The views of a list of commands.
pub open spec fn commands_view(list: Seq<Command>) -> Seq<CommandView> {
    list.map_values(|c: Command| c@)
}

/// What the driver reports back to the machine.
#[derive(Debug, Clone, Copy)]
pub enum Signal<'a> {
    /// The source answered the `Fetch`, or the embedded binary was found;
    /// `total` is the size it announced, 0 if it announced none.
    Opened { total: u64 },
    /// The next chunk of the payload was written to the temporary file.
    Chunk(&'a [u8]),
    /// The payload is complete and on disk.
    Completed,
    /// The source has no payload to give, so there is nothing to verify:
    /// the build embeds no binary of the tool.
    NoData,
    /// The attempt failed: the source refused, or the payload could not be
    /// read or written.
    Failed,
    /// The attempt ran out of time.
    TimedOut,
    /// Every command since the payload was complete has succeeded.
    Installed,
    /// One of the commands since the payload was complete has failed; the
    /// commands after it were not carried out.
    InstallFailed,
    /// The answer to a `Probe`.
    Probed { exists: bool },
    /// The ledger is on disk.
    Saved,
    /// The ledger could not be written; `message` says why.
    SaveFailed { message: &'a str },
}

/// Mathematical value of a [`Signal`].
pub enum SignalView {
    Opened { total: u64 },
    Chunk(Seq<u8>),
    Completed,
    NoData,
    Failed,
    TimedOut,
    Installed,
    InstallFailed,
    Probed { exists: bool },
    Saved,
    SaveFailed { message: Seq<char> },
}

impl<'a> View for Signal<'a> {
    type V = SignalView;

    open spec fn view(&self) -> SignalView {
        match self {
            Signal::Opened { total } => SignalView::Opened { total: *total },
            Signal::Chunk(bytes) => SignalView::Chunk(bytes@),
            Signal::Completed => SignalView::Completed,
            Signal::NoData => SignalView::NoData,
            Signal::Failed => SignalView::Failed,
            Signal::TimedOut => SignalView::TimedOut,
            Signal::Installed => SignalView::Installed,
            Signal::InstallFailed => SignalView::InstallFailed,
            Signal::Probed { exists } => SignalView::Probed { exists: *exists },
            Signal::Saved => SignalView::Saved,
            Signal::SaveFailed { message } => SignalView::SaveFailed { message: message@ },
        }
    }
}

} // verus!
