//! The pipeline of one tool, as a state machine. The machine decides; a
//! driver outside does the work. It hands the machine a [`Signal`] for what
//! happened and gets back the [`Command`]s to carry out next, in order.
//!
//! A tool passes through selecting its file, acquiring the payload,
//! verifying it, extracting it and checking the canonical file. Selecting
//! happens in [`ToolInstall::begin`] and verifying when the payload is
//! complete, so the machine rests only in the phases of [`Phase`].

use crate::commands::{
    commands_view, install_step, installs, removes, Command, CommandView, Signal, SignalView,
};
use crate::digest::{counted, digest_hex, DigestStream};
use crate::events::{Event, EventView, Stage, ToolError, ToolErrorView};
use crate::extract::{
    archive_kind, archive_kind_of, file_name_of_url, join_path, path_in, temp_name, temp_name_of,
    url_file_name, ArchiveKind,
};
use crate::manifest::{FileInfo, FileView, ToolInfo, ToolView};
use crate::platform::{select_file, select_file_spec};
use crate::site::{canonical_of, sources, Site, SiteView, Strategy, StrategyView};
use crate::text::{copy_text_opt, join2, texts};
use crate::urls::download_urls;
use vstd::prelude::*;

verus! {

/// Message of a tool without a file for the platform.
pub const NO_COMPATIBLE_FILE: &'static str = "no compatible file for current platform";

/// Message of a file whose URL names no file.
pub const MISSING_FILE_NAME: &'static str = "missing file name in URL";

/// Start of the message of a tool whose canonical file is missing after the
/// installation; the canonical path follows.
pub const CANONICAL_MISSING: &'static str = "canonical binary missing after install: ";

/// Start of the manual-installation instruction, "every way to download
/// failed; do by hand: 1. open in the browser:"; the direct URL follows.
pub const MANUAL_OPEN: &'static str = "所有下载方式均失败。\n\n请手动操作：\n1. 在浏览器中打开：";

/// Second part of the manual-installation instruction, "2. after the
/// download unpack it, and put"; the canonical path follows.
pub const MANUAL_PLACE: &'static str = "\n2. 下载后解压，将 ";

/// Third part of the manual-installation instruction, "into the
/// directory:"; the installation directory follows.
pub const MANUAL_DIRECTORY: &'static str = " 放到目录：\n";

/// The instruction for installing a tool by hand: the direct URL, the
/// canonical path and the installation directory.
pub open spec fn manual_message(url: Seq<char>, canonical: Seq<char>, bin_dir: Seq<char>) -> Seq<
    char,
> {
    MANUAL_OPEN@ + url + MANUAL_PLACE@ + canonical + MANUAL_DIRECTORY@ + bin_dir
}

/// Where a tool's pipeline rests between two signals.
#[derive(Debug, PartialEq, Eq)]
pub enum Phase {
    /// The payload is being acquired.
    Acquiring,
    /// The verified payload is being installed.
    Extracting,
    /// The canonical file is being looked for.
    Canonicalizing,
    /// The tool is installed. Final.
    Installed,
    /// The tool failed. Final.
    Failed(ToolError),
}

/// Mathematical value of a [`Phase`].
pub enum PhaseView {
    Acquiring,
    Extracting,
    Canonicalizing,
    Installed,
    Failed(ToolErrorView),
}

impl View for Phase {
    type V = PhaseView;

    open spec fn view(&self) -> PhaseView {
        match self {
            Phase::Acquiring => PhaseView::Acquiring,
            Phase::Extracting => PhaseView::Extracting,
            Phase::Canonicalizing => PhaseView::Canonicalizing,
            Phase::Installed => PhaseView::Installed,
            Phase::Failed(e) => PhaseView::Failed(e@),
        }
    }
}

/// The stage at which a tool fails when its payload cannot be acquired.
pub open spec fn acquire_stage(embedded: bool) -> Stage {
    if embedded {
        Stage::ReleaseVerify
    } else {
        Stage::DownloadVerify
    }
}

/// The command that acquires the payload of the attempt in which `s` is.
pub open spec fn acquire(s: InstallView) -> CommandView {
    if s.embedded {
        CommandView::Release { tool: s.tool, temp: s.temp }
    } else {
        CommandView::Fetch { url: s.candidates[s.attempt], temp: s.temp }
    }
}

/// The pipeline of one tool.
pub struct ToolInstall {
    tool: String,
    version: String,
    file: FileInfo,
    bin_dir: String,
    file_name: String,
    dest: String,
    temp: String,
    canonical: String,
    posix: bool,
    embedded: bool,
    candidates: Vec<String>,
    attempt: usize,
    total: u64,
    stream: DigestStream,
    phase: Phase,
}

/// Mathematical value of a [`ToolInstall`].
pub struct InstallView {
    pub tool: Seq<char>,
    pub version: Seq<char>,
    /// The file chosen for the platform.
    pub file: FileView,
    pub bin_dir: Seq<char>,
    /// The payload's file name, taken from the URL.
    pub file_name: Seq<char>,
    /// Where the verified payload is put.
    pub dest: Seq<char>,
    /// Where the payload is written while it arrives.
    pub temp: Seq<char>,
    pub canonical: Seq<char>,
    pub posix: bool,
    /// Whether the payload is released from the build, not downloaded.
    pub embedded: bool,
    /// The URLs to try, in order.
    pub candidates: Seq<Seq<char>>,
    /// Index of the candidate of the current attempt.
    pub attempt: int,
    /// Announced size of the payload of the current attempt, 0 if unknown.
    pub total: u64,
    /// Bytes of the current attempt counted so far.
    pub received: u64,
    /// The payload of the current attempt so far.
    pub payload: Seq<u8>,
    pub phase: PhaseView,
}

impl View for ToolInstall {
    type V = InstallView;

    closed spec fn view(&self) -> InstallView {
        InstallView {
            tool: self.tool@,
            version: self.version@,
            file: self.file@,
            bin_dir: self.bin_dir@,
            file_name: self.file_name@,
            dest: self.dest@,
            temp: self.temp@,
            canonical: self.canonical@,
            posix: self.posix,
            embedded: self.embedded,
            candidates: texts(self.candidates@),
            attempt: self.attempt as int,
            total: self.total,
            received: self.stream.count(),
            payload: self.stream.payload(),
            phase: self.phase@,
        }
    }
}

/// The failure of `tool` at `stage`.
pub open spec fn failure(
    tool: Seq<char>,
    version: Seq<char>,
    stage: Stage,
    error: Seq<char>,
) -> ToolErrorView {
    ToolErrorView { tool, version, stage, error }
}

/// The commands that install the verified payload: move it to its place,
/// turn it into the canonical file according to its archive family, and
/// make the result executable where files have POSIX permissions.
pub open spec fn install_script(s: InstallView) -> Seq<CommandView> {
    let place = seq![CommandView::Rename { from: s.temp, to: s.dest }];
    let unpack = match archive_kind_of(s.file_name) {
        ArchiveKind::Raw => seq![CommandView::Rename { from: s.dest, to: s.canonical }],
        kind => match s.file.bundle {
            None => seq![
                CommandView::ExtractEntry {
                    kind,
                    tool: s.tool,
                    archive: s.dest,
                    into: s.bin_dir,
                    canonical: s.canonical,
                    entry: s.file.entry,
                },
                CommandView::Remove { path: s.dest, required: true },
            ],
            Some(b) => seq![
                CommandView::ExtractBundle {
                    kind,
                    archive: s.dest,
                    into: s.bin_dir,
                    folder_name: b.folder_name,
                    main_entry: b.entry,
                    rename_entry_to: b.rename_entry_to,
                },
                CommandView::Remove { path: s.dest, required: true },
                CommandView::HoistBundle { canonical: s.canonical },
            ],
        },
    };
    let permit = if s.posix {
        seq![CommandView::MakeExecutable { path: s.canonical }]
    } else {
        seq![]
    };
    place + unpack + permit
}

/// The commands that remove what a failed attempt left behind. While the
/// payload is being acquired the attempt has written the temporary file and
/// nothing else, so that file alone is removed. Once the installation has
/// begun, the payload and the canonical file are removed too, so that no
/// partial file stays under that name.
pub open spec fn cleanup(s: InstallView) -> Seq<CommandView> {
    let temporary = seq![CommandView::Remove { path: s.temp, required: false }];
    if s.phase is Extracting {
        temporary + seq![
            CommandView::Remove { path: s.dest, required: false },
            CommandView::Remove { path: s.canonical, required: false },
        ]
    } else {
        temporary
    }
}

/// The state in which the attempt on candidate `k` starts.
pub open spec fn attempting(s: InstallView, k: int) -> InstallView {
    InstallView {
        attempt: k,
        total: 0,
        received: 0,
        payload: Seq::empty(),
        phase: PhaseView::Acquiring,
        ..s
    }
}

/// The state and the commands after the current attempt has failed: the
/// next candidate is fetched; when none is left the tool fails for good,
/// with the instruction for installing it by hand.
pub open spec fn after_failure(s: InstallView) -> (InstallView, Seq<CommandView>) {
    if s.attempt + 1 < s.candidates.len() {
        (
            attempting(s, s.attempt + 1),
            seq![CommandView::Fetch { url: s.candidates[s.attempt + 1], temp: s.temp }],
        )
    } else {
        let error = failure(
            s.tool,
            s.version,
            acquire_stage(s.embedded),
            manual_message(s.file.url, s.canonical, s.bin_dir),
        );
        (
            InstallView {
                total: 0,
                received: 0,
                payload: Seq::empty(),
                phase: PhaseView::Failed(error),
                ..s
            },
            seq![CommandView::Emit(EventView::DownloadError(error))],
        )
    }
}

/// The state and the commands after the current attempt has failed and its
/// leftovers are to be removed first.
pub open spec fn abandon(s: InstallView) -> (InstallView, Seq<CommandView>) {
    (after_failure(s).0, cleanup(s) + after_failure(s).1)
}

/// The transition of the machine: the state after `signal` and the commands
/// to carry out. A signal that the phase does not expect changes nothing.
pub open spec fn step_of(s: InstallView, signal: SignalView) -> (InstallView, Seq<CommandView>) {
    match (s.phase, signal) {
        (PhaseView::Acquiring, SignalView::Opened { total }) => (InstallView { total, ..s }, seq![]),
        (PhaseView::Acquiring, SignalView::Chunk(bytes)) => {
            let received = counted(s.received, bytes.len());
            (
                InstallView { received, payload: s.payload + bytes, ..s },
                seq![
                    CommandView::Emit(
                        EventView::DownloadProgress { tool: s.tool, total: s.total, received },
                    ),
                ],
            )
        },
        (PhaseView::Acquiring, SignalView::Completed) => {
            if digest_hex(s.payload) == s.file.sha256 {
                (
                    InstallView {
                        received: 0,
                        payload: Seq::empty(),
                        phase: PhaseView::Extracting,
                        ..s
                    },
                    install_script(s),
                )
            } else {
                abandon(s)
            }
        },
        (PhaseView::Acquiring, SignalView::NoData) => abandon(s),
        (PhaseView::Acquiring, SignalView::Failed) => abandon(s),
        (PhaseView::Acquiring, SignalView::TimedOut) => abandon(s),
        (PhaseView::Extracting, SignalView::Installed) => (
            InstallView { phase: PhaseView::Canonicalizing, ..s },
            seq![CommandView::Probe { path: s.canonical }],
        ),
        (PhaseView::Extracting, SignalView::InstallFailed) => abandon(s),
        (PhaseView::Extracting, SignalView::TimedOut) => abandon(s),
        (PhaseView::Canonicalizing, SignalView::Probed { exists }) => {
            if exists {
                (
                    InstallView { phase: PhaseView::Installed, ..s },
                    seq![CommandView::Emit(EventView::DownloadComplete { tool: s.tool })],
                )
            } else {
                let error = failure(
                    s.tool,
                    s.version,
                    Stage::PostInstallCheck,
                    CANONICAL_MISSING@ + s.canonical,
                );
                (
                    InstallView { phase: PhaseView::Failed(error), ..s },
                    seq![CommandView::Emit(EventView::DownloadError(error))],
                )
            }
        },
        _ => (s, seq![]),
    }
}

/// Whether the temporary file and the archive of a pipeline lie apart from
/// the canonical file. They do unless the tool is named like the temporary
/// file, or like the archive that it comes in; see [`paths_lie_apart`].
pub open spec fn lies_apart(s: InstallView) -> bool {
    s.temp != s.canonical && (archive_kind_of(s.file_name) is Raw || s.dest != s.canonical)
}

/// The integrity gate. Whatever the state and the signal: commands that
/// install a payload are issued only when the payload is complete and its
/// digest is the one that the manifest expects, and there is no other way
/// into the extracting phase. A complete payload with another digest has its
/// temporary file removed first, and goes no further. And while the payload
/// is being acquired nothing removes the canonical file, whatever happens:
/// an attempt that fails before the installation leaves the tool that is
/// installed as it is.
pub proof fn integrity_gate(s: InstallView, signal: SignalView)
    ensures
        s.phase is Acquiring && lies_apart(s) ==> forall|i: int|
            0 <= i < step_of(s, signal).1.len() ==> !removes(
                #[trigger] step_of(s, signal).1[i],
                s.canonical,
            ),
        s.phase is Acquiring && !(signal is Completed && digest_hex(s.payload) == s.file.sha256)
            ==> forall|i: int|
            0 <= i < step_of(s, signal).1.len() ==> !removes(
                #[trigger] step_of(s, signal).1[i],
                s.dest,
            ) || s.dest == s.temp,
        (exists|i: int|
            0 <= i < step_of(s, signal).1.len() && installs(#[trigger] step_of(s, signal).1[i]))
            ==> s.phase is Acquiring && signal is Completed && digest_hex(s.payload)
            == s.file.sha256,
        step_of(s, signal).0.phase is Extracting && !(s.phase is Extracting) ==> signal is Completed
            && digest_hex(s.payload) == s.file.sha256,
        s.phase is Acquiring && signal is Completed && digest_hex(s.payload) != s.file.sha256 ==> {
            &&& step_of(s, signal).1.len() > 0
            &&& step_of(s, signal).1[0] == CommandView::Remove { path: s.temp, required: false }
            &&& !(step_of(s, signal).0.phase is Extracting)
        },
{
    let abandoned = abandon(s).1;
    assert forall|i: int| 0 <= i < abandoned.len() implies !installs(#[trigger] abandoned[i]) by {
        let swept = cleanup(s);
        if i < swept.len() {
            assert(abandoned[i] == swept[i]);
        } else {
            assert(abandoned[i] == after_failure(s).1[i - swept.len()]);
        }
    }
}

/// The name of the canonical file of a tool.
pub open spec fn canonical_name(site: SiteView, tool: Seq<char>) -> Seq<char> {
    if site.windows {
        tool + ".exe"@
    } else {
        tool
    }
}

/// Two names in one directory have the same path only if they are the same
/// name.
pub proof fn lemma_path_in_tells_names(dir: Seq<char>, a: Seq<char>, b: Seq<char>)
    ensures
        path_in(dir, a) == path_in(dir, b) <==> a == b,
{
    if path_in(dir, a) == path_in(dir, b) {
        let head = dir + "/"@;
        assert(path_in(dir, a).skip(head.len() as int) =~= a);
        assert(path_in(dir, b).skip(head.len() as int) =~= b);
    }
}

/// Where the files of a pipeline lie. In a pipeline that has begun, the
/// temporary file is the canonical file only if the tool is named like the
/// temporary file, and the payload is the canonical file only if the tool is
/// named like the payload. No step moves any of them.
pub proof fn paths_lie_apart(
    site: SiteView,
    name: Seq<char>,
    tool: ToolView,
    strategy: StrategyView,
    signal: SignalView,
)
    requires
        begin_of(site, name, tool, strategy).0 is Ok,
    ensures
        ({
            let s = begin_of(site, name, tool, strategy).0->Ok_0;
            &&& s.temp == s.canonical <==> temp_name_of(s.file_name) == canonical_name(site, name)
            &&& s.dest == s.canonical <==> s.file_name == canonical_name(site, name)
            &&& lies_apart(step_of(s, signal).0) == lies_apart(s)
        }),
{
    let s = begin_of(site, name, tool, strategy).0->Ok_0;
    lemma_path_in_tells_names(site.bin_dir, temp_name_of(s.file_name), canonical_name(site, name));
    lemma_path_in_tells_names(site.bin_dir, s.file_name, canonical_name(site, name));
    lemma_step_keeps_paths(s, signal);
}

/// No step changes the names and paths of a pipeline.
pub proof fn lemma_step_keeps_paths(s: InstallView, signal: SignalView)
    ensures
        step_of(s, signal).0.temp == s.temp,
        step_of(s, signal).0.dest == s.dest,
        step_of(s, signal).0.canonical == s.canonical,
        step_of(s, signal).0.file_name == s.file_name,
        lies_apart(step_of(s, signal).0) == lies_apart(s),
{
}

/// The steps of an installation come alone. The commands of a transition
/// are either all steps of an installation, and then the payload was
/// complete with the expected digest, or none of them is.
pub proof fn install_steps_come_alone(s: InstallView, signal: SignalView)
    ensures
        (s.phase is Acquiring && signal is Completed && digest_hex(s.payload) == s.file.sha256)
            ==> forall|i: int|
            0 <= i < step_of(s, signal).1.len() ==> install_step(#[trigger] step_of(s, signal).1[i]),
        !(s.phase is Acquiring && signal is Completed && digest_hex(s.payload) == s.file.sha256)
            ==> forall|i: int|
            0 <= i < step_of(s, signal).1.len() ==> !install_step(
                #[trigger] step_of(s, signal).1[i],
            ),
{
    let abandoned = abandon(s).1;
    assert forall|i: int| 0 <= i < abandoned.len() implies !install_step(
        #[trigger] abandoned[i],
    ) by {
        let swept = cleanup(s);
        if i < swept.len() {
            assert(abandoned[i] == swept[i]);
        } else {
            assert(abandoned[i] == after_failure(s).1[i - swept.len()]);
        }
    }
}

/// How the pipeline of a tool begins: with its first state, or with the
/// failure of a tool that cannot even be acquired; and the first commands.
pub open spec fn begin_of(
    site: SiteView,
    name: Seq<char>,
    tool: ToolView,
    strategy: StrategyView,
) -> (Result<InstallView, ToolErrorView>, Seq<CommandView>) {
    match select_file_spec(tool.files, site.platform) {
        None => {
            let error = failure(name, tool.version, Stage::SelectFile, NO_COMPATIBLE_FILE@);
            (Err(error), seq![CommandView::Emit(EventView::DownloadError(error))])
        },
        Some(chosen) => match url_file_name(chosen.1.url) {
            None => {
                let error = failure(name, tool.version, Stage::ParseFilename, MISSING_FILE_NAME@);
                (Err(error), seq![CommandView::Emit(EventView::DownloadError(error))])
            },
            Some(file_name) => {
                let first = InstallView {
                    tool: name,
                    version: tool.version,
                    file: chosen.1,
                    bin_dir: site.bin_dir,
                    file_name,
                    dest: path_in(site.bin_dir, file_name),
                    temp: path_in(site.bin_dir, temp_name_of(file_name)),
                    canonical: canonical_of(site, name),
                    posix: !site.windows,
                    embedded: strategy is Embedded,
                    candidates: sources(strategy, chosen.1.url),
                    attempt: 0,
                    total: 0,
                    received: 0,
                    payload: Seq::empty(),
                    phase: PhaseView::Acquiring,
                };
                (
                    Ok(first),
                    seq![
                        CommandView::Emit(
                            EventView::DownloadStart { tool: name, version: tool.version },
                        ),
                        acquire(first),
                    ],
                )
            },
        },
    }
}

/// The view of a pipeline that has begun or was refused.
pub open spec fn begun_view(r: Result<ToolInstall, ToolError>) -> Result<InstallView, ToolErrorView> {
    match r {
        Ok(install) => Ok(install@),
        Err(error) => Err(error@),
    }
}

/// Which signals a phase expects.
#[derive(Clone, Copy)]
enum Rest {
    Acquiring,
    Extracting,
    Canonicalizing,
    Over,
}

/// The failure of a tool at `stage`, and the command that reports it.
pub fn fail_stage(name: &str, version: &str, stage: Stage, message: String) -> (out: (ToolError, Vec<Command>))
    ensures
        out.0@ == failure(name@, version@, stage, message@),
        commands_view(out.1@) == seq![CommandView::Emit(EventView::DownloadError(out.0@))],
{
    let error = ToolError {
        tool: String::from_str(name),
        version: String::from_str(version),
        stage,
        error: message,
    };
    let mut commands: Vec<Command> = Vec::new();
    commands.push(Command::Emit(Event::DownloadError(error.clone())));
    assert(commands_view(commands@) =~= seq![CommandView::Emit(EventView::DownloadError(error@))]);
    (error, commands)
}

impl ToolInstall {
    /// Begins the pipeline of the tool `name`: selects its file for the
    /// platform of `site`, takes the payload's file name from the URL, and
    /// asks for the first candidate to be fetched. A tool without a file for
    /// the platform fails at once, and so does one whose URL names no file.
    pub fn begin(
        site: &Site,
        name: &str,
        tool: &ToolInfo,
        strategy: &Strategy,
    ) -> (out: (Result<ToolInstall, ToolError>, Vec<Command>))
        ensures
            begun_view(out.0) == begin_of(site@, name@, tool@, strategy@).0,
            commands_view(out.1@) == begin_of(site@, name@, tool@, strategy@).1,
    {
        let version = tool.version();
        let file = match select_file(tool, site.platform.as_str()) {
            Some(chosen) => chosen.1,
            None => {
                let failed = fail_stage(
                    name,
                    version.as_str(),
                    Stage::SelectFile,
                    String::from_str(NO_COMPATIBLE_FILE),
                );
                return (Err(failed.0), failed.1);
            },
        };
        let file_name = match file_name_of_url(file.url.as_str()) {
            Some(n) => n,
            None => {
                let failed = fail_stage(
                    name,
                    version.as_str(),
                    Stage::ParseFilename,
                    String::from_str(MISSING_FILE_NAME),
                );
                return (Err(failed.0), failed.1);
            },
        };
        let temp_file = temp_name(file_name);
        let temp = join_path(site.bin_dir.as_str(), temp_file.as_str());
        let mut commands: Vec<Command> = Vec::new();
        commands.push(
            Command::Emit(
                Event::DownloadStart { tool: String::from_str(name), version: version.clone() },
            ),
        );
        let mut urls: Vec<String> = Vec::new();
        assert(texts(urls@) =~= Seq::empty());
        let embedded = match strategy {
            Strategy::Network { use_proxy, custom_proxy } => {
                let custom = match custom_proxy {
                    Some(p) => Some(p.as_str()),
                    None => None,
                };
                urls = download_urls(file.url.as_str(), *use_proxy, custom);
                commands.push(Command::Fetch { url: urls[0].clone(), temp: temp.clone() });
                false
            },
            Strategy::Embedded { .. } => {
                commands.push(
                    Command::Release { tool: String::from_str(name), temp: temp.clone() },
                );
                true
            },
        };
        let install = ToolInstall {
            tool: String::from_str(name),
            version: version.clone(),
            file: file.clone(),
            bin_dir: site.bin_dir.clone(),
            file_name: String::from_str(file_name),
            dest: join_path(site.bin_dir.as_str(), file_name),
            temp,
            canonical: site.canonical_path(name),
            posix: !site.windows,
            embedded,
            candidates: urls,
            attempt: 0,
            total: 0,
            stream: DigestStream::new(),
            phase: Phase::Acquiring,
        };
        assert(commands_view(commands@) =~= begin_of(site@, name@, tool@, strategy@).1);
        (Ok(install), commands)
    }

    /// The tool's name.
    pub fn tool(&self) -> (name: &String)
        ensures
            name@ == self@.tool,
    {
        &self.tool
    }

    /// The version that is being installed.
    pub fn version(&self) -> (version: &String)
        ensures
            version@ == self@.version,
    {
        &self.version
    }

    /// The phase in which the pipeline rests.
    pub fn phase(&self) -> (phase: &Phase)
        ensures
            phase@ == self@.phase,
    {
        &self.phase
    }

    /// Whether the pipeline has come to its end.
    pub fn is_over(&self) -> (over: bool)
        ensures
            over == (self@.phase is Installed || self@.phase is Failed),
    {
        match self.phase {
            Phase::Installed => true,
            Phase::Failed(_) => true,
            _ => false,
        }
    }

    fn resting(&self) -> (rest: Rest)
        ensures
            rest is Acquiring <==> self@.phase is Acquiring,
            rest is Extracting <==> self@.phase is Extracting,
            rest is Canonicalizing <==> self@.phase is Canonicalizing,
            rest is Over <==> (self@.phase is Installed || self@.phase is Failed),
    {
        match self.phase {
            Phase::Acquiring => Rest::Acquiring,
            Phase::Extracting => Rest::Extracting,
            Phase::Canonicalizing => Rest::Canonicalizing,
            Phase::Installed => Rest::Over,
            Phase::Failed(_) => Rest::Over,
        }
    }

    fn install_commands(&self) -> (commands: Vec<Command>)
        ensures
            commands_view(commands@) == install_script(self@),
    {
        let mut commands: Vec<Command> = Vec::new();
        commands.push(Command::Rename { from: self.temp.clone(), to: self.dest.clone() });
        let ghost place = commands_view(commands@);
        assert(place =~= seq![CommandView::Rename { from: self@.temp, to: self@.dest }]);
        let kind = archive_kind(self.file_name.as_str());
        match kind {
            ArchiveKind::Raw => {
                commands.push(
                    Command::Rename { from: self.dest.clone(), to: self.canonical.clone() },
                );
            },
            _ => match &self.file.bundle {
                None => {
                    commands.push(
                        Command::ExtractEntry {
                            kind,
                            tool: self.tool.clone(),
                            archive: self.dest.clone(),
                            into: self.bin_dir.clone(),
                            canonical: self.canonical.clone(),
                            entry: copy_text_opt(&self.file.entry),
                        },
                    );
                    commands.push(Command::Remove { path: self.dest.clone(), required: true });
                },
                Some(b) => {
                    commands.push(
                        Command::ExtractBundle {
                            kind,
                            archive: self.dest.clone(),
                            into: self.bin_dir.clone(),
                            folder_name: copy_text_opt(&b.folder_name),
                            main_entry: b.entry.clone(),
                            rename_entry_to: copy_text_opt(&b.rename_entry_to),
                        },
                    );
                    commands.push(Command::Remove { path: self.dest.clone(), required: true });
                    commands.push(Command::HoistBundle { canonical: self.canonical.clone() });
                },
            },
        }
        if self.posix {
            commands.push(Command::MakeExecutable { path: self.canonical.clone() });
        }
        assert(commands_view(commands@) =~= install_script(self@));
        commands
    }

    fn cleanup_commands(&self) -> (commands: Vec<Command>)
        ensures
            commands_view(commands@) == cleanup(self@),
    {
        let mut commands: Vec<Command> = Vec::new();
        commands.push(Command::Remove { path: self.temp.clone(), required: false });
        if let Phase::Extracting = self.phase {
            commands.push(Command::Remove { path: self.dest.clone(), required: false });
            commands.push(Command::Remove { path: self.canonical.clone(), required: false });
        }
        assert(commands_view(commands@) =~= cleanup(self@));
        commands
    }

    fn after_failure(&mut self, commands: &mut Vec<Command>)
        ensures
            final(self)@ == after_failure(old(self)@).0,
            commands_view(final(commands)@) == commands_view(old(commands)@) + after_failure(
                old(self)@,
            ).1,
    {
        let ghost before = commands_view(commands@);
        let _ = self.stream.finish();
        self.total = 0;
        if self.candidates.len() > 0 && self.attempt < self.candidates.len() - 1 {
            self.attempt = self.attempt + 1;
            self.phase = Phase::Acquiring;
            commands.push(
                Command::Fetch {
                    url: self.candidates[self.attempt].clone(),
                    temp: self.temp.clone(),
                },
            );
        } else {
            let mut message = String::from_str(MANUAL_OPEN);
            message.append(self.file.url.as_str());
            message.append(MANUAL_PLACE);
            message.append(self.canonical.as_str());
            message.append(MANUAL_DIRECTORY);
            message.append(self.bin_dir.as_str());
            let error = ToolError {
                tool: self.tool.clone(),
                version: self.version.clone(),
                stage: if self.embedded {
                    Stage::ReleaseVerify
                } else {
                    Stage::DownloadVerify
                },
                error: message,
            };
            commands.push(Command::Emit(Event::DownloadError(error.clone())));
            self.phase = Phase::Failed(error);
        }
        assert(commands_view(commands@) =~= before + after_failure(old(self)@).1);
    }

    fn abandon(&mut self) -> (commands: Vec<Command>)
        ensures
            final(self)@ == abandon(old(self)@).0,
            commands_view(commands@) == abandon(old(self)@).1,
    {
        let mut commands = self.cleanup_commands();
        self.after_failure(&mut commands);
        commands
    }

    /// Takes the machine one step: `signal` says what happened, the result
    /// says what to do next. A signal that the phase does not expect changes
    /// nothing and asks for nothing.
    pub fn step(&mut self, signal: Signal) -> (commands: Vec<Command>)
        ensures
            final(self)@ == step_of(old(self)@, signal@).0,
            commands_view(commands@) == step_of(old(self)@, signal@).1,
    {
        let rest = self.resting();
        let mut commands: Vec<Command> = Vec::new();
        assert(commands_view(commands@) =~= seq![]);
        match (rest, signal) {
            (Rest::Acquiring, Signal::Opened { total }) => {
                self.total = total;
            },
            (Rest::Acquiring, Signal::Chunk(bytes)) => {
                self.stream.update(bytes);
                commands.push(
                    Command::Emit(
                        Event::DownloadProgress {
                            tool: self.tool.clone(),
                            total: self.total,
                            received: self.stream.received(),
                        },
                    ),
                );
                assert(commands_view(commands@) =~= step_of(old(self)@, signal@).1);
            },
            (Rest::Acquiring, Signal::Completed) => {
                let ghost before = self@;
                let script = self.install_commands();
                if self.stream.matches(self.file.sha256.as_str()) {
                    self.phase = Phase::Extracting;
                    return script;
                } else {
                    assert(self@ == InstallView { received: 0, payload: Seq::empty(), ..before });
                    return self.abandon();
                }
            },
            (Rest::Acquiring, Signal::NoData) => {
                return self.abandon();
            },
            (Rest::Acquiring, Signal::Failed) => {
                return self.abandon();
            },
            (Rest::Acquiring, Signal::TimedOut) => {
                return self.abandon();
            },
            (Rest::Extracting, Signal::Installed) => {
                self.phase = Phase::Canonicalizing;
                commands.push(Command::Probe { path: self.canonical.clone() });
                assert(commands_view(commands@) =~= step_of(old(self)@, signal@).1);
            },
            (Rest::Extracting, Signal::InstallFailed) => {
                return self.abandon();
            },
            (Rest::Extracting, Signal::TimedOut) => {
                return self.abandon();
            },
            (Rest::Canonicalizing, Signal::Probed { exists }) => {
                if exists {
                    self.phase = Phase::Installed;
                    commands.push(
                        Command::Emit(Event::DownloadComplete { tool: self.tool.clone() }),
                    );
                    assert(commands_view(commands@) =~= step_of(old(self)@, signal@).1);
                } else {
                    let failed = fail_stage(
                        self.tool.as_str(),
                        self.version.as_str(),
                        Stage::PostInstallCheck,
                        join2(CANONICAL_MISSING, self.canonical.as_str()),
                    );
                    self.phase = Phase::Failed(failed.0);
                    return failed.1;
                }
            },
            _ => {},
        }
        commands
    }
}

} // verus!
