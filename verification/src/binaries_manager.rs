//! The operations that the host application calls. The manager knows where
//! tools are installed and for which platform; the manifest, the ledger and
//! what is on disk are handed to each operation.

use crate::assoc::{lookup, Entries};
use crate::binaries_state::{
    CheckResult, CheckView, HelperToolStatus, ManualToolInfo, ManualView, StatusView,
};
use crate::events::ToolError;
use crate::extract::{hoist_of, hoist_plan, hoist_view, join_path, path_in, HoistError, HoistPlan};
use crate::manifest::{Manifest, ManifestView, ToolInfo, ToolView};
use crate::metadata::{LedgerView, Metadata};
use crate::commands::{commands_view, Command};
use crate::pipeline::{begin_of, begun_view, ToolInstall};
use crate::site::{canonical_of, Site, SiteView, Strategy, StrategyView};
use crate::filters::{lemma_filter_push, lemma_filter_same};
use crate::plan::{
    allow_view, allowed, build_plan, due, installed, plan_entries, plan_of, supported,
};
use crate::platform::{current_platform, platform_key, select_file, select_file_spec};
use crate::run::{ensure_of, InstallRun};
use crate::text::{holds, same_text, str_opt, texts};
use vstd::prelude::*;

verus! {

/// Name of the ledger file inside the installation directory.
pub const METADATA_FILE: &'static str = "metadata.json";

/// The operating system whose executables carry the `.exe` extension.
pub const WINDOWS: &'static str = "windows";

/// The names of a list of entries.
pub open spec fn names<V>(entries: Entries<V>) -> Seq<Seq<char>> {
    entries.map_values(|e: (Seq<char>, V)| e.0)
}

/// The predicate "the manifest offers this entry for `platform`".
pub open spec fn offered(platform: Seq<char>) -> spec_fn((Seq<char>, ToolView)) -> bool {
    |e: (Seq<char>, ToolView)| supported(e.1, platform)
}

/// The predicate "the canonical file of this entry has to be looked for":
/// the allow-list lets it through and the platform is supported.
pub open spec fn probed(platform: Seq<char>, allow: Option<Seq<Seq<char>>>) -> spec_fn(
    (Seq<char>, ToolView),
) -> bool {
    |e: (Seq<char>, ToolView)| allowed(allow, e.0) && supported(e.1, platform)
}

/// The tools whose canonical files a check or a run has to look for. Under
/// a locked ledger nothing on disk is looked at.
pub open spec fn probe_targets_of(
    manifest: ManifestView,
    ledger: LedgerView,
    platform: Seq<char>,
    allow: Option<Seq<Seq<char>>>,
) -> Seq<Seq<char>> {
    if ledger.is_locked {
        Seq::empty()
    } else {
        names(manifest.tools.filter(probed(platform, allow)))
    }
}

/// The result of the read-only check: what a run would install now, and all
/// that the manifest offers for the platform. Under a locked ledger both are
/// empty.
pub open spec fn check_of(
    manifest: ManifestView,
    ledger: LedgerView,
    platform: Seq<char>,
    present: Seq<Seq<char>>,
) -> CheckView {
    if ledger.is_locked {
        CheckView { tools: Seq::empty(), all_tools: Seq::empty() }
    } else {
        CheckView {
            tools: names(plan_of(manifest, ledger.versions, platform, None, present)),
            all_tools: names(manifest.tools.filter(offered(platform))),
        }
    }
}

/// The line of the helper list for a manifest entry.
pub open spec fn status_of(ledger: LedgerView, present: Seq<Seq<char>>) -> spec_fn(
    (Seq<char>, ToolView),
) -> StatusView {
    |e: (Seq<char>, ToolView)|
        StatusView {
            name: e.0,
            version: e.1.version,
            installed: installed(ledger.versions, present, e.0, e.1.version),
        }
}

/// The helper list: a line for every tool that the manifest offers for the
/// platform, in the manifest's order.
pub open spec fn statuses_of(
    manifest: ManifestView,
    ledger: LedgerView,
    platform: Seq<char>,
    present: Seq<Seq<char>>,
) -> Seq<StatusView> {
    manifest.tools.filter(offered(platform)).map_values(status_of(ledger, present))
}

/// The views of a helper list.
pub open spec fn statuses_view(list: Seq<HelperToolStatus>) -> Seq<StatusView> {
    list.map_values(|s: HelperToolStatus| s@)
}

/// Why there is nothing to tell about installing a tool by hand.
#[derive(Clone, Copy, PartialEq, Eq, Debug)]
pub enum ManualInfoError {
    /// The manifest does not know the tool.
    ToolNotFound,
    /// The manifest has no file of the tool for the platform.
    NoFileForPlatform,
}

/// The message of a [`ManualInfoError`].
pub open spec fn manual_error_message(error: ManualInfoError) -> Seq<char> {
    match error {
        ManualInfoError::ToolNotFound => "tool not found"@,
        ManualInfoError::NoFileForPlatform => "no file for current platform"@,
    }
}

impl ManualInfoError {
    /// What the user is told.
    pub fn message(&self) -> (text: &'static str)
        ensures
            text@ == manual_error_message(*self),
    {
        match self {
            ManualInfoError::ToolNotFound => "tool not found",
            ManualInfoError::NoFileForPlatform => "no file for current platform",
        }
    }
}

/// What there is to tell about installing `name` by hand: the URL of its
/// file for the platform and the installation directory.
pub open spec fn manual_info_of(site: SiteView, manifest: ManifestView, name: Seq<char>) -> Result<
    ManualView,
    ManualInfoError,
> {
    match lookup(manifest.tools, name) {
        None => Err(ManualInfoError::ToolNotFound),
        Some(tool) => match select_file_spec(tool.files, site.platform) {
            None => Err(ManualInfoError::NoFileForPlatform),
            Some(chosen) => Ok(ManualView { url: chosen.1.url, bin_dir: site.bin_dir }),
        },
    }
}

/// The view of what [`BinariesManager::tool_manual_info`] returns.
pub open spec fn manual_view(r: Result<ManualToolInfo, ManualInfoError>) -> Result<
    ManualView,
    ManualInfoError,
> {
    match r {
        Ok(info) => Ok(info@),
        Err(e) => Err(e),
    }
}

/// The installer's handle for the host application.
pub struct BinariesManager {
    site: Site,
}

impl View for BinariesManager {
    type V = SiteView;

    closed spec fn view(&self) -> SiteView {
        self.site@
    }
}

impl BinariesManager {
    /// A manager that installs into `bin_dir`, for the system that calls
    /// itself `os` on the architecture `arch`.
    pub fn new(bin_dir: &str, os: &str, arch: &str) -> (manager: Self)
        ensures
            manager@.bin_dir == bin_dir@,
            manager@.platform == platform_key(os@, arch@),
            manager@.windows == (os@ == WINDOWS@),
    {
        BinariesManager {
            site: Site {
                bin_dir: String::from_str(bin_dir),
                platform: current_platform(os, arch),
                windows: same_text(os, WINDOWS),
            },
        }
    }

    /// Where and how this manager installs.
    pub fn site(&self) -> (site: &Site)
        ensures
            site@ == self@,
    {
        &self.site
    }

    /// The canonical path of `tool`: its name in the installation directory,
    /// with `.exe` appended where executables carry that extension.
    pub fn canonical_path(&self, tool: &str) -> (path: String)
        ensures
            path@ == canonical_of(self@, tool@),
    {
        self.site.canonical_path(tool)
    }

    /// The path of the ledger file.
    pub fn metadata_path(&self) -> (path: String)
        ensures
            path@ == path_in(self@.bin_dir, METADATA_FILE@),
    {
        join_path(self.site.bin_dir.as_str(), METADATA_FILE)
    }

    /// The names of the tools whose canonical files have to be looked for
    /// before a check (`allow` absent) or a run; see [`probe_targets_of`].
    pub fn probe_targets(
        &self,
        manifest: &Manifest,
        meta: &Metadata,
        allow: Option<&[String]>,
    ) -> (targets: Vec<String>)
        ensures
            texts(targets@) == probe_targets_of(manifest@, meta@, self@.platform, allow_view(allow)),
    {
        let mut targets: Vec<String> = Vec::new();
        assert(texts(targets@) =~= Seq::empty());
        if meta.is_locked() {
            return targets;
        }
        let ghost wanted = probed(self@.platform, allow_view(allow));
        let ghost tools = manifest@.tools;
        let n = manifest.tool_count();
        let mut i: usize = 0;
        proof {
            reveal(Seq::filter);
            assert(tools.take(0) =~= Seq::empty());
            assert(names(tools.take(0).filter(wanted)) =~= Seq::empty());
        }
        while i < n
            invariant
                i <= n == tools.len(),
                tools == manifest@.tools,
                wanted == probed(self@.platform, allow_view(allow)),
                texts(targets@) == names(tools.take(i as int).filter(wanted)),
            decreases n - i,
        {
            let entry = manifest.tool_at(i);
            let listed = match allow {
                Some(list) => holds(list, entry.0.as_str()),
                None => true,
            };
            let take_it = listed && select_file(entry.1, self.site.platform.as_str()).is_some();
            proof {
                lemma_filter_push(tools.take(i as int), tools[i as int], wanted);
                assert(tools.take(i + 1) =~= tools.take(i as int).push(tools[i as int]));
                assert((entry.0@, entry.1@) == tools[i as int]);
            }
            if take_it {
                let ghost before = texts(targets@);
                targets.push(entry.0.clone());
                assert(texts(targets@) =~= before.push(entry.0@));
                assert(names(tools.take(i as int).filter(wanted).push(tools[i as int])) =~= names(
                    tools.take(i as int).filter(wanted),
                ).push(entry.0@));
            }
            i = i + 1;
        }
        assert(tools.take(n as int) =~= tools);
        targets
    }

    /// The names of all tools of the manifest, in its order.
    pub fn list_tools(&self, manifest: &Manifest) -> (tools: Vec<String>)
        ensures
            texts(tools@) == names(manifest@.tools),
    {
        let n = manifest.tool_count();
        let mut tools: Vec<String> = Vec::new();
        let mut i: usize = 0;
        while i < n
            invariant
                i <= n == manifest@.tools.len(),
                tools@.len() == i,
                forall|j: int| 0 <= j < i ==> (#[trigger] tools@[j])@ == manifest@.tools[j].0,
            decreases n - i,
        {
            tools.push(manifest.tool_at(i).0.clone());
            i = i + 1;
        }
        assert(texts(tools@) =~= names(manifest@.tools));
        tools
    }

    /// The read-only check; see [`check_of`]. `present` names the tools
    /// whose canonical file exists on disk.
    pub fn check(&self, manifest: &Manifest, meta: &Metadata, present: &[String]) -> (result:
        CheckResult)
        ensures
            result@ == check_of(manifest@, meta@, self@.platform, texts(present@)),
    {
        let mut tools: Vec<String> = Vec::new();
        let mut all_tools: Vec<String> = Vec::new();
        assert(texts(tools@) =~= Seq::empty());
        assert(texts(all_tools@) =~= Seq::empty());
        if meta.is_locked() {
            return CheckResult { tools, all_tools };
        }
        let platform = self.site.platform.as_str();
        let ghost every = manifest@.tools;
        let ghost fits = offered(self@.platform);
        let n = manifest.tool_count();
        let mut i: usize = 0;
        proof {
            reveal(Seq::filter);
            assert(every.take(0) =~= Seq::empty());
            assert(names(every.take(0).filter(fits)) =~= Seq::empty());
        }
        while i < n
            invariant
                i <= n == every.len(),
                every == manifest@.tools,
                fits == offered(self@.platform),
                platform@ == self@.platform,
                texts(all_tools@) == names(every.take(i as int).filter(fits)),
            decreases n - i,
        {
            let entry = manifest.tool_at(i);
            let take_it = select_file(entry.1, platform).is_some();
            proof {
                lemma_filter_push(every.take(i as int), every[i as int], fits);
                assert(every.take(i + 1) =~= every.take(i as int).push(every[i as int]));
                assert((entry.0@, entry.1@) == every[i as int]);
            }
            if take_it {
                let ghost before = texts(all_tools@);
                all_tools.push(entry.0.clone());
                assert(texts(all_tools@) =~= before.push(entry.0@));
                assert(names(every.take(i as int).filter(fits).push(every[i as int])) =~= names(
                    every.take(i as int).filter(fits),
                ).push(entry.0@));
            }
            i = i + 1;
        }
        assert(every.take(n as int) =~= every);
        let plan = build_plan(manifest, meta, platform, None, present);
        let mut k: usize = 0;
        while k < plan.len()
            invariant
                k <= plan.len(),
                tools@.len() == k,
                forall|j: int| 0 <= j < k ==> (#[trigger] tools@[j])@ == plan@[j].0@,
            decreases plan.len() - k,
        {
            tools.push(plan[k].0.clone());
            k = k + 1;
        }
        assert(texts(tools@) =~= names(plan_entries(plan@)));
        CheckResult { tools, all_tools }
    }

    /// The helper list; see [`statuses_of`]. `present` names the tools whose
    /// canonical file exists on disk.
    pub fn list_tools_with_status(
        &self,
        manifest: &Manifest,
        meta: &Metadata,
        present: &[String],
    ) -> (list: Vec<HelperToolStatus>)
        ensures
            statuses_view(list@) == statuses_of(manifest@, meta@, self@.platform, texts(present@)),
    {
        let platform = self.site.platform.as_str();
        let ghost every = manifest@.tools;
        let ghost fits = offered(self@.platform);
        let ghost line = status_of(meta@, texts(present@));
        let n = manifest.tool_count();
        let mut list: Vec<HelperToolStatus> = Vec::new();
        let mut i: usize = 0;
        proof {
            reveal(Seq::filter);
            assert(every.take(0) =~= Seq::empty());
            assert(statuses_view(list@) =~= every.take(0).filter(fits).map_values(line));
        }
        while i < n
            invariant
                i <= n == every.len(),
                every == manifest@.tools,
                fits == offered(self@.platform),
                line == status_of(meta@, texts(present@)),
                platform@ == self@.platform,
                statuses_view(list@) == every.take(i as int).filter(fits).map_values(line),
            decreases n - i,
        {
            let entry = manifest.tool_at(i);
            proof {
                lemma_filter_push(every.take(i as int), every[i as int], fits);
                assert(every.take(i + 1) =~= every.take(i as int).push(every[i as int]));
                assert((entry.0@, entry.1@) == every[i as int]);
            }
            if select_file(entry.1, platform).is_some() {
                let version_ok = match meta.version_of(entry.0.as_str()) {
                    Some(v) => same_text(v.as_str(), entry.1.version().as_str()),
                    None => false,
                };
                let exists = holds(present, entry.0.as_str());
                let ghost before = statuses_view(list@);
                list.push(
                    HelperToolStatus {
                        name: entry.0.clone(),
                        version: entry.1.version().clone(),
                        installed: version_ok && exists,
                    },
                );
                assert(statuses_view(list@) =~= before.push(line(every[i as int])));
                assert(every.take(i as int).filter(fits).push(every[i as int]).map_values(line)
                    =~= every.take(i as int).filter(fits).map_values(line).push(
                    line(every[i as int]),
                ));
            }
            i = i + 1;
        }
        assert(every.take(n as int) =~= every);
        list
    }

    /// Forgets that `name` is installed, so that the next run installs it
    /// again. Returns the ledger to write and the canonical file to delete.
    pub fn remove_tool(&self, meta: Metadata, name: &str) -> (out: (Metadata, String))
        ensures
            out.0@.versions == meta@.versions.remove(name@),
            out.0@.is_locked == meta@.is_locked,
            out.1@ == canonical_of(self@, name@),
    {
        (meta.without_tool(name), self.site.canonical_path(name))
    }

    /// What a user needs to install `name` by hand; see [`manual_info_of`].
    pub fn tool_manual_info(&self, manifest: &Manifest, name: &str) -> (info: Result<
        ManualToolInfo,
        ManualInfoError,
    >)
        ensures
            manual_view(info) == manual_info_of(self@, manifest@, name@),
    {
        let tool = match manifest.tool(name) {
            Some(t) => t,
            None => {
                return Err(ManualInfoError::ToolNotFound);
            },
        };
        match select_file(tool, self.site.platform.as_str()) {
            Some(chosen) => Ok(
                ManualToolInfo { url: chosen.1.url.clone(), bin_dir: self.site.bin_dir.clone() },
            ),
            None => Err(ManualInfoError::NoFileForPlatform),
        }
    }

    /// Starts an install run; see [`ensure_of`]. `present` names the tools
    /// whose canonical file exists on disk.
    pub fn ensure(
        &self,
        manifest: &Manifest,
        meta: Metadata,
        allow: Option<&[String]>,
        strategy: &Strategy,
        present: &[String],
    ) -> (out: (InstallRun, Vec<Command>))
        ensures
            out.0@ == ensure_of(
                self@,
                manifest@,
                meta@,
                allow_view(allow),
                strategy@,
                texts(present@),
            ).0,
            commands_view(out.1@) == ensure_of(
                self@,
                manifest@,
                meta@,
                allow_view(allow),
                strategy@,
                texts(present@),
            ).1,
    {
        InstallRun::ensure(&self.site, manifest, meta, allow, strategy, present)
    }

    /// Begins the pipeline of one tool of a plan; see
    /// [`crate::pipeline::begin_of`].
    pub fn install_single_tool(
        &self,
        name: &str,
        tool: &ToolInfo,
        strategy: &Strategy,
    ) -> (out: (Result<ToolInstall, ToolError>, Vec<Command>))
        ensures
            begun_view(out.0) == begin_of(self@, name@, tool@, strategy@).0,
            commands_view(out.1@) == begin_of(self@, name@, tool@, strategy@).1,
    {
        ToolInstall::begin(&self.site, name, tool, strategy)
    }

    /// Forces every tool to be installed again: the ledger forgets all
    /// versions and its lock, and a run starts without an allow-list, by
    /// download and with the proxies in use. Returns the ledger to write
    /// before the run, the run, and its first commands.
    pub fn redownload_all(
        &self,
        manifest: &Manifest,
        meta: Metadata,
        custom_proxy: Option<&str>,
    ) -> (out: (Metadata, InstallRun, Vec<Command>))
        ensures
            out.0@ == forgotten(),
            out.1@ == ensure_of(
                self@,
                manifest@,
                forgotten(),
                None,
                StrategyView::Network { use_proxy: true, custom_proxy: str_opt(custom_proxy) },
                Seq::empty(),
            ).0,
            commands_view(out.2@) == ensure_of(
                self@,
                manifest@,
                forgotten(),
                None,
                StrategyView::Network { use_proxy: true, custom_proxy: str_opt(custom_proxy) },
                Seq::empty(),
            ).1,
    {
        let reset = meta.cleared().with_lock(false);
        let to_write = reset.clone();
        let nothing: Vec<String> = Vec::new();
        assert(texts(nothing@) =~= Seq::empty());
        let strategy = Strategy::network(true, custom_proxy);
        let started = InstallRun::ensure(
            &self.site,
            manifest,
            reset,
            None,
            &strategy,
            nothing.as_slice(),
        );
        (to_write, started.0, started.1)
    }

    /// Plans the hoist of an unpacked bundle into the directory of the
    /// canonical path; see [`hoist_of`]. `children` names the items directly
    /// under `bundle_root`.
    pub fn hoist_bundle_contents_into_bin(
        &self,
        bundle_root: &str,
        canonical: &str,
        children: &[String],
    ) -> (plan: Result<HoistPlan, HoistError>)
        ensures
            hoist_view(plan) == hoist_of(bundle_root@, canonical@, texts(children@)),
    {
        hoist_plan(bundle_root, canonical, children)
    }
}

/// The ledger of an installation that is to be made anew: no versions, no
/// lock.
pub open spec fn forgotten() -> LedgerView {
    LedgerView { versions: Map::empty(), is_locked: false }
}

/// With a ledger that has forgotten every version, the plan of an
/// unrestricted run holds every tool that the manifest offers for the
/// platform, whatever is on disk.
pub proof fn forgotten_ledger_plans_all(
    manifest: ManifestView,
    platform: Seq<char>,
    present: Seq<Seq<char>>,
)
    ensures
        plan_of(manifest, forgotten().versions, platform, None, present) == manifest.tools.filter(
            offered(platform),
        ),
{
    lemma_filter_same(
        manifest.tools,
        due(forgotten().versions, platform, None, present),
        offered(platform),
    );
}

} // verus!
