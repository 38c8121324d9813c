//! The plan of an install run: the tools that have to be installed now, in
//! the manifest's order.

use crate::assoc::Entries;
use crate::manifest::{Manifest, ManifestView, ToolInfo, ToolView};
use crate::metadata::Metadata;
use crate::platform::{select_file, select_index};
use crate::filters::{lemma_filter_push, lemma_filter_twice};
use crate::text::{holds, same_text, texts};
use vstd::prelude::*;

verus! {

/// The view of an optional allow-list.
pub open spec fn allow_view(allow: Option<&[String]>) -> Option<Seq<Seq<char>>> {
    match allow {
        Some(list) => Some(texts(list@)),
        None => None,
    }
}

/// Whether the allow-list lets `name` through: every name passes when there
/// is no list.
pub open spec fn allowed(allow: Option<Seq<Seq<char>>>, name: Seq<char>) -> bool {
    match allow {
        Some(list) => list.contains(name),
        None => true,
    }
}

/// Whether the manifest offers `tool` for `platform`.
pub open spec fn supported(tool: ToolView, platform: Seq<char>) -> bool {
    select_index(tool.files, platform) is Some
}

/// Whether the ledger records exactly `version` for `name`.
pub open spec fn version_ok(
    versions: Map<Seq<char>, Seq<char>>,
    name: Seq<char>,
    version: Seq<char>,
) -> bool {
    versions.contains_key(name) && versions[name] == version
}

/// Whether `name` at `version` counts as installed: the ledger records that
/// version and the tool's canonical file is on disk.
pub open spec fn installed(
    versions: Map<Seq<char>, Seq<char>>,
    present: Seq<Seq<char>>,
    name: Seq<char>,
    version: Seq<char>,
) -> bool {
    version_ok(versions, name, version) && present.contains(name)
}

/// Whether a manifest entry has to be installed: the allow-list lets it
/// through, the platform is supported, and it is not installed as pinned.
pub open spec fn due(
    versions: Map<Seq<char>, Seq<char>>,
    platform: Seq<char>,
    allow: Option<Seq<Seq<char>>>,
    present: Seq<Seq<char>>,
) -> spec_fn((Seq<char>, ToolView)) -> bool {
    |e: (Seq<char>, ToolView)|
        allowed(allow, e.0) && supported(e.1, platform) && !installed(
            versions,
            present,
            e.0,
            e.1.version,
        )
}

/// The plan: the manifest's entries that are due, in the manifest's order.
/// `present` names the tools whose canonical file exists on disk.
pub open spec fn plan_of(
    manifest: ManifestView,
    versions: Map<Seq<char>, Seq<char>>,
    platform: Seq<char>,
    allow: Option<Seq<Seq<char>>>,
    present: Seq<Seq<char>>,
) -> Entries<ToolView> {
    manifest.tools.filter(due(versions, platform, allow, present))
}

/// The entries of a plan, each name and tool by its view.
pub open spec fn plan_entries(plan: Seq<(&String, &ToolInfo)>) -> Entries<ToolView> {
    plan.map_values(|e: (&String, &ToolInfo)| (e.0@, e.1@))
}

/// Whether a manifest entry is due; see [`due`].
pub fn is_due(
    name: &str,
    tool: &ToolInfo,
    meta: &Metadata,
    platform: &str,
    allow: Option<&[String]>,
    present: &[String],
) -> (yes: bool)
    ensures
        yes == due(meta@.versions, platform@, allow_view(allow), texts(present@))((name@, tool@)),
{
    if let Some(list) = allow {
        if !holds(list, name) {
            return false;
        }
    }
    if select_file(tool, platform).is_none() {
        return false;
    }
    let version_ok = match meta.version_of(name) {
        Some(v) => same_text(v.as_str(), tool.version().as_str()),
        None => false,
    };
    let exists = holds(present, name);
    !version_ok || !exists
}

/// Builds the plan of a run: every tool of the manifest that the allow-list
/// lets through, that the platform supports, and whose pinned version is not
/// the installed one or whose canonical file is missing. `present` names the
/// tools whose canonical file exists on disk.
pub fn build_plan<'a>(
    manifest: &'a Manifest,
    meta: &Metadata,
    platform: &str,
    allow: Option<&[String]>,
    present: &[String],
) -> (plan: Vec<(&'a String, &'a ToolInfo)>)
    ensures
        plan_entries(plan@) == plan_of(
            manifest@,
            meta@.versions,
            platform@,
            allow_view(allow),
            texts(present@),
        ),
{
    let ghost wanted = due(meta@.versions, platform@, allow_view(allow), texts(present@));
    let ghost tools = manifest@.tools;
    let n = manifest.tool_count();
    let mut plan: Vec<(&'a String, &'a ToolInfo)> = Vec::new();
    let mut i: usize = 0;
    proof {
        reveal(Seq::filter);
        assert(tools.take(0) =~= Seq::empty());
        assert(plan_entries(plan@) =~= Seq::empty());
    }
    while i < n
        invariant
            i <= n == tools.len(),
            tools == manifest@.tools,
            wanted == due(meta@.versions, platform@, allow_view(allow), texts(present@)),
            plan_entries(plan@) == tools.take(i as int).filter(wanted),
        decreases n - i,
    {
        let entry = manifest.tool_at(i);
        let take_it = is_due(entry.0.as_str(), entry.1, meta, platform, allow, present);
        proof {
            lemma_filter_push(tools.take(i as int), tools[i as int], wanted);
            assert(tools.take(i + 1) =~= tools.take(i as int).push(tools[i as int]));
            assert((entry.0@, entry.1@) == tools[i as int]);
        }
        if take_it {
            let ghost before = plan_entries(plan@);
            plan.push(entry);
            assert(plan_entries(plan@) =~= before.push((entry.0@, entry.1@)));
        }
        i = i + 1;
    }
    assert(tools.take(n as int) =~= tools);
    plan
}

/// A manifest entry is in the plan of an unrestricted run exactly when its
/// platform is supported and it is not installed as pinned: the ledger
/// records another version or none, or the canonical file is missing.
pub proof fn plan_holds_what_is_due(
    manifest: ManifestView,
    versions: Map<Seq<char>, Seq<char>>,
    platform: Seq<char>,
    present: Seq<Seq<char>>,
    i: int,
)
    requires
        0 <= i < manifest.tools.len(),
    ensures
        plan_of(manifest, versions, platform, None, present).contains(manifest.tools[i]) <==> (
        supported(manifest.tools[i].1, platform) && (!version_ok(
            versions,
            manifest.tools[i].0,
            manifest.tools[i].1.version,
        ) || !present.contains(manifest.tools[i].0))),
{
    let wanted = due(versions, platform, None, present);
    let plan = manifest.tools.filter(wanted);
    if wanted(manifest.tools[i]) {
        manifest.tools.lemma_filter_contains(wanted, i);
    }
    if plan.contains(manifest.tools[i]) {
        let k = choose|k: int| 0 <= k < plan.len() && plan[k] == manifest.tools[i];
        manifest.tools.lemma_filter_pred(wanted, k);
    }
}

/// The plan under an allow-list holds only entries of the unrestricted plan
/// whose names are on the list: it is the unrestricted plan cut down to the
/// list.
pub proof fn allow_list_only_narrows(
    manifest: ManifestView,
    versions: Map<Seq<char>, Seq<char>>,
    platform: Seq<char>,
    list: Seq<Seq<char>>,
    present: Seq<Seq<char>>,
)
    ensures
        forall|e: (Seq<char>, ToolView)| #[trigger]
            plan_of(manifest, versions, platform, Some(list), present).contains(e) ==> plan_of(
                manifest,
                versions,
                platform,
                None,
                present,
            ).contains(e) && list.contains(e.0),
        plan_of(manifest, versions, platform, Some(list), present) == plan_of(
            manifest,
            versions,
            platform,
            None,
            present,
        ).filter(|e: (Seq<char>, ToolView)| list.contains(e.0)),
{
    let narrow = due(versions, platform, Some(list), present);
    let wide = due(versions, platform, None, present);
    let listed = |e: (Seq<char>, ToolView)| list.contains(e.0);
    lemma_filter_twice(manifest.tools, wide, listed, narrow);
    let all = plan_of(manifest, versions, platform, None, present);
    assert forall|e: (Seq<char>, ToolView)| #[trigger]
        plan_of(manifest, versions, platform, Some(list), present).contains(e) implies all.contains(
        e,
    ) && list.contains(e.0) by {
        let cut = all.filter(listed);
        let k = choose|k: int| 0 <= k < cut.len() && cut[k] == e;
        all.lemma_filter_pred(listed, k);
        all.lemma_filter_contains_rev(listed, e);
    }
}

} // verus!
