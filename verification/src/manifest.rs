//! The manifest: every tool, its pinned version and its per-platform files.
//! A manifest is built once and never changed afterwards.

use crate::assoc::{find_key, keys_distinct, lemma_find_key, lemma_upsert, lookup, upsert, Entries};
use crate::text::{copy_text_opt, text_opt};
use crate::tool_table::{
    table_get, table_get_index, table_insert, table_len, table_new, tool_table,
};
use indexmap::IndexMap;
use vstd::prelude::*;

verus! {

/// How a bundle archive is unpacked.
#[derive(Debug, PartialEq, Eq)]
pub struct BundleInfo {
    /// Informational: whether the unpacked folder is kept as a folder.
    pub keep_folder: bool,
    /// Folder inside the archive to unpack; the archive's own name when absent.
    pub folder_name: Option<String>,
    /// Path, relative to the unpacked folder, of the bundle's main file.
    pub entry: String,
    /// New name for the main file, when it is to be renamed.
    pub rename_entry_to: Option<String>,
}

/// Mathematical value of a [`BundleInfo`].
pub struct BundleView {
    pub keep_folder: bool,
    pub folder_name: Option<Seq<char>>,
    pub entry: Seq<char>,
    pub rename_entry_to: Option<Seq<char>>,
}

impl View for BundleInfo {
    type V = BundleView;

    open spec fn view(&self) -> BundleView {
        BundleView {
            keep_folder: self.keep_folder,
            folder_name: text_opt(self.folder_name),
            entry: self.entry@,
            rename_entry_to: text_opt(self.rename_entry_to),
        }
    }
}

impl Clone for BundleInfo {
    fn clone(&self) -> (out: Self)
        ensures
            out@ == self@,
    {
        BundleInfo {
            keep_folder: self.keep_folder,
            folder_name: copy_text_opt(&self.folder_name),
            entry: self.entry.clone(),
            rename_entry_to: copy_text_opt(&self.rename_entry_to),
        }
    }
}

/// The view of an optional bundle description.
pub open spec fn bundle_opt(o: Option<BundleInfo>) -> Option<BundleView> {
    match o {
        Some(b) => Some(b@),
        None => None,
    }
}

/// One downloadable file of a tool, for one platform.
#[derive(Debug, PartialEq, Eq)]
pub struct FileInfo {
    /// Where the file is fetched from; its last path segment names the file.
    pub url: String,
    /// Expected SHA-256 digest of the payload, as 64 lowercase hex characters.
    pub sha256: String,
    /// Path inside a single-file archive of the executable to extract.
    pub entry: Option<String>,
    /// Present when the payload is a bundle archive.
    pub bundle: Option<BundleInfo>,
}

/// Mathematical value of a [`FileInfo`].
pub struct FileView {
    pub url: Seq<char>,
    pub sha256: Seq<char>,
    pub entry: Option<Seq<char>>,
    pub bundle: Option<BundleView>,
}

impl View for FileInfo {
    type V = FileView;

    open spec fn view(&self) -> FileView {
        FileView {
            url: self.url@,
            sha256: self.sha256@,
            entry: text_opt(self.entry),
            bundle: bundle_opt(self.bundle),
        }
    }
}

impl Clone for FileInfo {
    fn clone(&self) -> (out: Self)
        ensures
            out@ == self@,
    {
        let bundle = match &self.bundle {
            Some(b) => Some(b.clone()),
            None => None,
        };
        FileInfo {
            url: self.url.clone(),
            sha256: self.sha256.clone(),
            entry: copy_text_opt(&self.entry),
            bundle,
        }
    }
}

/// The entries of a file table, each key and file by its view.
pub open spec fn file_entries(files: Seq<(String, FileInfo)>) -> Entries<FileView> {
    files.map_values(|e: (String, FileInfo)| (e.0@, e.1@))
}

/// A tool: its pinned version and its files, keyed by platform. Versions are
/// opaque and only ever compared for equality.
#[derive(Debug)]
pub struct ToolInfo {
    version: String,
    files: Vec<(String, FileInfo)>,
}

/// Mathematical value of a [`ToolInfo`].
pub struct ToolView {
    pub version: Seq<char>,
    pub files: Entries<FileView>,
}

impl View for ToolInfo {
    type V = ToolView;

    closed spec fn view(&self) -> ToolView {
        ToolView { version: self.version@, files: file_entries(self.files@) }
    }
}

impl ToolInfo {
    #[verifier::type_invariant]
    spec fn platform_keys_unique(self) -> bool {
        keys_distinct(file_entries(self.files@))
    }

    /// A tool pinned to `version`, with no files yet.
    pub fn new(version: String) -> (tool: Self)
        ensures
            tool@.version == version@,
            tool@.files == Seq::<(Seq<char>, FileView)>::empty(),
    {
        let tool = ToolInfo { version, files: Vec::new() };
        assert(file_entries(tool.files@) =~= Seq::empty());
        tool
    }

    /// The pinned version.
    pub fn version(&self) -> (v: &String)
        ensures
            v@ == self@.version,
    {
        &self.version
    }

    /// Number of platform files.
    pub fn file_count(&self) -> (n: usize)
        ensures
            n == self@.files.len(),
    {
        self.files.len()
    }

    /// The `i`-th platform file with its key.
    pub fn file_at(&self, i: usize) -> (entry: (&String, &FileInfo))
        requires
            i < self@.files.len(),
        ensures
            entry.0@ == self@.files[i as int].0,
            entry.1@ == self@.files[i as int].1,
    {
        (&self.files[i].0, &self.files[i].1)
    }

    /// This tool with `file` stored under `platform`: a file already stored
    /// under that key is replaced in place, a new key goes last.
    pub fn with_file(self, platform: String, file: FileInfo) -> (tool: Self)
        ensures
            tool@.version == self@.version,
            tool@.files == upsert(self@.files, platform@, file@),
    {
        proof {
            use_type_invariant(&self);
        }
        let ToolInfo { version, mut files } = self;
        let ghost before = file_entries(files@);
        let mut i: usize = 0;
        while i < files.len()
            invariant
                i <= files.len(),
                file_entries(files@) == before,
                before == self@.files,
                version@ == self@.version,
                keys_distinct(before),
                forall|j: int| 0 <= j < i ==> (#[trigger] before[j]).0 != platform@,
            decreases files.len() - i,
        {
            if files[i].0 == platform {
                proof {
                    assert(before[i as int].0 == platform@);
                    lemma_find_key(before, platform@);
                    lemma_upsert(before, platform@, file@);
                }
                files.set(i, (platform, file));
                assert(file_entries(files@) =~= upsert(before, platform@, file@));
                return ToolInfo { version, files };
            }
            i = i + 1;
        }
        proof {
            lemma_find_key(before, platform@);
            lemma_upsert(before, platform@, file@);
        }
        files.push((platform, file));
        assert(file_entries(files@) =~= upsert(before, platform@, file@));
        ToolInfo { version, files }
    }
}

impl Clone for ToolInfo {
    fn clone(&self) -> (out: Self)
        ensures
            out@ == self@,
    {
        proof {
            use_type_invariant(self);
        }
        let mut files: Vec<(String, FileInfo)> = Vec::new();
        let mut i: usize = 0;
        while i < self.files.len()
            invariant
                i <= self.files.len(),
                files@.len() == i,
                forall|j: int|
                    0 <= j < i ==> (#[trigger] files@[j]).0@ == self.files@[j].0@ && files@[j].1@
                        == self.files@[j].1@,
            decreases self.files.len() - i,
        {
            let key = self.files[i].0.clone();
            let file = self.files[i].1.clone();
            files.push((key, file));
            i = i + 1;
        }
        assert(file_entries(files@) =~= file_entries(self.files@));
        ToolInfo { version: self.version.clone(), files }
    }
}

/// The entries of a tool table, each tool by its view.
pub open spec fn tool_entries(table: Seq<(Seq<char>, ToolInfo)>) -> Entries<ToolView> {
    table.map_values(|e: (Seq<char>, ToolInfo)| (e.0, e.1@))
}

/// Taking views changes neither where a name is found nor what storing a
/// tool does.
proof fn lemma_tool_entries(table: Seq<(Seq<char>, ToolInfo)>, name: Seq<char>)
    ensures
        find_key(tool_entries(table), name) == find_key(table, name),
        keys_distinct(table) <==> keys_distinct(tool_entries(table)),
        forall|tool: ToolInfo| #[trigger]
            tool_entries(upsert(table, name, tool)) == upsert(tool_entries(table), name, tool@),
{
    let views = tool_entries(table);
    lemma_find_key(table, name);
    lemma_find_key(views, name);
    assert(forall|j: int| 0 <= j < table.len() ==> (#[trigger] views[j]).0 == table[j].0);
    if find_key(table, name) is Some {
        let a = find_key(table, name).unwrap();
        assert(views[a].0 == name);
        let b = find_key(views, name).unwrap();
        assert(table[b].0 == name);
    } else if find_key(views, name) is Some {
        let b = find_key(views, name).unwrap();
        assert(table[b].0 == name);
    }
    assert(keys_distinct(table) <==> keys_distinct(views)) by {
        if keys_distinct(table) {
            assert forall|i: int, j: int| 0 <= i < j < views.len() implies (#[trigger] views[i]).0
                != (#[trigger] views[j]).0 by {
                assert(table[i].0 != table[j].0);
            }
        }
        if keys_distinct(views) {
            assert forall|i: int, j: int| 0 <= i < j < table.len() implies (#[trigger] table[i]).0
                != (#[trigger] table[j]).0 by {
                assert(views[i].0 != views[j].0);
            }
        }
    }
    assert forall|tool: ToolInfo| #[trigger]
        tool_entries(upsert(table, name, tool)) == upsert(views, name, tool@) by {
        assert(tool_entries(upsert(table, name, tool)) =~= upsert(views, name, tool@));
    }
}

/// The catalogue of tools, in the order in which they were added.
#[derive(Debug)]
pub struct Manifest {
    generated_at: String,
    tools: IndexMap<String, ToolInfo>,
}

/// Mathematical value of a [`Manifest`].
pub struct ManifestView {
    pub generated_at: Seq<char>,
    pub tools: Entries<ToolView>,
}

impl View for Manifest {
    type V = ManifestView;

    closed spec fn view(&self) -> ManifestView {
        ManifestView {
            generated_at: self.generated_at@,
            tools: tool_entries(tool_table(self.tools)),
        }
    }
}

impl Manifest {
    #[verifier::type_invariant]
    spec fn tool_names_unique(self) -> bool {
        keys_distinct(tool_table(self.tools))
    }

    /// A manifest stamped `generated_at`, with no tools yet.
    pub fn new(generated_at: String) -> (manifest: Self)
        ensures
            manifest@.generated_at == generated_at@,
            manifest@.tools == Seq::<(Seq<char>, ToolView)>::empty(),
    {
        let tools = table_new();
        assert(tool_entries(tool_table(tools)) =~= Seq::empty());
        Manifest { generated_at, tools }
    }

    /// This manifest with `tool` stored under `name`: a tool already stored
    /// under that name is replaced in place, a new name goes last.
    pub fn with_tool(self, name: String, tool: ToolInfo) -> (manifest: Self)
        ensures
            manifest@.generated_at == self@.generated_at,
            manifest@.tools == upsert(self@.tools, name@, tool@),
    {
        proof {
            use_type_invariant(&self);
            lemma_tool_entries(tool_table(self.tools), name@);
            lemma_upsert(tool_table(self.tools), name@, tool);
        }
        let Manifest { generated_at, mut tools } = self;
        table_insert(&mut tools, name, tool);
        Manifest { generated_at, tools }
    }

    /// When the manifest was generated.
    pub fn generated_at(&self) -> (stamp: &String)
        ensures
            stamp@ == self@.generated_at,
    {
        &self.generated_at
    }

    /// Number of tools, and with it the fact that no name occurs twice.
    pub fn tool_count(&self) -> (n: usize)
        ensures
            n == self@.tools.len(),
            keys_distinct(self@.tools),
    {
        proof {
            use_type_invariant(self);
            lemma_tool_entries(tool_table(self.tools), Seq::empty());
        }
        table_len(&self.tools)
    }

    /// The `i`-th tool with its name.
    pub fn tool_at(&self, i: usize) -> (entry: (&String, &ToolInfo))
        requires
            i < self@.tools.len(),
        ensures
            entry.0@ == self@.tools[i as int].0,
            entry.1@ == self@.tools[i as int].1,
    {
        match table_get_index(&self.tools, i) {
            Some(e) => e,
            None => unreached(),
        }
    }

    /// The tool stored under `name`.
    pub fn tool(&self, name: &str) -> (found: Option<&ToolInfo>)
        ensures
            match found {
                Some(t) => lookup(self@.tools, name@) == Some(t@),
                None => lookup(self@.tools, name@) is None,
            },
    {
        proof {
            lemma_tool_entries(tool_table(self.tools), name@);
            lemma_find_key(tool_table(self.tools), name@);
        }
        table_get(&self.tools, name)
    }
}

} // verus!
