//! From a verified payload to an installed executable: file names, the
//! archive family of a payload, the hoist of an unpacked bundle, and the
//! execute permission of the result.

use crate::filters::lemma_filter_push;
use crate::text::{
    after_last, find_last, holds, join2, join3, same_text, str_opt, tail_after, texts,
};
use vstd::prelude::*;

verus! {

/// Separates the directories of a path.
pub const PATH_SEPARATOR: char = '/';

/// `name` inside the directory `dir`.
pub open spec fn path_in(dir: Seq<char>, name: Seq<char>) -> Seq<char> {
    dir + "/"@ + name
}

/// The path of `name` inside the directory `dir`.
pub fn join_path(dir: &str, name: &str) -> (path: String)
    ensures
        path@ == path_in(dir@, name@),
{
    join3(dir, "/", name)
}

/// The file name that a URL ends in: the text after its last `/`. A URL
/// that ends in `/`, or is empty, names no file.
pub open spec fn url_file_name(url: Seq<char>) -> Option<Seq<char>> {
    if after_last(url, PATH_SEPARATOR).len() > 0 {
        Some(after_last(url, PATH_SEPARATOR))
    } else {
        None
    }
}

/// The file name that `url` ends in, if it names a file.
pub fn file_name_of_url<'a>(url: &'a str) -> (name: Option<&'a str>)
    ensures
        str_opt(name) == url_file_name(url@),
{
    let tail = tail_after(url, PATH_SEPARATOR);
    if tail.unicode_len() > 0 {
        Some(tail)
    } else {
        None
    }
}

/// Position of the dot that starts the extension of a file name: its last
/// dot, unless that is the name's first character.
pub open spec fn extension_dot(name: Seq<char>) -> Option<int> {
    match name.index_of_last('.') {
        Some(i) => if i > 0 {
            Some(i)
        } else {
            None
        },
        None => None,
    }
}

/// The extension of a file name: what follows its last dot. A name without
/// a dot, or with its only dot in front, has none.
pub open spec fn extension_of(name: Seq<char>) -> Option<Seq<char>> {
    match extension_dot(name) {
        Some(i) => Some(name.skip(i + 1)),
        None => None,
    }
}

/// A file name without its extension and the dot before it.
pub open spec fn stem_of(name: Seq<char>) -> Seq<char> {
    match extension_dot(name) {
        Some(i) => name.take(i),
        None => name,
    }
}

/// The name of the temporary file that a payload is written to before it is
/// verified: the payload's file name with `tmp` as its extension.
pub open spec fn temp_name_of(name: Seq<char>) -> Seq<char> {
    stem_of(name) + ".tmp"@
}

/// Position of the dot that starts the extension of `name`.
fn find_extension_dot(name: &str) -> (at: Option<usize>)
    ensures
        match at {
            Some(i) => extension_dot(name@) == Some(i as int) && i < name@.len(),
            None => extension_dot(name@) is None,
        },
{
    match find_last(name, '.') {
        Some(i) => if i > 0 {
            Some(i)
        } else {
            None
        },
        None => None,
    }
}

/// The name of the temporary file for the payload `name`.
pub fn temp_name(name: &str) -> (temp: String)
    ensures
        temp@ == temp_name_of(name@),
{
    let stem = match find_extension_dot(name) {
        Some(i) => name.substring_char(0, i),
        None => name,
    };
    join2(stem, ".tmp")
}

/// The archive family of a payload.
#[derive(Clone, Copy, PartialEq, Eq, Debug)]
pub enum ArchiveKind {
    /// Not an archive: the payload is the executable itself.
    Raw,
    /// A zip archive.
    Zip,
    /// A tar archive compressed with bzip2.
    TarBz2,
}

/// The archive family that a file name tells by its extension.
pub open spec fn archive_kind_of(name: Seq<char>) -> ArchiveKind {
    if extension_of(name) == Some("zip"@) {
        ArchiveKind::Zip
    } else if extension_of(name) == Some("bz2"@) {
        ArchiveKind::TarBz2
    } else {
        ArchiveKind::Raw
    }
}

/// The archive family of the payload `name`.
pub fn archive_kind(name: &str) -> (kind: ArchiveKind)
    ensures
        kind == archive_kind_of(name@),
{
    match find_extension_dot(name) {
        Some(i) => {
            let n = name.unicode_len();
            let ext = name.substring_char(i + 1, n);
            if same_text(ext, "zip") {
                ArchiveKind::Zip
            } else if same_text(ext, "bz2") {
                ArchiveKind::TarBz2
            } else {
                ArchiveKind::Raw
            }
        },
        None => ArchiveKind::Raw,
    }
}

/// The directory that holds `path`: the text before its last `/`, which is
/// `/` itself for a file in the root and empty for a bare name. The root
/// and the empty path have no parent.
pub open spec fn parent_of(path: Seq<char>) -> Option<Seq<char>> {
    match path.index_of_last(PATH_SEPARATOR) {
        Some(i) => if i > 0 {
            Some(path.take(i))
        } else if path.len() > 1 {
            Some(path.take(1))
        } else {
            None
        },
        None => if path.len() > 0 {
            Some(Seq::empty())
        } else {
            None
        },
    }
}

/// The directory that holds `path`, if it has one.
pub fn parent_dir<'a>(path: &'a str) -> (parent: Option<&'a str>)
    ensures
        str_opt(parent) == parent_of(path@),
{
    let n = path.unicode_len();
    match find_last(path, PATH_SEPARATOR) {
        Some(i) => if i > 0 {
            Some(path.substring_char(0, i))
        } else if n > 1 {
            Some(path.substring_char(0, 1))
        } else {
            None
        },
        None => if n > 0 {
            Some(path.substring_char(0, 0))
        } else {
            None
        },
    }
}

/// Mask of the three execute bits of a file mode.
pub const EXECUTE_BITS: u32 = 0o111;

/// The mode `rwxr-xr-x`.
pub const EXECUTABLE_MODE: u32 = 0o755;

/// The mode that an installed file gets: a file without any execute bit is
/// set to `rwxr-xr-x`, any other file keeps its mode.
pub open spec fn fixed_mode(mode: u32) -> u32 {
    if mode & EXECUTE_BITS == 0 {
        EXECUTABLE_MODE
    } else {
        mode
    }
}

/// The mode to set on an installed file whose mode is `mode`; see
/// [`fixed_mode`].
pub fn executable_mode(mode: u32) -> (fixed: u32)
    ensures
        fixed == fixed_mode(mode),
        fixed & EXECUTE_BITS != 0,
{
    assert(EXECUTABLE_MODE & EXECUTE_BITS != 0) by (bit_vector);
    if mode & EXECUTE_BITS == 0 {
        EXECUTABLE_MODE
    } else {
        mode
    }
}

/// Why a bundle cannot be hoisted.
#[derive(Clone, Copy, PartialEq, Eq, Debug)]
pub enum HoistError {
    /// The canonical path has no directory above it.
    NoParent,
}

/// The message of a [`HoistError`].
pub open spec fn hoist_error_message(error: HoistError) -> Seq<char> {
    match error {
        HoistError::NoParent => "canonical has no parent directory"@,
    }
}

impl HoistError {
    /// What the caller is told.
    pub fn message(&self) -> (text: &'static str)
        ensures
            text@ == hoist_error_message(*self),
    {
        match self {
            HoistError::NoParent => "canonical has no parent directory",
        }
    }
}

/// One move of a hoist: the item `from` goes to `to`, replacing what is
/// there under that name.
#[derive(Debug, PartialEq, Eq)]
pub struct HoistMove {
    pub from: String,
    pub to: String,
}

/// The hoist of an unpacked bundle: `dest_dir` is made if it is missing,
/// the moves are carried out in order, then the folder `scratch` is removed
/// with whatever is left in it.
#[derive(Debug, PartialEq, Eq)]
pub struct HoistPlan {
    pub dest_dir: String,
    pub moves: Vec<HoistMove>,
    pub scratch: String,
}

/// Mathematical value of a [`HoistPlan`]; each move is a pair of its source
/// and its target.
pub struct HoistView {
    pub dest_dir: Seq<char>,
    pub moves: Seq<(Seq<char>, Seq<char>)>,
    pub scratch: Seq<char>,
}

impl View for HoistPlan {
    type V = HoistView;

    open spec fn view(&self) -> HoistView {
        HoistView {
            dest_dir: self.dest_dir@,
            moves: self.moves@.map_values(|m: HoistMove| (m.from@, m.to@)),
            scratch: self.scratch@,
        }
    }
}

/// The hoist of the folder `bundle_root`, whose items are `children`, into
/// the directory of `canonical`: every item directly under the folder moves
/// up into that directory under its own name. One level is flattened;
/// nothing is merged.
pub open spec fn hoist_of(
    bundle_root: Seq<char>,
    canonical: Seq<char>,
    children: Seq<Seq<char>>,
) -> Result<HoistView, HoistError> {
    match parent_of(canonical) {
        None => Err(HoistError::NoParent),
        Some(dir) => Ok(
            HoistView {
                dest_dir: dir,
                moves: children.map_values(
                    |c: Seq<char>| (path_in(bundle_root, c), path_in(dir, c)),
                ),
                scratch: bundle_root,
            },
        ),
    }
}

/// The view of a hoist that was planned or refused.
pub open spec fn hoist_view(r: Result<HoistPlan, HoistError>) -> Result<HoistView, HoistError> {
    match r {
        Ok(plan) => Ok(plan@),
        Err(e) => Err(e),
    }
}

/// Plans the hoist of the folder `bundle_root` into the directory of
/// `canonical`; see [`hoist_of`]. `children` names the items directly under
/// the folder.
pub fn hoist_plan(bundle_root: &str, canonical: &str, children: &[String]) -> (plan: Result<HoistPlan, HoistError>)
    ensures
        hoist_view(plan) == hoist_of(bundle_root@, canonical@, texts(children@)),
{
    let dir = match parent_dir(canonical) {
        Some(d) => d,
        None => {
            return Err(HoistError::NoParent);
        },
    };
    let mut moves: Vec<HoistMove> = Vec::new();
    let mut i: usize = 0;
    while i < children.len()
        invariant
            i <= children.len(),
            moves@.len() == i,
            forall|j: int|
                0 <= j < i ==> (#[trigger] moves@[j]).from@ == path_in(bundle_root@, children@[j]@)
                    && moves@[j].to@ == path_in(dir@, children@[j]@),
        decreases children.len() - i,
    {
        moves.push(
            HoistMove {
                from: join_path(bundle_root, children[i].as_str()),
                to: join_path(dir, children[i].as_str()),
            },
        );
        i = i + 1;
    }
    let plan = HoistPlan {
        dest_dir: String::from_str(dir),
        moves,
        scratch: String::from_str(bundle_root),
    };
    assert(plan@.moves =~= texts(children@).map_values(
        |c: Seq<char>| (path_in(bundle_root@, c), path_in(dir@, c)),
    ));
    Ok(plan)
}

/// The names in a directory after items named `children` were hoisted into
/// it: what was there under another name stays, in its order, and the
/// hoisted items follow. An item that was there under the name of a hoisted
/// one is replaced by it.
pub open spec fn listing_after(existing: Seq<Seq<char>>, children: Seq<Seq<char>>) -> Seq<Seq<char>> {
    existing.filter(|n: Seq<char>| !children.contains(n)) + children
}

/// The names in a directory that held `existing` after the items `children`
/// were hoisted into it; see [`listing_after`].
pub fn hoisted_listing(existing: &[String], children: &[String]) -> (listing: Vec<String>)
    ensures
        texts(listing@) == listing_after(texts(existing@), texts(children@)),
{
    let ghost kept = |n: Seq<char>| !texts(children@).contains(n);
    let ghost before = texts(existing@);
    let mut listing: Vec<String> = Vec::new();
    let mut i: usize = 0;
    proof {
        reveal(Seq::filter);
        assert(before.take(0) =~= Seq::empty());
        assert(texts(listing@) =~= before.take(0).filter(kept));
    }
    while i < existing.len()
        invariant
            i <= existing.len(),
            before == texts(existing@),
            kept == (|n: Seq<char>| !texts(children@).contains(n)),
            texts(listing@) == before.take(i as int).filter(kept),
        decreases existing.len() - i,
    {
        let replaced = holds(children, existing[i].as_str());
        proof {
            lemma_filter_push(before.take(i as int), before[i as int], kept);
            assert(before.take(i + 1) =~= before.take(i as int).push(before[i as int]));
        }
        if !replaced {
            let ghost so_far = texts(listing@);
            listing.push(existing[i].clone());
            assert(texts(listing@) =~= so_far.push(before[i as int]));
        }
        i = i + 1;
    }
    assert(before.take(existing.len() as int) =~= before);
    let ghost stayed = texts(listing@);
    let mut k: usize = 0;
    while k < children.len()
        invariant
            k <= children.len(),
            texts(listing@) == stayed + texts(children@).take(k as int),
        decreases children.len() - k,
    {
        let ghost so_far = texts(listing@);
        listing.push(children[k].clone());
        assert(texts(listing@) =~= so_far.push(children@[k as int]@));
        assert(texts(children@).take(k + 1) =~= texts(children@).take(k as int).push(
            children@[k as int]@,
        ));
        k = k + 1;
    }
    assert(texts(children@).take(children.len() as int) =~= texts(children@));
    listing
}

} // verus!
