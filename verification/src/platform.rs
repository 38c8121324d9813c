//! Platform keys such as `linux-x86_64`, and the choice of a tool's file for
//! the running platform.

use crate::assoc::{find_key, first_match, lemma_find_key, lemma_first_match, Entries};
use crate::manifest::{FileInfo, FileView, ToolInfo};
use crate::text::{before_first, has_prefix, head_before, join3, same_text};
use vstd::prelude::*;

verus! {

/// Separates the operating-system token of a platform key from the
/// architecture token.
pub const PLATFORM_SEPARATOR: char = '-';

/// The operating-system token for the name by which the running system
/// calls itself: Apple's desktop system goes by `darwin`, every other system
/// by its own name.
pub open spec fn os_token(os: Seq<char>) -> Seq<char> {
    if os == "macos"@ {
        "darwin"@
    } else {
        os
    }
}

/// The platform key of a system: `{os token}-{architecture}`.
pub open spec fn platform_key(os: Seq<char>, arch: Seq<char>) -> Seq<char> {
    os_token(os) + "-"@ + arch
}

/// The platform key for the operating system and architecture that the
/// running program reports.
pub fn current_platform(os: &str, arch: &str) -> (key: String)
    ensures
        key@ == platform_key(os@, arch@),
{
    let token = if same_text(os, "macos") {
        "darwin"
    } else {
        os
    };
    join3(token, "-", arch)
}

/// The operating-system part of a platform key: the text before its first
/// separator.
pub open spec fn os_of(key: Seq<char>) -> Seq<char> {
    before_first(key, PLATFORM_SEPARATOR)
}

/// The predicate "this entry's key begins with `os`".
pub open spec fn shares_os<V>(os: Seq<char>) -> spec_fn((Seq<char>, V)) -> bool {
    |e: (Seq<char>, V)| os.is_prefix_of(e.0)
}

/// Index of the file chosen for `key`: the file stored under exactly that
/// key, else the first file whose key begins with the key's operating system.
pub open spec fn select_index<V>(files: Entries<V>, key: Seq<char>) -> Option<int> {
    match find_key(files, key) {
        Some(i) => Some(i),
        None => first_match(files, shares_os::<V>(os_of(key))),
    }
}

/// The file chosen for `key`, with the key it is stored under.
pub open spec fn select_file_spec(files: Entries<FileView>, key: Seq<char>) -> Option<
    (Seq<char>, FileView),
> {
    match select_index(files, key) {
        Some(i) => Some(files[i]),
        None => None,
    }
}

/// Chooses the file of `tool` for the platform `key`: an exact match wins;
/// otherwise the first file for the same operating system stands in. `None`
/// means that the tool does not support the platform.
pub fn select_file<'a>(tool: &'a ToolInfo, key: &str) -> (chosen: Option<(&'a String, &'a FileInfo)>)
    ensures
        match chosen {
            Some(c) => select_file_spec(tool@.files, key@) == Some((c.0@, c.1@)),
            None => select_file_spec(tool@.files, key@) is None,
        },
{
    let n = tool.file_count();
    let ghost files = tool@.files;
    let mut i: usize = 0;
    while i < n
        invariant
            i <= n == files.len(),
            files == tool@.files,
            forall|j: int| 0 <= j < i ==> (#[trigger] files[j]).0 != key@,
        decreases n - i,
    {
        let entry = tool.file_at(i);
        if same_text(entry.0.as_str(), key) {
            proof {
                lemma_find_key(files, key@);
            }
            return Some(entry);
        }
        i = i + 1;
    }
    proof {
        lemma_find_key(files, key@);
    }
    let os = head_before(key, PLATFORM_SEPARATOR);
    let ghost same_os = shares_os::<FileView>(os_of(key@));
    let mut k: usize = 0;
    while k < n
        invariant
            k <= n == files.len(),
            files == tool@.files,
            os@ == os_of(key@),
            same_os == shares_os::<FileView>(os_of(key@)),
            find_key(files, key@) is None,
            forall|j: int| 0 <= j < k ==> !same_os(#[trigger] files[j]),
        decreases n - k,
    {
        let entry = tool.file_at(k);
        if has_prefix(entry.0.as_str(), os) {
            proof {
                assert(same_os(files[k as int]));
                lemma_first_match(files, same_os);
            }
            return Some(entry);
        }
        k = k + 1;
    }
    proof {
        lemma_first_match(files, same_os);
    }
    None
}

} // verus!
