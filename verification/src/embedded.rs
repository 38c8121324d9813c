//! Helper binaries compiled into the host application. The host embeds one
//! directory per platform and hands it to these functions; a build without
//! helpers for its platform hands over an empty directory.

use include_dir::Dir;
use vstd::prelude::*;

verus! {

/// `include_dir::Dir`, a directory tree compiled into the program. Nothing
/// is said of what is inside.
#[verifier::external_type_specification]
#[verifier::external_body]
pub struct ExDir<'a>(Dir<'a>);

/// The contents of the file that `dir` holds under `path`, if it holds one.
pub uninterp spec fn embedded_file(dir: Dir<'static>, path: Seq<char>) -> Option<Seq<u8>>;

/// The view of optional bytes.
pub open spec fn bytes_opt(o: Option<&[u8]>) -> Option<Seq<u8>> {
    match o {
        Some(b) => Some(b@),
        None => None,
    }
}

/// The number of entries, files and folders, directly under `dir`.
pub uninterp spec fn embedded_entries(dir: Dir<'static>) -> nat;

/// The number of entries directly under `dir`.
///
/// Calls `Dir::entries` of `include_dir`, which hands out the entries that
/// the directory was built with, and takes the length of that list; the
/// contract only gives that number a name.
#[verifier::external_body]
fn embedded_entry_count(dir: &Dir<'static>) -> (count: usize)
    ensures
        count == embedded_entries(*dir),
{
    dir.entries().len()
}

/// The embedded binary of `tool_name`, if this build carries one.
///
/// Calls `Dir::get_file` and `File::contents` of `include_dir`: the lookup
/// walks the embedded directory and gives the file stored under that path;
/// the contract only gives that answer a name.
#[verifier::external_body]
pub fn embedded_tool_bytes(dir: &Dir<'static>, tool_name: &str) -> (bytes: Option<&'static [u8]>)
    ensures
        bytes_opt(bytes) == embedded_file(*dir, tool_name@),
{
    let file = dir.get_file(tool_name)?;
    Some(file.contents())
}

/// Whether this build carries helper binaries for its platform: it does
/// when the directory that it embeds is not empty. Which helpers those are
/// does not matter.
pub fn has_embedded_binaries(dir: &Dir<'static>) -> (present: bool)
    ensures
        present == (embedded_entries(*dir) > 0),
{
    embedded_entry_count(dir) > 0
}

} // verus!
