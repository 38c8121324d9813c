//! The manifest's table of tools is an `IndexMap` of the `indexmap` crate.
//! This file says what the installer takes for granted of that crate:
//! nothing here is proved.

use crate::assoc::{lookup, upsert};
use crate::manifest::ToolInfo;
use indexmap::IndexMap;
use vstd::prelude::*;

verus! {

/// `indexmap::IndexMap`, a hash map that keeps its entries in the order in
/// which their keys were first inserted. Nothing is said of what is inside.
#[verifier::external_type_specification]
#[verifier::external_body]
#[verifier::reject_recursive_types(K)]
#[verifier::reject_recursive_types(V)]
#[verifier::reject_recursive_types(S)]
pub struct ExIndexMap<K, V, S>(IndexMap<K, V, S>);

/// The entries of a tool table, in the table's order: each tool's name, as
/// its characters, and the tool.
pub uninterp spec fn tool_table(m: IndexMap<String, ToolInfo>) -> Seq<(Seq<char>, ToolInfo)>;

/// `IndexMap::new` gives a table without entries.
#[verifier::external_body]
pub(crate) fn table_new() -> (m: IndexMap<String, ToolInfo>)
    ensures
        tool_table(m) == Seq::<(Seq<char>, ToolInfo)>::empty(),
{
    IndexMap::new()
}

/// `IndexMap::insert`: where the table already holds an equal name, that
/// entry keeps its name and its place and gets the new tool; otherwise the
/// new entry goes last.
#[verifier::external_body]
pub(crate) fn table_insert(m: &mut IndexMap<String, ToolInfo>, name: String, tool: ToolInfo)
    ensures
        tool_table(*final(m)) == upsert(tool_table(*old(m)), name@, tool),
{
    m.insert(name, tool);
}

/// `IndexMap::len` is the number of entries.
#[verifier::external_body]
pub(crate) fn table_len(m: &IndexMap<String, ToolInfo>) -> (n: usize)
    ensures
        n == tool_table(*m).len(),
{
    m.len()
}

/// `IndexMap::get_index` gives the entry at position `i` of the table's
/// order, and nothing from `len()` on.
#[verifier::external_body]
pub(crate) fn table_get_index(m: &IndexMap<String, ToolInfo>, i: usize) -> (entry: Option<(&String, &ToolInfo)>)
    ensures
        match entry {
            Some(e) => i < tool_table(*m).len() && e.0@ == tool_table(*m)[i as int].0 && *e.1
                == tool_table(*m)[i as int].1,
            None => i >= tool_table(*m).len(),
        },
{
    m.get_index(i)
}

/// `IndexMap::get` gives the tool stored under `name`, if there is one.
#[verifier::external_body]
pub(crate) fn table_get<'a>(m: &'a IndexMap<String, ToolInfo>, name: &str) -> (tool: Option<&'a ToolInfo>)
    ensures
        match tool {
            Some(t) => lookup(tool_table(*m), name@) == Some(*t),
            None => lookup(tool_table(*m), name@) is None,
        },
{
    m.get(name)
}

} // verus!
