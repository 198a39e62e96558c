//! The paths of the plugins.

use vstd::prelude::*;
use crate::api::{add_route, Endpoint, Router};

verus! {

/// A table of paths with the paths of the plugins.
pub open spec fn routes(m: Map<Seq<char>, Endpoint>) -> Map<Seq<char>, Endpoint> {
    m.insert("/plugin/list"@, Endpoint::PluginList).insert(
        "/plugin/enable"@,
        Endpoint::PluginEnable,
    ).insert("/plugin/del"@, Endpoint::PluginDel).insert("/plugin/log"@, Endpoint::PluginLog).insert(
        "/plugin/clearLog"@,
        Endpoint::PluginClearLog,
    ).insert("/plugin/reload"@, Endpoint::PluginReload).insert(
        "/plugin/treeNames"@,
        Endpoint::PluginTreeNames,
    ).insert("/plugin/treeList"@, Endpoint::PluginTreeList)
}

/// Adds the paths of the plugins.
pub fn route(router: &mut Router)
    requires
        old(router).wf(),
    ensures
        final(router).wf(),
        final(router).map() == routes(old(router).map()),
{
    add_route(router, "/plugin/list", Endpoint::PluginList);
    add_route(router, "/plugin/enable", Endpoint::PluginEnable);
    add_route(router, "/plugin/del", Endpoint::PluginDel);
    add_route(router, "/plugin/log", Endpoint::PluginLog);
    add_route(router, "/plugin/clearLog", Endpoint::PluginClearLog);
    add_route(router, "/plugin/reload", Endpoint::PluginReload);
    add_route(router, "/plugin/treeNames", Endpoint::PluginTreeNames);
    add_route(router, "/plugin/treeList", Endpoint::PluginTreeList);
}

} // verus!
