//! The administrative interface: which path leads to which operation.

use vstd::prelude::*;
use crate::table::Table;

pub mod config;
pub mod plugin;
pub mod server;

verus! {

/// The operations of the administrative interface.
#[derive(Clone, Copy, Debug, PartialEq, Eq, Structural)]
pub enum Endpoint {
    ConfigGet,
    ConfigList,
    ConfigUpdate,
    PluginList,
    PluginEnable,
    PluginDel,
    PluginLog,
    PluginClearLog,
    PluginReload,
    PluginTreeNames,
    PluginTreeList,
    ServerInfo,
    ServerRestart,
    ServerDownloadCa,
}

/// The table from paths to operations.
pub type Router = Table<String, Endpoint>;

/// Puts a path into the table.
pub fn add_route(router: &mut Router, path: &str, endpoint: Endpoint)
    requires
        old(router).wf(),
    ensures
        final(router).wf(),
        final(router).map() == old(router).map().insert(path@, endpoint),
{
    router.insert(path.to_owned(), endpoint);
}

/// The table with all paths.
pub fn router() -> (r: Router)
    ensures
        r.wf(),
        r.map() == server::routes(plugin::routes(config::routes(Map::empty()))),
{
    let mut r: Router = Table::new();
    config::route(&mut r);
    plugin::route(&mut r);
    server::route(&mut r);
    r
}

/// The operation that a path leads to; a path that leads nowhere is answered
/// with status 404.
pub fn handle_api(router: &Router, path: &String) -> (r: Option<Endpoint>)
    ensures
        match r {
            Some(e) => router.has(path@) && e == router.value(path@),
            None => !router.has(path@),
        },
{
    match router.get(path) {
        Some(e) => Some(*e),
        None => None,
    }
}

} // verus!
