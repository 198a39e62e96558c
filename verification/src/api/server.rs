//! The paths of the engine itself.

use vstd::prelude::*;
use crate::api::{add_route, Endpoint, Router};

verus! {

/// A table of paths with the paths of the engine itself.
pub open spec fn routes(m: Map<Seq<char>, Endpoint>) -> Map<Seq<char>, Endpoint> {
    m.insert("/server/serverInfo"@, Endpoint::ServerInfo).insert(
        "/server/restart"@,
        Endpoint::ServerRestart,
    ).insert("/server/downloadCa"@, Endpoint::ServerDownloadCa)
}

/// Adds the paths of the engine itself.
pub fn route(router: &mut Router)
    requires
        old(router).wf(),
    ensures
        final(router).wf(),
        final(router).map() == routes(old(router).map()),
{
    add_route(router, "/server/serverInfo", Endpoint::ServerInfo);
    add_route(router, "/server/restart", Endpoint::ServerRestart);
    add_route(router, "/server/downloadCa", Endpoint::ServerDownloadCa);
}

} // verus!
