//! The paths of the settings.

use vstd::prelude::*;
use crate::api::{add_route, Endpoint, Router};

verus! {

/// A table of paths with the paths of the settings.
pub open spec fn routes(m: Map<Seq<char>, Endpoint>) -> Map<Seq<char>, Endpoint> {
    m.insert("/config/get"@, Endpoint::ConfigGet).insert(
        "/config/list"@,
        Endpoint::ConfigList,
    ).insert("/config/update"@, Endpoint::ConfigUpdate)
}

/// Adds the paths of the settings.
pub fn route(router: &mut Router)
    requires
        old(router).wf(),
    ensures
        final(router).wf(),
        final(router).map() == routes(old(router).map()),
{
    add_route(router, "/config/get", Endpoint::ConfigGet);
    add_route(router, "/config/list", Endpoint::ConfigList);
    add_route(router, "/config/update", Endpoint::ConfigUpdate);
}

} // verus!
