//! The route of the extensions.

use crate::router::{route_views, Method, Route, RouteView};
use vstd::prelude::*;

verus! {

/// The route of the extensions.
pub open spec fn route_table() -> Seq<RouteView> {
    seq![
        RouteView { method: Method::Get, path: "/"@, protected: true },
    ]
}

/// The route of the extensions.
pub fn routes() -> (routes: Vec<Route>)
    ensures
        route_views(routes@) == route_table(),
{
    let mut routes: Vec<Route> = Vec::new();
    routes.push(Route::new(Method::Get, "/", true));
    assert(route_views(routes@) =~= route_table());
    routes
}

} // verus!
