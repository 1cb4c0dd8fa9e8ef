//! The route that tells whether the gateway is up.

use crate::router::{route_views, Method, Route, RouteView};
use vstd::prelude::*;

verus! {

/// The route that tells whether the gateway is up.
pub open spec fn route_table() -> Seq<RouteView> {
    seq![
        RouteView { method: Method::Get, path: "/"@, protected: false },
    ]
}

/// The route that tells whether the gateway is up.
pub fn routes() -> (routes: Vec<Route>)
    ensures
        route_views(routes@) == route_table(),
{
    let mut routes: Vec<Route> = Vec::new();
    routes.push(Route::new(Method::Get, "/", false));
    assert(route_views(routes@) =~= route_table());
    routes
}

} // verus!
