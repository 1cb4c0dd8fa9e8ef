//! The routes of the things: listing, one thing, adoption.

use crate::router::{route_views, Method, Route, RouteView};
use vstd::prelude::*;

verus! {

/// The routes of the things: listing, one thing, adoption.
pub open spec fn route_table() -> Seq<RouteView> {
    seq![
        RouteView { method: Method::Get, path: "/"@, protected: true },
        RouteView { method: Method::Get, path: "/<thing_id>"@, protected: true },
        RouteView { method: Method::Post, path: "/"@, protected: true },
    ]
}

/// The routes of the things: listing, one thing, adoption.
pub fn routes() -> (routes: Vec<Route>)
    ensures
        route_views(routes@) == route_table(),
{
    let mut routes: Vec<Route> = Vec::new();
    routes.push(Route::new(Method::Get, "/", true));
    routes.push(Route::new(Method::Get, "/<thing_id>", true));
    routes.push(Route::new(Method::Post, "/", true));
    assert(route_views(routes@) =~= route_table());
    routes
}

} // verus!
