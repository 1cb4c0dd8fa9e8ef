//! The routes of the users: count, listing, one user, creation, change and removal. The count is open to all, and so is the creation of the first user.

use crate::router::{route_views, Method, Route, RouteView};
use vstd::prelude::*;

verus! {

/// The routes of the users: count, listing, one user, creation, change and removal. The count is open to all, and so is the creation of the first user.
pub open spec fn route_table() -> Seq<RouteView> {
    seq![
        RouteView { method: Method::Get, path: "/count"@, protected: false },
        RouteView { method: Method::Get, path: "/info"@, protected: true },
        RouteView { method: Method::Get, path: "/<user_id>"@, protected: true },
        RouteView { method: Method::Post, path: "/"@, protected: false },
        RouteView { method: Method::Put, path: "/<user_id>"@, protected: true },
        RouteView { method: Method::Delete, path: "/<user_id>"@, protected: true },
    ]
}

/// The routes of the users: count, listing, one user, creation, change and removal. The count is open to all, and so is the creation of the first user.
pub fn routes() -> (routes: Vec<Route>)
    ensures
        route_views(routes@) == route_table(),
{
    let mut routes: Vec<Route> = Vec::new();
    routes.push(Route::new(Method::Get, "/count", false));
    routes.push(Route::new(Method::Get, "/info", true));
    routes.push(Route::new(Method::Get, "/<user_id>", true));
    routes.push(Route::new(Method::Post, "/", false));
    routes.push(Route::new(Method::Put, "/<user_id>", true));
    routes.push(Route::new(Method::Delete, "/<user_id>", true));
    assert(route_views(routes@) =~= route_table());
    routes
}

} // verus!
