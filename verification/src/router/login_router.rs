//! The route by which a user logs in.

use crate::router::{route_views, Method, Route, RouteView};
use vstd::prelude::*;

verus! {

/// What a user sends to log in.
#[derive(Debug, Clone, PartialEq, Eq)]
pub struct Login {
    pub email: String,
    pub password: String,
}

/// The route by which a user logs in.
pub open spec fn route_table() -> Seq<RouteView> {
    seq![RouteView { method: Method::Post, path: "/"@, protected: false }]
}

/// The route by which a user logs in.
pub fn routes() -> (routes: Vec<Route>)
    ensures
        route_views(routes@) == route_table(),
{
    let mut routes: Vec<Route> = Vec::new();
    routes.push(Route::new(Method::Post, "/", false));
    assert(route_views(routes@) =~= route_table());
    routes
}

} // verus!
