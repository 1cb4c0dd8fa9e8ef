//! The REST surface: its routes, and the answers that need no state.

pub mod addons_router;
pub mod extensions_router;
pub mod login_router;
pub mod new_things_router;
pub mod ping_router;
pub mod settings_router;
pub mod things_router;
pub mod users_router;

use vstd::prelude::*;
use vstd::string::StringExecFns;

verus! {

/// The methods of the routes.
#[derive(Debug, Clone, Copy, PartialEq, Eq, Structural)]
pub enum Method {
    Get,
    Put,
    Post,
    Patch,
    Delete,
}

/// A route: a method, a path pattern in which `<name>` stands for one
/// segment, and whether a request must carry a valid token.
#[derive(Debug, Clone, PartialEq, Eq)]
pub struct Route {
    pub method: Method,
    pub path: String,
    pub protected: bool,
}

/// What a [`Route`] says.
pub struct RouteView {
    pub method: Method,
    pub path: Seq<char>,
    pub protected: bool,
}

impl View for Route {
    type V = RouteView;

    open spec fn view(&self) -> RouteView {
        RouteView { method: self.method, path: self.path@, protected: self.protected }
    }
}

/// What a list of routes says.
pub open spec fn route_views(routes: Seq<Route>) -> Seq<RouteView> {
    Seq::new(routes.len(), |i: int| routes[i]@)
}

impl Route {
    /// The route with this method and path.
    pub fn new(method: Method, path: &str, protected: bool) -> (route: Route)
        ensures
            route@ == (RouteView { method, path: path@, protected }),
    {
        Route { method, path: path.to_owned(), protected }
    }
}

/// A route below a base: the base is put in front of the path.
pub open spec fn mounted(base: Seq<char>, route: RouteView) -> RouteView {
    RouteView { path: base + route.path, ..route }
}

/// Routes below a base.
pub open spec fn mounted_all(base: Seq<char>, routes: Seq<RouteView>) -> Seq<RouteView> {
    Seq::new(routes.len(), |i: int| mounted(base, routes[i]))
}

/// The routes of the whole surface: those of each router below its base, in
/// the order in which the routers are mounted.
pub open spec fn all_routes() -> Seq<RouteView> {
    mounted_all("/addons"@, addons_router::route_table()) + mounted_all(
        "/extensions"@,
        extensions_router::route_table(),
    ) + mounted_all("/login"@, login_router::route_table()) + mounted_all(
        "/ping"@,
        ping_router::route_table(),
    ) + mounted_all("/settings"@, settings_router::route_table()) + mounted_all(
        "/things"@,
        things_router::route_table(),
    ) + mounted_all("/users"@, users_router::route_table()) + mounted_all(
        "/new_things"@,
        new_things_router::route_table(),
    )
}

fn mount_at(table: &mut Vec<Route>, base: &str, routes: Vec<Route>)
    ensures
        route_views(final(table)@) == route_views(old(table)@) + mounted_all(
            base@,
            route_views(routes@),
        ),
{
    let mut i: usize = 0;
    while i < routes.len()
        invariant
            i <= routes@.len(),
            route_views(table@) == route_views(old(table)@) + mounted_all(
                base@,
                route_views(routes@),
            ).take(i as int),
        decreases routes@.len() - i,
    {
        let mut path = base.to_owned();
        path.append(routes[i].path.as_str());
        let ghost before = table@;
        table.push(Route { method: routes[i].method, path, protected: routes[i].protected });
        proof {
            let all = mounted_all(base@, route_views(routes@));
            assert(route_views(table@) =~= route_views(before).push(all[i as int]));
            assert(all.take(i + 1) =~= all.take(i as int).push(all[i as int]));
        }
        i += 1;
        assert(route_views(table@) =~= route_views(old(table)@) + mounted_all(
            base@,
            route_views(routes@),
        ).take(i as int));
    }
    proof {
        let all = mounted_all(base@, route_views(routes@));
        assert(all.take(i as int) =~= all);
    }
}

/// Mounts every router below its base, after the routes that `table` holds
/// already.
pub fn mount(table: Vec<Route>) -> (full: Vec<Route>)
    ensures
        route_views(full@) == route_views(table@) + all_routes(),
{
    let mut full = table;
    mount_at(&mut full, "/addons", addons_router::routes());
    mount_at(&mut full, "/extensions", extensions_router::routes());
    mount_at(&mut full, "/login", login_router::routes());
    mount_at(&mut full, "/ping", ping_router::routes());
    mount_at(&mut full, "/settings", settings_router::routes());
    mount_at(&mut full, "/things", things_router::routes());
    mount_at(&mut full, "/users", users_router::routes());
    mount_at(&mut full, "/new_things", new_things_router::routes());
    proof {
        assert(route_views(full@) =~= route_views(table@) + all_routes());
    }
    full
}

} // verus!
