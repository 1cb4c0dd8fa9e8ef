//! The routes of the add-ons: listing, enabling and disabling, configuration, license, removal, installation and update.

use crate::router::{route_views, Method, Route, RouteView};
use vstd::prelude::*;

verus! {

/// The routes of the add-ons: listing, enabling and disabling, configuration, license, removal, installation and update.
pub open spec fn route_table() -> Seq<RouteView> {
    seq![
        RouteView { method: Method::Get, path: "/"@, protected: true },
        RouteView { method: Method::Put, path: "/<addon_id>"@, protected: true },
        RouteView { method: Method::Put, path: "/<addon_id>/config"@, protected: true },
        RouteView { method: Method::Get, path: "/<addon_id>/config"@, protected: true },
        RouteView { method: Method::Get, path: "/<addon_id>/license"@, protected: true },
        RouteView { method: Method::Delete, path: "/<addon_id>"@, protected: true },
        RouteView { method: Method::Post, path: "/"@, protected: true },
        RouteView { method: Method::Patch, path: "/<addon_id>"@, protected: true },
    ]
}

/// The routes of the add-ons: listing, enabling and disabling, configuration, license, removal, installation and update.
pub fn routes() -> (routes: Vec<Route>)
    ensures
        route_views(routes@) == route_table(),
{
    let mut routes: Vec<Route> = Vec::new();
    routes.push(Route::new(Method::Get, "/", true));
    routes.push(Route::new(Method::Put, "/<addon_id>", true));
    routes.push(Route::new(Method::Put, "/<addon_id>/config", true));
    routes.push(Route::new(Method::Get, "/<addon_id>/config", true));
    routes.push(Route::new(Method::Get, "/<addon_id>/license", true));
    routes.push(Route::new(Method::Delete, "/<addon_id>", true));
    routes.push(Route::new(Method::Post, "/", true));
    routes.push(Route::new(Method::Patch, "/<addon_id>", true));
    assert(route_views(routes@) =~= route_table());
    routes
}

/// Whether `regex` finds a match of the pattern in the text; `None` where
/// the pattern is no regular expression.
pub uninterp spec fn regex_match(pattern: Seq<char>, text: Seq<char>) -> Option<bool>;

/// Calls `regex::Regex::new` and `Regex::is_match`. The contract only names
/// the result.
#[verifier::external_body]
fn is_match(pattern: &str, text: &str) -> (found: Option<bool>)
    ensures
        found == regex_match(pattern@, text@),
{
    match regex::Regex::new(pattern) {
        Ok(regex) => Some(regex.is_match(text)),
        Err(_) => None,
    }
}

/// The pattern of the names of license files: `LICENSE`, with or without
/// an extension.
pub open spec fn license_pattern() -> Seq<char> {
    "^LICENSE(\\..*)?$"@
}

/// Whether a file with this name is a license file, given what matching
/// the name against the pattern gave.
pub fn is_license(matched: Option<bool>) -> (license: bool)
    ensures
        license == (matched == Some(true)),
{
    match matched {
        Some(found) => found,
        None => false,
    }
}

/// Whether a file with this name is a license file.
pub fn is_license_name(name: &str) -> (license: bool)
    ensures
        license == (regex_match(license_pattern(), name@) == Some(true)),
{
    is_license(is_match("^LICENSE(\\..*)?$", name))
}

/// The place of the first license file among the files with these names.
pub fn find_license(names: &Vec<String>) -> (place: Option<usize>)
    ensures
        match place {
            Some(i) => i < names@.len() && regex_match(license_pattern(), names@[i as int]@)
                == Some(true) && forall|j: int|
                0 <= j < i ==> regex_match(license_pattern(), (#[trigger] names@[j])@) != Some(true),
            None => forall|j: int|
                0 <= j < names@.len() ==> regex_match(license_pattern(), (#[trigger] names@[j])@)
                    != Some(true),
        },
{
    let mut i: usize = 0;
    while i < names.len()
        invariant
            i <= names@.len(),
            forall|j: int|
                0 <= j < i ==> regex_match(license_pattern(), (#[trigger] names@[j])@) != Some(true),
        decreases names@.len() - i,
    {
        if is_license_name(names[i].as_str()) {
            return Some(i);
        }
        i += 1;
    }
    None
}

} // verus!
