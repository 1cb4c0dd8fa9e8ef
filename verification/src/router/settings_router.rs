//! The settings that the gateway reports about itself.

use crate::router::{route_views, Method, Route, RouteView};
use vstd::prelude::*;

verus! {

/// A language that the gateway can speak.
#[derive(Debug, Clone, PartialEq, Eq)]
pub struct Language {
    pub code: String,
    pub name: String,
}

/// The language in use and the languages to choose from.
#[derive(Debug, Clone, PartialEq, Eq)]
pub struct CurrentLanguage {
    pub current: String,
    pub valid: Vec<Language>,
}

/// The units in which values are shown.
#[derive(Debug, Clone, PartialEq, Eq)]
pub struct Units {
    pub temperature: String,
}

/// The time zone in use and the time zones to choose from.
#[derive(Debug, Clone, PartialEq, Eq)]
pub struct CurrentTimezone {
    pub current: String,
    pub set_implemented: bool,
    pub valid: Vec<String>,
}

/// What an add-on store needs to know of this gateway.
#[derive(Debug, Clone, PartialEq, Eq)]
pub struct AddonsInfo {
    pub urls: Vec<String>,
    pub architecture: String,
    pub version: String,
    pub node_version: u32,
    pub python_versions: Vec<String>,
}

impl Units {
    /// A copy of the units.
    pub fn duplicate(&self) -> (copy: Units)
        ensures
            copy == *self,
    {
        Units { temperature: self.temperature.clone() }
    }
}

/// The language settings: American English, and nothing else to choose.
pub fn get_language() -> (language: CurrentLanguage)
    ensures
        language.current@ == "en-US"@,
        language.valid@.len() == 1,
        language.valid@[0].code@ == "en-US"@,
        language.valid@[0].name@ == "English (United States of America)"@,
{
    let mut valid: Vec<Language> = Vec::new();
    valid.push(
        Language {
            code: "en-US".to_owned(),
            name: "English (United States of America)".to_owned(),
        },
    );
    CurrentLanguage { current: "en-US".to_owned(), valid }
}

/// The units: temperatures in degrees Celsius.
pub fn get_units() -> (units: Units)
    ensures
        units.temperature@ == "degree celsius"@,
{
    Units { temperature: "degree celsius".to_owned() }
}

/// The time zone settings: Berlin, which can be set, and nothing else to
/// choose.
pub fn get_timezone() -> (timezone: CurrentTimezone)
    ensures
        timezone.current@ == "Europe/Berlin"@,
        timezone.set_implemented,
        timezone.valid@.len() == 1,
        timezone.valid@[0]@ == "Europe/Berlin"@,
{
    let mut valid: Vec<String> = Vec::new();
    valid.push("Europe/Berlin".to_owned());
    CurrentTimezone { current: "Europe/Berlin".to_owned(), set_implemented: true, valid }
}

/// The routes of the settings: language, units, time zone, and what an add-on store needs to know.
pub open spec fn route_table() -> Seq<RouteView> {
    seq![
        RouteView { method: Method::Get, path: "/localization/language"@, protected: true },
        RouteView { method: Method::Get, path: "/localization/units"@, protected: true },
        RouteView { method: Method::Get, path: "/localization/timezone"@, protected: true },
        RouteView { method: Method::Get, path: "/addonsInfo"@, protected: true },
    ]
}

/// The routes of the settings: language, units, time zone, and what an add-on store needs to know.
pub fn routes() -> (routes: Vec<Route>)
    ensures
        route_views(routes@) == route_table(),
{
    let mut routes: Vec<Route> = Vec::new();
    routes.push(Route::new(Method::Get, "/localization/language", true));
    routes.push(Route::new(Method::Get, "/localization/units", true));
    routes.push(Route::new(Method::Get, "/localization/timezone", true));
    routes.push(Route::new(Method::Get, "/addonsInfo", true));
    assert(route_views(routes@) =~= route_table());
    routes
}

} // verus!
