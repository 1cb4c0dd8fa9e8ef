use webthings_gateway::addon_configuration::AddonConfiguration;
use webthings_gateway::error::Error;
use webthings_gateway::json::{differ, JsonValue};
use webthings_gateway::jwt::{
    extract_jwt, extract_jwt_header, extract_jwt_query, Claims, JSONWebToken, Role,
};
use webthings_gateway::macros::{Custom, ToRocket};
use webthings_gateway::router::settings_router::{get_language, get_timezone, get_units};
use webthings_gateway::router::{
    addons_router, extensions_router, login_router, mount, new_things_router, ping_router,
    settings_router, things_router, users_router, Method, Route,
};
use webthings_gateway::user_config::{default_base_dir, join, UserProfile};

fn has(routes: &[Route], method: Method, path: &str, protected: bool) -> bool {
    routes.iter().any(|r| r.method == method && r.path == path && r.protected == protected)
}

#[test]
fn addon_configuration_holds_the_flag() {
    assert!(AddonConfiguration::new(true).enabled);
    assert!(!AddonConfiguration::new(false).enabled);
}

#[test]
fn json_values_are_canonical() {
    assert_eq!(JsonValue::parse(" { \"b\" : [1, 2.50, \"x\"], \"a\" : null } ").unwrap().as_str(),
        "{\"a\":null,\"b\":[1,2.5,\"x\"]}");
    assert!(JsonValue::parse("{").is_none());
    assert!(JsonValue::parse("").is_none());
    assert_eq!(JsonValue::null().as_str(), "null");
    assert_eq!(JsonValue::boolean(true).as_str(), "true");
    assert_eq!(JsonValue::boolean(false).as_str(), "false");
    assert_eq!(JsonValue::empty_object().as_str(), "{}");
}

#[test]
fn json_strings_are_quoted_and_escaped() {
    assert_eq!(JsonValue::string("plain").as_str(), "\"plain\"");
    assert_eq!(
        JsonValue::string("\"\\\u{8}\t\n\u{c}\r\u{0}\u{1f}\u{7f}é").as_str(),
        "\"\\\"\\\\\\b\\t\\n\\f\\r\\u0000\\u001f\u{7f}é\""
    );
}

#[test]
fn json_values_differ_by_text() {
    let one = Some(JsonValue::parse("1").unwrap());
    let float = Some(JsonValue::parse("1.0").unwrap());
    assert!(differ(&one, &float));
    assert!(differ(&one, &None));
    assert!(!differ(&None, &None));
    assert!(!differ(&one, &Some(JsonValue::parse(" 1 ").unwrap())));
    assert!(one.as_ref().unwrap().same(&one.as_ref().unwrap().duplicate()));
}

#[test]
fn directories_lie_below_the_base() {
    let profile = UserProfile::new("/home/u/.webthings2");
    assert_eq!(profile.addons_dir, "/home/u/.webthings2/addons");
    assert_eq!(profile.config_dir, "/home/u/.webthings2/config");
    assert_eq!(profile.data_dir, "/home/u/.webthings2/data");
    assert_eq!(profile.log_dir, "/home/u/.webthings2/log");
    assert_eq!(profile.media_dir, "/home/u/.webthings2/media");
    assert_eq!(profile.gateway_dir, "/home/u/.webthings2");
    assert_eq!(profile.addon_dir("mock"), "/home/u/.webthings2/addons/mock");
    assert_eq!(profile.database_path(), "/home/u/.webthings2/config/db.sqlite3");
    assert_eq!(default_base_dir("/home/u"), "/home/u/.webthings2");
    assert_eq!(join("a", "b"), "a/b");
    assert_eq!(profile.duplicate(), profile);
}

#[test]
fn bearer_token_is_the_second_word_of_the_only_header() {
    assert_eq!(extract_jwt_header(&vec!["Bearer abc".to_owned()]), Some("abc".to_owned()));
    assert_eq!(
        extract_jwt_header(&vec!["  Bearer\u{a0}abc  def".to_owned()]),
        Some("abc".to_owned())
    );
    assert_eq!(extract_jwt_header(&vec!["bearer abc".to_owned()]), None);
    assert_eq!(extract_jwt_header(&vec!["Bearer".to_owned()]), None);
    assert_eq!(extract_jwt_header(&vec![]), None);
    assert_eq!(
        extract_jwt_header(&vec!["Bearer abc".to_owned(), "Bearer def".to_owned()]),
        None
    );
}

#[test]
fn header_token_wins_over_query_token() {
    assert_eq!(extract_jwt_query(Some(Ok("q".to_owned()))), Some("q".to_owned()));
    assert_eq!(extract_jwt_query(Some(Err(Error::MalformedRequest))), None);
    assert_eq!(extract_jwt_query(None), None);
    assert_eq!(
        extract_jwt(&vec!["Bearer h".to_owned()], Some(Ok("q".to_owned()))),
        Some("h".to_owned())
    );
    assert_eq!(extract_jwt(&vec![], Some(Ok("q".to_owned()))), Some("q".to_owned()));
    assert_eq!(extract_jwt(&vec![], None), None);
}

#[test]
fn tokens_expire_after_a_year() {
    let claims = Claims::issue(7, 1_000).unwrap();
    assert_eq!(claims.user(), 7);
    assert_eq!(claims.role(), Role::UserToken);
    assert_eq!(claims.exp(), 31_537_000);
    assert_eq!(JSONWebToken(claims).user_id(), 7);
    assert!(Claims::issue(7, i64::MAX).is_none());
    assert!(Claims::issue(7, -31_536_001).is_none());
    assert_eq!(Claims::issue(7, -31_536_000).unwrap().exp(), 0);
}

#[test]
fn failures_become_answers() {
    let ok: Result<u8, Error> = Ok(1);
    assert_eq!(ok.to_rocket("no".to_owned(), 400), Ok(1));
    let failed: Result<u8, Error> = Err(Error::Storage);
    assert_eq!(
        failed.to_rocket("Failed to get user".to_owned(), 400),
        Err(Custom { status: 400, message: "Failed to get user".to_owned() })
    );
}

#[test]
fn settings_are_the_fixed_ones() {
    let language = get_language();
    assert_eq!(language.current, "en-US");
    assert_eq!(language.valid.len(), 1);
    assert_eq!(language.valid[0].code, "en-US");
    assert_eq!(language.valid[0].name, "English (United States of America)");
    assert_eq!(get_units().temperature, "degree celsius");
    let timezone = get_timezone();
    assert_eq!(timezone.current, "Europe/Berlin");
    assert!(timezone.set_implemented);
    assert_eq!(timezone.valid, vec!["Europe/Berlin"]);
}

#[test]
fn routers_list_their_routes() {
    assert_eq!(addons_router::routes().len(), 8);
    assert_eq!(extensions_router::routes(), vec![Route::new(Method::Get, "/", true)]);
    assert_eq!(login_router::routes(), vec![Route::new(Method::Post, "/", false)]);
    assert_eq!(new_things_router::routes(), vec![Route::new(Method::Get, "/", true)]);
    assert_eq!(ping_router::routes(), vec![Route::new(Method::Get, "/", false)]);
    assert_eq!(settings_router::routes().len(), 4);
    assert_eq!(things_router::routes().len(), 3);
    assert_eq!(users_router::routes().len(), 6);
    assert!(has(&addons_router::routes(), Method::Patch, "/<addon_id>", true));
    assert!(has(&addons_router::routes(), Method::Get, "/<addon_id>/license", true));
    assert!(has(&users_router::routes(), Method::Get, "/count", false));
}

#[test]
fn mounted_routes_carry_their_base() {
    let routes = mount(vec![Route::new(Method::Get, "/exit", false)]);
    assert_eq!(routes.len(), 1 + 8 + 1 + 1 + 1 + 4 + 3 + 6 + 1);
    assert_eq!(routes[0], Route::new(Method::Get, "/exit", false));
    assert_eq!(routes[1], Route::new(Method::Get, "/addons/", true));
    assert!(has(&routes, Method::Put, "/addons/<addon_id>/config", true));
    assert!(has(&routes, Method::Get, "/extensions/", true));
    assert!(has(&routes, Method::Post, "/login/", false));
    assert!(has(&routes, Method::Get, "/ping/", false));
    assert!(has(&routes, Method::Get, "/settings/localization/language", true));
    assert!(has(&routes, Method::Get, "/settings/localization/units", true));
    assert!(has(&routes, Method::Get, "/settings/localization/timezone", true));
    assert!(has(&routes, Method::Get, "/settings/addonsInfo", true));
    assert!(has(&routes, Method::Post, "/things/", true));
    assert!(has(&routes, Method::Get, "/users/count", false));
    assert!(has(&routes, Method::Delete, "/users/<user_id>", true));
    assert_eq!(routes[routes.len() - 1], Route::new(Method::Get, "/new_things/", true));
}
