use webthings_gateway::db::{
    flag_to_text, parse_flag, CreateJwt, CreateThing, CreateUser, Db, DeleteUser, EditUser,
    GetJwtPublicKeyByKeyId, GetJwtsByUser, GetSetting, GetThing, GetThings, GetUser,
    GetUserCount, GetUsers, SetSetting, SetSettingIfNotExists,
};
use webthings_gateway::device::{DeviceDescription, DeviceDetails};
use webthings_gateway::error::{Error, ErrorKind};
use webthings_gateway::model::User;
use webthings_gateway::models::{DeviceWithoutId, IntoDevice, IntoThing, ThingWithoutId};

fn description() -> DeviceWithoutId {
    DeviceWithoutId {
        details: DeviceDetails {
            at_context: None,
            at_type: None,
            actions: None,
            base_href: None,
            credentials_required: None,
            description: None,
            events: None,
            links: None,
            pin: None,
            title: None,
        },
        properties: None,
    }
}

fn device(id: &str) -> DeviceDescription {
    description().into_device(id.to_owned())
}

fn user(db: &mut Db, email: &str, name: &str) -> User {
    db.store_user(User {
        id: 0,
        email: email.to_owned(),
        password: "hash".to_owned(),
        name: name.to_owned(),
    })
    .unwrap()
}

#[test]
fn test_verify_password() {
    let user = User::new(
        1,
        "test@test".to_owned(),
        "password".to_owned(),
        "Tester".to_owned(),
    )
    .unwrap();
    assert!(user.verify_password("password").unwrap());
    assert!(!user.verify_password("different").unwrap());
}

#[test]
fn password_is_stored_hashed_and_bad_hashes_are_errors() {
    let mut user =
        User::new(1, "a@b".to_owned(), "password".to_owned(), "A".to_owned()).unwrap();
    assert_ne!(user.password, "password");
    assert!(user.password.starts_with("$2"));
    user.set_password("other".to_owned()).unwrap();
    assert!(user.verify_password("other").unwrap());
    user.password = "no hash".to_owned();
    assert_eq!(user.verify_password("other"), Err(Error::InvalidPassword));
    assert_eq!(
        User::new(1, "a@b".to_owned(), "nul\0inside".to_owned(), "A".to_owned()),
        Err(Error::InvalidPassword)
    );
    assert_eq!(
        User::with_hash(1, "a@b".to_owned(), Some("h".to_owned()), "A".to_owned()),
        Ok(User { id: 1, email: "a@b".to_owned(), password: "h".to_owned(), name: "A".to_owned() })
    );
    assert_eq!(
        User::with_hash(1, "a@b".to_owned(), None, "A".to_owned()),
        Err(Error::InvalidPassword)
    );
}

#[test]
fn test_create_things() {
    let mut db = Db::new();
    db.create_thing(CreateThing(device("test1"))).unwrap();
    db.create_thing(CreateThing(device("test2"))).unwrap();
    let things = db.get_things(GetThings);
    assert_eq!(things.len(), 2);
    let first = ThingWithoutId { device: description(), connected: true }
        .into_thing("test1".to_owned());
    assert_eq!(things[0].device.id, first.device.id);
    assert_eq!(things[0].connected, first.connected);
    assert_eq!(things[0].device.details, first.device.details);
    assert_eq!(things[1].id(), "test2");
    assert!(things[1].connected);
}

#[test]
fn test_get_thing() {
    let mut db = Db::new();
    db.create_thing(CreateThing(device("test"))).unwrap();
    let thing = db.get_thing(GetThing("test".to_owned())).unwrap();
    assert_eq!(thing.id(), "test");
    assert!(thing.connected);
    assert!(db.get_thing(GetThing("other".to_owned())).is_none());
}

#[test]
fn creating_a_thing_twice_is_refused() {
    let mut db = Db::new();
    db.create_thing(CreateThing(device("test"))).unwrap();
    assert_eq!(db.create_thing(CreateThing(device("test"))), Err(Error::Storage));
    assert_eq!(db.get_things(GetThings).len(), 1);
    assert_eq!(Error::Storage.kind(), ErrorKind::Storage);
}

#[test]
fn test_set_setting() {
    let mut db = Db::new();
    db.set_setting(SetSetting("foo".to_owned(), "bar".to_owned())).unwrap();
    db.set_setting(SetSetting("more".to_owned(), "42".to_owned())).unwrap();
    db.set_setting(SetSetting("another".to_owned(), flag_to_text(true))).unwrap();
    assert_eq!(db.get_setting(GetSetting("foo".to_owned())).unwrap(), "bar");
    assert_eq!(db.get_setting(GetSetting("more".to_owned())).unwrap(), "42");
    assert_eq!(db.get_flag(&"another".to_owned()), Ok(true));
}

#[test]
fn test_set_setting_overwrite() {
    let mut db = Db::new();
    db.set_setting(SetSetting("foo".to_owned(), "bar".to_owned())).unwrap();
    db.set_setting(SetSetting("foo".to_owned(), "stuff".to_owned())).unwrap();
    assert_eq!(db.get_setting(GetSetting("foo".to_owned())).unwrap(), "stuff");
}

#[test]
fn test_get_setting_wrong_datatype() {
    let mut db = Db::new();
    db.set_setting(SetSetting("foo".to_owned(), "bar".to_owned())).unwrap();
    assert_eq!(db.get_flag(&"foo".to_owned()), Err(Error::Storage));
    assert_eq!(db.get_flag(&"missing".to_owned()), Err(Error::SettingNotFound));
    assert_eq!(
        db.get_setting(GetSetting("missing".to_owned())).err(),
        Some(Error::SettingNotFound)
    );
}

#[test]
fn test_set_setting_if_not_exists() {
    let mut db = Db::new();
    db.set_setting_if_not_exists(SetSettingIfNotExists("foo".to_owned(), "bar".to_owned()))
        .unwrap();
    assert_eq!(db.get_setting(GetSetting("foo".to_owned())).unwrap(), "bar");
    db.set_setting_if_not_exists(SetSettingIfNotExists("foo".to_owned(), "buzz".to_owned()))
        .unwrap();
    assert_eq!(db.get_setting(GetSetting("foo".to_owned())).unwrap(), "bar");
}

#[test]
fn flags_are_written_and_read_exactly() {
    assert_eq!(flag_to_text(true), "true");
    assert_eq!(flag_to_text(false), "false");
    assert_eq!(parse_flag(&"true".to_owned()), Ok(true));
    assert_eq!(parse_flag(&"false".to_owned()), Ok(false));
    assert_eq!(parse_flag(&"True".to_owned()), Err(Error::Storage));
}

#[test]
fn test_get_user_by_id() {
    let mut db = Db::new();
    let created = db
        .create_user(CreateUser(
            "test@test".to_owned(),
            "password".to_owned(),
            "Tester".to_owned(),
        ))
        .unwrap();
    let user = db.get_user(GetUser::ById(created.id)).unwrap();
    assert_eq!(user.id, created.id);
    assert_eq!(user.email, "test@test");
    assert!(user.verify_password("password").unwrap());
    assert_eq!(user.name, "Tester");
}

#[test]
fn test_get_user_by_email() {
    let mut db = Db::new();
    let created = user(&mut db, "test@test", "Tester");
    let found = db.get_user(GetUser::ByEmail(created.email.clone())).unwrap();
    assert_eq!(found.id, created.id);
    assert_eq!(found.name, "Tester");
    assert!(db.get_user(GetUser::ByEmail("nobody".to_owned())).is_none());
    assert!(db.get_user(GetUser::ById(22)).is_none());
}

#[test]
fn user_ids_follow_the_largest_id_in_use() {
    let mut db = Db::new();
    assert_eq!(user(&mut db, "a", "A").id, 1);
    assert_eq!(user(&mut db, "b", "B").id, 2);
    assert_eq!(user(&mut db, "c", "C").id, 3);
    db.delete_user(DeleteUser(2)).unwrap();
    assert_eq!(user(&mut db, "d", "D").id, 4);
    db.delete_user(DeleteUser(4)).unwrap();
    assert_eq!(user(&mut db, "e", "E").id, 4);
}

#[test]
fn a_taken_address_is_refused() {
    let mut db = Db::new();
    user(&mut db, "a", "A");
    let again = db.store_user(User {
        id: 0,
        email: "a".to_owned(),
        password: "h".to_owned(),
        name: "B".to_owned(),
    });
    assert_eq!(again, Err(Error::Storage));
    assert_eq!(db.get_user_count(GetUserCount), 1);
}

#[test]
fn test_edit_user() {
    let mut db = Db::new();
    let created = user(&mut db, "test@test", "Tester");
    db.edit_user(EditUser(User {
        id: created.id,
        email: "foo@bar".to_owned(),
        password: "hash2".to_owned(),
        name: "Peter".to_owned(),
    }))
    .unwrap();
    let edited = db.get_user(GetUser::ById(created.id)).unwrap();
    assert_eq!(edited.email, "foo@bar");
    assert_eq!(edited.password, "hash2");
    assert_eq!(edited.name, "Peter");
}

#[test]
fn edit_keeps_unknown_users_out_and_addresses_unique() {
    let mut db = Db::new();
    let a = user(&mut db, "a", "A");
    let b = user(&mut db, "b", "B");
    let unknown = User { id: 9, email: "z".to_owned(), password: "h".to_owned(), name: "Z".to_owned() };
    assert_eq!(db.edit_user(EditUser(unknown)), Ok(()));
    assert_eq!(db.get_user_count(GetUserCount), 2);
    let clash = User { id: b.id, email: "a".to_owned(), password: "h".to_owned(), name: "B".to_owned() };
    assert_eq!(db.edit_user(EditUser(clash)), Err(Error::Storage));
    assert_eq!(db.get_user(GetUser::ById(b.id)).unwrap().email, "b");
    let same = User { id: a.id, email: "a".to_owned(), password: "h".to_owned(), name: "AA".to_owned() };
    assert_eq!(db.edit_user(EditUser(same)), Ok(()));
    assert_eq!(db.get_user(GetUser::ById(a.id)).unwrap().name, "AA");
}

#[test]
fn test_delete_user() {
    let mut db = Db::new();
    let created = user(&mut db, "test@test", "Tester");
    assert!(db.delete_user(DeleteUser(created.id)).is_ok());
    assert_eq!(db.get_user_count(GetUserCount), 0);
    assert!(db.delete_user(DeleteUser(created.id)).is_ok());
}

#[test]
fn test_get_users() {
    let mut db = Db::new();
    user(&mut db, "test@test", "Tester");
    user(&mut db, "foo@bar", "Peter");
    let users = db.get_users(GetUsers);
    assert_eq!(users.len(), 2);
    assert!(users.iter().any(|u| u.email == "test@test" && u.name == "Tester"));
    assert!(users.iter().any(|u| u.email == "foo@bar" && u.name == "Peter"));
}

#[test]
fn test_get_user_count() {
    let mut db = Db::new();
    assert_eq!(db.get_user_count(GetUserCount), 0);
    user(&mut db, "test@test", "Tester");
    user(&mut db, "foo@bar", "Peter");
    assert_eq!(db.get_user_count(GetUserCount), 2);
}

#[test]
fn test_get_jwt_public_key() {
    let mut db = Db::new();
    let u = user(&mut db, "test@test", "Tester");
    db.create_jwt(CreateJwt("1234".to_owned(), u.id, "key".to_owned())).unwrap();
    assert_eq!(
        db.get_jwt_public_key_by_key_id(GetJwtPublicKeyByKeyId("1234".to_owned())).unwrap(),
        "key"
    );
    assert_eq!(
        db.get_jwt_public_key_by_key_id(GetJwtPublicKeyByKeyId("0".to_owned())).err(),
        Some(Error::TokenNotFound)
    );
}

#[test]
fn tokens_need_a_free_key_id_and_a_user() {
    let mut db = Db::new();
    let u = user(&mut db, "test@test", "Tester");
    db.create_jwt(CreateJwt("1234".to_owned(), u.id, "key".to_owned())).unwrap();
    assert_eq!(
        db.create_jwt(CreateJwt("1234".to_owned(), u.id, "key2".to_owned())),
        Err(Error::Storage)
    );
    assert_eq!(
        db.create_jwt(CreateJwt("2345".to_owned(), u.id + 1, "key".to_owned())),
        Err(Error::Storage)
    );
    assert_eq!(db.get_jwts_by_user(GetJwtsByUser(u.id)).len(), 1);
}

#[test]
fn test_get_jwts_by_user() {
    let mut db = Db::new();
    let user1 = user(&mut db, "test@test", "Tester");
    let user2 = user(&mut db, "foo@bar", "Peter");
    db.create_jwt(CreateJwt("1234".to_owned(), user1.id, "key1".to_owned())).unwrap();
    db.create_jwt(CreateJwt("2345".to_owned(), user1.id, "key2".to_owned())).unwrap();
    db.create_jwt(CreateJwt("3456".to_owned(), user2.id, "key3".to_owned())).unwrap();
    let tokens = db.get_jwts_by_user(GetJwtsByUser(user1.id));
    assert_eq!(tokens.len(), 2);
    assert_eq!(tokens[0].key_id, "1234");
    assert_eq!(tokens[1].public_key, "key2");
    assert_eq!(db.get_jwts_by_user(GetJwtsByUser(user2.id)).len(), 1);
}

#[test]
fn test_delete_user_deletes_jwts() {
    let mut db = Db::new();
    let user1 = user(&mut db, "test@test", "Tester");
    let user2 = user(&mut db, "foo@bar", "Peter");
    db.create_jwt(CreateJwt("1234".to_owned(), user1.id, "key1".to_owned())).unwrap();
    db.create_jwt(CreateJwt("2345".to_owned(), user1.id, "key2".to_owned())).unwrap();
    db.create_jwt(CreateJwt("3456".to_owned(), user2.id, "key3".to_owned())).unwrap();
    db.delete_user(DeleteUser(user1.id)).unwrap();
    assert_eq!(db.get_jwts_by_user(GetJwtsByUser(user1.id)).len(), 0);
    assert_eq!(db.get_jwts_by_user(GetJwtsByUser(user2.id)).len(), 1);
    assert_eq!(db.get_users(GetUsers).len(), 1);
    assert_eq!(db.get_users(GetUsers)[0].email, "foo@bar");
}

#[test]
fn a_hash_replaces_the_stored_one_and_a_failure_keeps_it() {
    let mut user =
        User { id: 3, email: "a@b".to_owned(), password: "old".to_owned(), name: "A".to_owned() };
    assert_eq!(user.set_hash(Some("new".to_owned())), Ok(()));
    assert_eq!(
        user,
        User { id: 3, email: "a@b".to_owned(), password: "new".to_owned(), name: "A".to_owned() }
    );
    assert_eq!(user.set_hash(None), Err(Error::InvalidPassword));
    assert_eq!(user.password, "new");
    assert_eq!(user.set_password("nul\0inside".to_owned()), Err(Error::InvalidPassword));
    assert_eq!(user.password, "new");
}
