//! The repository: settings, things, users and their tokens, kept in
//! memory. The caller persists what it needs to.

use crate::device::DeviceDescription;
use crate::error::Error;
use crate::model::User;
use crate::models::Thing;
use crate::registry::{Entry, Table};
use vstd::prelude::*;

verus! {

/// The request for all things.
#[derive(Debug, Clone, Copy, PartialEq, Eq)]
pub struct GetThings;

/// The request for the thing with this id.
#[derive(Debug, Clone, PartialEq, Eq)]
pub struct GetThing(pub String);

/// The request to adopt this device as a thing.
#[derive(Debug, Clone)]
pub struct CreateThing(pub DeviceDescription);

/// The request to store this text under this key.
#[derive(Debug, Clone, PartialEq, Eq)]
pub struct SetSetting(pub String, pub String);

/// The request to store this text under this key unless the key has a value.
#[derive(Debug, Clone, PartialEq, Eq)]
pub struct SetSettingIfNotExists(pub String, pub String);

/// The request for the text stored under this key.
#[derive(Debug, Clone, PartialEq, Eq)]
pub struct GetSetting(pub String);

/// The request to create a user with this address, password and name.
#[derive(Debug, Clone, PartialEq, Eq)]
pub struct CreateUser(pub String, pub String, pub String);

/// The request to store this user in place of the one with the same id.
#[derive(Debug, Clone, PartialEq, Eq)]
pub struct EditUser(pub User);

/// The request to delete the user with this id.
#[derive(Debug, Clone, Copy, PartialEq, Eq)]
pub struct DeleteUser(pub i64);

/// The request for a user, by address or by id.
#[derive(Debug, Clone, PartialEq, Eq)]
pub enum GetUser {
    ByEmail(String),
    ById(i64),
}

/// The request for all users.
#[derive(Debug, Clone, Copy, PartialEq, Eq)]
pub struct GetUsers;

/// The request for the number of users.
#[derive(Debug, Clone, Copy, PartialEq, Eq)]
pub struct GetUserCount;

/// The request to store a token's public key under its key id for a user.
#[derive(Debug, Clone, PartialEq, Eq)]
pub struct CreateJwt(pub String, pub i64, pub String);

/// The request for the public key stored under this key id.
#[derive(Debug, Clone, PartialEq, Eq)]
pub struct GetJwtPublicKeyByKeyId(pub String);

/// The request for the tokens of the user with this id.
#[derive(Debug, Clone, Copy, PartialEq, Eq)]
pub struct GetJwtsByUser(pub i64);

/// A stored token: its key id, its user and its public key.
#[derive(Debug, Clone, PartialEq, Eq)]
pub struct JwtRecord {
    pub key_id: String,
    pub user: i64,
    pub public_key: String,
}

/// The text of a flag: `true` or `false`.
pub open spec fn flag_text(flag: bool) -> Seq<char> {
    if flag {
        "true"@
    } else {
        "false"@
    }
}

/// The flag that a text stands for, if it stands for one.
pub open spec fn text_flag(text: Seq<char>) -> Option<bool> {
    if text == "true"@ {
        Some(true)
    } else if text == "false"@ {
        Some(false)
    } else {
        None
    }
}

/// The two texts of flags are different, so a flag can be read back.
pub proof fn lemma_flag_round_trip(flag: bool)
    ensures
        text_flag(flag_text(flag)) == Some(flag),
{
    reveal_strlit("true");
    reveal_strlit("false");
    assert("true"@.len() != "false"@.len());
}

/// The text of a flag.
pub fn flag_to_text(flag: bool) -> (text: String)
    ensures
        text@ == flag_text(flag),
{
    if flag {
        "true".to_owned()
    } else {
        "false".to_owned()
    }
}

/// Reads a flag: `true` and `false` are flags, every other text is an error.
pub fn parse_flag(text: &String) -> (flag: Result<bool, Error>)
    ensures
        match text_flag(text@) {
            Some(b) => flag == Ok::<bool, Error>(b),
            None => flag == Err::<bool, Error>(Error::Storage),
        },
{
    let yes = "true".to_owned();
    let no = "false".to_owned();
    if *text == yes {
        Ok(true)
    } else if *text == no {
        Ok(false)
    } else {
        Err(Error::Storage)
    }
}

/// No two users share an id or an address.
pub open spec fn distinct_users(users: Seq<User>) -> bool {
    forall|i: int, j: int|
        0 <= i < j < users.len() ==> (#[trigger] users[i]).id != (#[trigger] users[j]).id
            && users[i].email@ != users[j].email@
}

/// No two tokens share a key id.
pub open spec fn distinct_tokens(tokens: Seq<JwtRecord>) -> bool {
    forall|i: int, j: int|
        0 <= i < j < tokens.len() ==> (#[trigger] tokens[i]).key_id@ != (
        #[trigger] tokens[j]).key_id@
}

/// Whether a user has this id.
pub open spec fn has_user(users: Seq<User>, id: i64) -> bool {
    exists|i: int| 0 <= i < users.len() && (#[trigger] users[i]).id == id
}

/// Whether a user has this address.
pub open spec fn has_email(users: Seq<User>, email: Seq<char>) -> bool {
    exists|i: int| 0 <= i < users.len() && (#[trigger] users[i]).email@ == email
}

/// Whether a token has this key id.
pub open spec fn has_token(tokens: Seq<JwtRecord>, key_id: Seq<char>) -> bool {
    exists|i: int| 0 <= i < tokens.len() && (#[trigger] tokens[i]).key_id@ == key_id
}

/// The largest id among the users, or zero where there is none above it.
pub open spec fn largest_id(users: Seq<User>) -> int
    decreases users.len(),
{
    if users.len() == 0 {
        0
    } else if users.last().id > largest_id(users.drop_last()) {
        users.last().id as int
    } else {
        largest_id(users.drop_last())
    }
}

/// The users without the one with this id.
pub open spec fn users_without(users: Seq<User>, id: i64) -> Seq<User>
    decreases users.len(),
{
    if users.len() == 0 {
        users
    } else if users.last().id == id {
        users_without(users.drop_last(), id)
    } else {
        users_without(users.drop_last(), id).push(users.last())
    }
}

/// The tokens without those of this user.
pub open spec fn tokens_without(tokens: Seq<JwtRecord>, user: i64) -> Seq<JwtRecord>
    decreases tokens.len(),
{
    if tokens.len() == 0 {
        tokens
    } else if tokens.last().user == user {
        tokens_without(tokens.drop_last(), user)
    } else {
        tokens_without(tokens.drop_last(), user).push(tokens.last())
    }
}

/// The tokens of this user.
pub open spec fn tokens_of(tokens: Seq<JwtRecord>, user: i64) -> Seq<JwtRecord>
    decreases tokens.len(),
{
    if tokens.len() == 0 {
        tokens
    } else if tokens.last().user == user {
        tokens_of(tokens.drop_last(), user).push(tokens.last())
    } else {
        tokens_of(tokens.drop_last(), user)
    }
}

/// Taking rows away keeps the others, in their order, and nothing else.
pub proof fn lemma_users_without(users: Seq<User>, id: i64)
    ensures
        users_without(users, id).len() <= users.len(),
        !has_user(users_without(users, id), id),
        forall|j: int|
            0 <= j < users_without(users, id).len() ==> exists|i: int|
                0 <= i < users.len() && users[i] == #[trigger] users_without(users, id)[j],
        distinct_users(users) ==> distinct_users(users_without(users, id)),
        !has_user(users, id) ==> users_without(users, id) == users,
    decreases users.len(),
{
    if users.len() > 0 {
        let init = users.drop_last();
        let last = users.last();
        lemma_users_without(init, id);
        let w = users_without(init, id);
        let out = users_without(users, id);
        assert forall|j: int| 0 <= j < out.len() implies exists|i: int|
            0 <= i < users.len() && users[i] == #[trigger] out[j] by {
            if last.id != id && j == w.len() {
                assert(users[users.len() - 1] == out[j]);
            } else {
                assert(out[j] == w[j]);
                let i = choose|i: int| 0 <= i < init.len() && init[i] == w[j];
                assert(users[i] == out[j]);
            }
        }
        if has_user(out, id) {
            let j = choose|j: int| 0 <= j < out.len() && (#[trigger] out[j]).id == id;
            if last.id != id && j == w.len() {
            } else {
                assert(w[j].id == id);
            }
        }
        if distinct_users(users) {
            assert(distinct_users(init)) by {
                assert forall|a: int, b: int| 0 <= a < b < init.len() implies (#[trigger] init[a]).id
                    != (#[trigger] init[b]).id && init[a].email@ != init[b].email@ by {
                    assert(init[a] == users[a]);
                    assert(init[b] == users[b]);
                }
            }
            if last.id != id {
                assert forall|a: int, b: int| 0 <= a < b < out.len() implies (#[trigger] out[a]).id
                    != (#[trigger] out[b]).id && out[a].email@ != out[b].email@ by {
                    assert(out[a] == w[a]);
                    let i = choose|i: int| 0 <= i < init.len() && init[i] == w[a];
                    assert(users[i] == w[a]);
                    if b == w.len() {
                        assert(out[b] == users[users.len() - 1]);
                    } else {
                        assert(out[b] == w[b]);
                    }
                }
            }
        }
        if !has_user(users, id) {
            assert(last.id != id) by {
                if last.id == id {
                    assert(users[users.len() - 1].id == id);
                }
            }
            assert(!has_user(init, id)) by {
                if has_user(init, id) {
                    let i = choose|i: int| 0 <= i < init.len() && (#[trigger] init[i]).id == id;
                    assert(users[i].id == id);
                }
            }
            assert(users =~= init.push(last));
        }
    }
}

/// Taking a user's tokens away keeps the others, in their order.
pub proof fn lemma_tokens_without(tokens: Seq<JwtRecord>, user: i64)
    ensures
        tokens_without(tokens, user).len() <= tokens.len(),
        forall|j: int|
            0 <= j < tokens_without(tokens, user).len() ==> (#[trigger] tokens_without(
                tokens,
                user,
            )[j]).user != user && exists|i: int|
                0 <= i < tokens.len() && tokens[i] == tokens_without(tokens, user)[j],
        distinct_tokens(tokens) ==> distinct_tokens(tokens_without(tokens, user)),
        tokens_of(tokens_without(tokens, user), user).len() == 0,
        forall|other: i64|
            other != user ==> #[trigger] tokens_of(tokens_without(tokens, user), other)
                == tokens_of(tokens, other),
    decreases tokens.len(),
{
    if tokens.len() > 0 {
        let init = tokens.drop_last();
        let last = tokens.last();
        lemma_tokens_without(init, user);
        let w = tokens_without(init, user);
        let out = tokens_without(tokens, user);
        assert forall|j: int| 0 <= j < out.len() implies (#[trigger] out[j]).user != user
            && exists|i: int| 0 <= i < tokens.len() && tokens[i] == out[j] by {
            if last.user != user && j == w.len() {
                assert(tokens[tokens.len() - 1] == out[j]);
            } else {
                assert(out[j] == w[j]);
                let i = choose|i: int| 0 <= i < init.len() && init[i] == w[j];
                assert(tokens[i] == out[j]);
            }
        }
        if distinct_tokens(tokens) {
            assert(distinct_tokens(init)) by {
                assert forall|a: int, b: int| 0 <= a < b < init.len() implies (
                #[trigger] init[a]).key_id@ != (#[trigger] init[b]).key_id@ by {
                    assert(init[a] == tokens[a]);
                    assert(init[b] == tokens[b]);
                }
            }
            if last.user != user {
                assert forall|a: int, b: int| 0 <= a < b < out.len() implies (
                #[trigger] out[a]).key_id@ != (#[trigger] out[b]).key_id@ by {
                    assert(out[a] == w[a]);
                    let i = choose|i: int| 0 <= i < init.len() && init[i] == w[a];
                    assert(tokens[i] == w[a]);
                    if b == w.len() {
                        assert(out[b] == tokens[tokens.len() - 1]);
                    } else {
                        assert(out[b] == w[b]);
                    }
                }
            }
        }
        if last.user != user {
            assert(out.drop_last() =~= w);
        }
        assert forall|other: i64| other != user implies #[trigger] tokens_of(out, other)
            == tokens_of(tokens, other) by {
            assert(tokens_of(w, other) == tokens_of(init, other));
            if last.user != user {
                assert(out.len() > 0);
                assert(out.drop_last() =~= w);
                assert(out.last() == last);
            } else {
                assert(out == w);
            }
        }
    }
}

/// What the repository holds.
pub struct DbView {
    /// The things in the order in which they were created.
    pub things: Seq<Thing>,
    /// The settings by key.
    pub settings: Map<Seq<char>, Seq<char>>,
    /// The users in the order in which they were created.
    pub users: Seq<User>,
    /// The tokens in the order in which they were created.
    pub tokens: Seq<JwtRecord>,
}

/// Whether a thing has this id.
pub open spec fn has_thing(things: Seq<Thing>, id: Seq<char>) -> bool {
    exists|i: int| 0 <= i < things.len() && (#[trigger] things[i]).device.id@ == id
}

/// No two things share an id.
pub open spec fn distinct_things(things: Seq<Thing>) -> bool {
    forall|i: int, j: int|
        0 <= i < j < things.len() ==> (#[trigger] things[i]).device.id@ != (
        #[trigger] things[j]).device.id@
}

/// The things of the repository.
#[derive(Debug)]
pub struct Things {
    rows: Vec<Thing>,
}

impl View for Things {
    type V = Seq<Thing>;

    closed spec fn view(&self) -> Seq<Thing> {
        self.rows@
    }
}

/// What adopting a device yields: nothing, or the refusal where a thing
/// has the device's id.
pub open spec fn adopt_outcome(things: Seq<Thing>, device: DeviceDescription) -> Result<(), Error> {
    if has_thing(things, device.id@) {
        Err(Error::Storage)
    } else {
        Ok(())
    }
}

/// The things after a device was adopted: the new thing is connected and
/// stands at the end.
pub open spec fn after_adopt(things: Seq<Thing>, device: DeviceDescription) -> Seq<Thing> {
    if has_thing(things, device.id@) {
        things
    } else {
        things.push(Thing { device, connected: true })
    }
}

impl Things {
    /// The validity of the things, which all things have: no id occurs
    /// twice.
    #[verifier::type_invariant]
    spec fn wf(&self) -> bool {
        distinct_things(self.rows@)
    }

    /// No things.
    pub fn new() -> (things: Things)
        ensures
            things@ == Seq::<Thing>::empty(),
    {
        Things { rows: Vec::new() }
    }

    /// All things, in the order in which they were created.
    pub fn all(&self) -> (rows: &Vec<Thing>)
        ensures
            rows@ == self@,
            distinct_things(rows@),
    {
        proof {
            use_type_invariant(self);
        }
        &self.rows
    }

    fn find(&self, id: &String) -> (at: Option<usize>)
        ensures
            match at {
                Some(i) => i < self.rows@.len() && self.rows@[i as int].device.id@ == id@,
                None => !has_thing(self.rows@, id@),
            },
    {
        let mut i: usize = 0;
        while i < self.rows.len()
            invariant
                i <= self.rows@.len(),
                forall|j: int| 0 <= j < i ==> (#[trigger] self.rows@[j]).device.id@ != id@,
            decreases self.rows@.len() - i,
        {
            if self.rows[i].device.id == *id {
                return Some(i);
            }
            i += 1;
        }
        None
    }

    /// The thing with this id.
    pub fn by_id(&self, id: &String) -> (thing: Option<&Thing>)
        ensures
            thing is Some <==> has_thing(self@, id@),
            thing matches Some(t) ==> t.device.id@ == id@ && exists|i: int|
                0 <= i < self@.len() && self@[i] == *t,
    {
        match self.find(id) {
            Some(i) => {
                assert(self@[i as int] == self.rows@[i as int]);
                Some(&self.rows[i])
            },
            None => None,
        }
    }

    /// Adopts a device; see [`after_adopt`].
    pub fn adopt(&mut self, device: DeviceDescription) -> (result: Result<(), Error>)
        ensures
            result == adopt_outcome(old(self)@, device),
            final(self)@ == after_adopt(old(self)@, device),
    {
        proof {
            use_type_invariant(&*self);
        }
        if self.find(&device.id).is_some() {
            return Err(Error::Storage);
        }
        let mut rows: Vec<Thing> = Vec::new();
        core::mem::swap(&mut self.rows, &mut rows);
        rows.push(Thing::adopted(device));
        proof {
            let before = old(self)@;
            assert forall|a: int, b: int| 0 <= a < b < rows@.len() implies (
            #[trigger] rows@[a]).device.id@ != (#[trigger] rows@[b]).device.id@ by {
                assert(rows@[a] == before[a]);
                if b < before.len() {
                    assert(rows@[b] == before[b]);
                }
            }
        }
        self.rows = rows;
        Ok(())
    }
}

/// The users of the repository.
#[derive(Debug)]
pub struct Users {
    rows: Vec<User>,
}

impl View for Users {
    type V = Seq<User>;

    closed spec fn view(&self) -> Seq<User> {
        self.rows@
    }
}

impl Users {
    /// The validity of the users, which all users have: no id and no
    /// address occurs twice.
    #[verifier::type_invariant]
    spec fn wf(&self) -> bool {
        distinct_users(self.rows@)
    }

    /// No users.
    pub fn new() -> (users: Users)
        ensures
            users@ == Seq::<User>::empty(),
    {
        Users { rows: Vec::new() }
    }

    /// All users, in the order in which they were created.
    pub fn all(&self) -> (rows: &Vec<User>)
        ensures
            rows@ == self@,
            distinct_users(rows@),
    {
        proof {
            use_type_invariant(self);
        }
        &self.rows
    }

    fn find_id(&self, id: i64) -> (at: Option<usize>)
        ensures
            match at {
                Some(i) => i < self.rows@.len() && self.rows@[i as int].id == id,
                None => !has_user(self.rows@, id),
            },
    {
        let mut i: usize = 0;
        while i < self.rows.len()
            invariant
                i <= self.rows@.len(),
                forall|j: int| 0 <= j < i ==> (#[trigger] self.rows@[j]).id != id,
            decreases self.rows@.len() - i,
        {
            if self.rows[i].id == id {
                return Some(i);
            }
            i += 1;
        }
        None
    }

    fn find_email(&self, email: &String) -> (at: Option<usize>)
        ensures
            match at {
                Some(i) => i < self.rows@.len() && self.rows@[i as int].email@ == email@,
                None => !has_email(self.rows@, email@),
            },
    {
        let mut i: usize = 0;
        while i < self.rows.len()
            invariant
                i <= self.rows@.len(),
                forall|j: int| 0 <= j < i ==> (#[trigger] self.rows@[j]).email@ != email@,
            decreases self.rows@.len() - i,
        {
            if self.rows[i].email == *email {
                return Some(i);
            }
            i += 1;
        }
        None
    }

    /// The user with this id.
    pub fn by_id(&self, id: i64) -> (user: Option<&User>)
        ensures
            user is Some <==> has_user(self@, id),
            user matches Some(u) ==> u.id == id && exists|i: int|
                0 <= i < self@.len() && self@[i] == *u,
    {
        match self.find_id(id) {
            Some(i) => {
                assert(self@[i as int] == self.rows@[i as int]);
                Some(&self.rows[i])
            },
            None => None,
        }
    }

    /// The user with this address.
    pub fn by_email(&self, email: &String) -> (user: Option<&User>)
        ensures
            user is Some <==> has_email(self@, email@),
            user matches Some(u) ==> u.email@ == email@ && exists|i: int|
                0 <= i < self@.len() && self@[i] == *u,
    {
        match self.find_email(email) {
            Some(i) => {
                assert(self@[i as int] == self.rows@[i as int]);
                Some(&self.rows[i])
            },
            None => None,
        }
    }

    /// Stores a new user under the id that follows the largest id in use,
    /// and hands that id out. The user's own `id` is not looked at. A user
    /// whose address is taken is refused, and so is any user once the
    /// largest id is the largest number there is.
    pub fn store(&mut self, user: User) -> (result: Result<i64, Error>)
        ensures
            result == store_outcome(old(self)@, user),
            final(self)@ == after_store(old(self)@, user),
    {
        proof {
            use_type_invariant(&*self);
        }
        if self.find_email(&user.email).is_some() {
            return Err(Error::Storage);
        }
        let largest = self.largest();
        if largest == i64::MAX {
            return Err(Error::Storage);
        }
        let id = largest + 1;
        let row = User { id, email: user.email, password: user.password, name: user.name };
        let mut rows: Vec<User> = Vec::new();
        core::mem::swap(&mut self.rows, &mut rows);
        rows.push(row);
        proof {
            let before = old(self)@;
            assert forall|a: int, b: int| 0 <= a < b < rows@.len() implies (#[trigger] rows@[a]).id
                != (#[trigger] rows@[b]).id && rows@[a].email@ != rows@[b].email@ by {
                assert(rows@[a] == before[a]);
                if b < before.len() {
                    assert(rows@[b] == before[b]);
                }
            }
        }
        self.rows = rows;
        Ok(id)
    }

    /// Stores the address, password and name of `user` in place of those of
    /// the user with the same id. Where no user has that id nothing
    /// changes; where the address belongs to another user the request is
    /// refused.
    pub fn edit(&mut self, user: User) -> (result: Result<(), Error>)
        ensures
            result == edit_outcome(old(self)@, user),
            final(self)@ == after_edit(old(self)@, user),
    {
        proof {
            use_type_invariant(&*self);
        }
        match self.find_id(user.id) {
            None => {
                proof {
                    lemma_position_none(self.rows@, user.id);
                }
                Ok(())
            },
            Some(i) => {
                proof {
                    lemma_position_some(self.rows@, user.id, i as int);
                }
                match self.find_email(&user.email) {
                    Some(j) => {
                        if j != i {
                            proof {
                                lemma_email_taken(self.rows@, user, i as int, j as int);
                            }
                            return Err(Error::Storage);
                        }
                    },
                    None => {},
                }
                proof {
                    lemma_email_free(self.rows@, user, i as int);
                }
                let mut rows: Vec<User> = Vec::new();
                core::mem::swap(&mut self.rows, &mut rows);
                let ghost before = rows@;
                rows.remove(i);
                rows.insert(i, user);
                proof {
                    assert(rows@ =~= before.update(i as int, user));
                    assert forall|a: int, b: int| 0 <= a < b < rows@.len() implies (
                    #[trigger] rows@[a]).id != (#[trigger] rows@[b]).id && rows@[a].email@
                        != rows@[b].email@ by {
                        if a != i {
                            assert(rows@[a] == before[a]);
                        }
                        if b != i {
                            assert(rows@[b] == before[b]);
                        }
                        assert(before[a].id != before[b].id);
                    }
                }
                self.rows = rows;
                Ok(())
            },
        }
    }

    /// Deletes the user with this id, if there is one.
    pub fn delete(&mut self, id: i64)
        ensures
            final(self)@ == users_without(old(self)@, id),
    {
        proof {
            use_type_invariant(&*self);
        }
        let mut kept: Vec<User> = Vec::new();
        let mut rows: Vec<User> = Vec::new();
        core::mem::swap(&mut self.rows, &mut rows);
        let ghost all = rows@;
        let ghost mut taken: int = 0;
        while rows.len() > 0
            invariant
                0 <= taken <= all.len(),
                rows@ == all.subrange(0, all.len() - taken),
                users_without(rows@, id) + kept_reversed(kept@) == users_without(all, id),
            decreases rows@.len(),
        {
            let ghost before = rows@;
            let ghost kept_before = kept@;
            let row = rows.pop().unwrap();
            proof {
                assert(rows@ =~= before.drop_last());
                assert(row == before.last());
                taken = taken + 1;
                assert(rows@ =~= all.subrange(0, all.len() - taken));
            }
            if row.id != id {
                kept.push(row);
                proof {
                    assert(kept@.drop_last() =~= kept_before);
                    assert(kept_reversed(kept@) =~= seq![row] + kept_reversed(kept_before));
                    assert(users_without(before, id) =~= users_without(rows@, id) + seq![row]);
                    assert(users_without(rows@, id) + kept_reversed(kept@) =~= users_without(
                        before,
                        id,
                    ) + kept_reversed(kept_before));
                }
            }
        }
        let mut out: Vec<User> = Vec::new();
        let ghost stack = kept@;
        while kept.len() > 0
            invariant
                kept@.len() <= stack.len(),
                kept@ == stack.subrange(0, kept@.len() as int),
                out@ + kept_reversed(kept@) == kept_reversed(stack),
            decreases kept@.len(),
        {
            let ghost before = kept@;
            let ghost out_before = out@;
            let row = kept.pop().unwrap();
            out.push(row);
            proof {
                assert(kept@ =~= before.drop_last());
                assert(kept@ =~= stack.subrange(0, kept@.len() as int));
                assert(kept_reversed(before) =~= seq![row] + kept_reversed(kept@));
                assert(out@ =~= out_before + seq![row]);
                assert(out@ + kept_reversed(kept@) =~= out_before + kept_reversed(before));
            }
        }
        proof {
            assert(kept_reversed(kept@) =~= Seq::<User>::empty());
            assert(out@ =~= kept_reversed(stack));
            assert(users_without(rows@, id) =~= Seq::<User>::empty());
            assert(out@ =~= users_without(all, id));
            lemma_users_without(all, id);
        }
        self.rows = out;
    }

    fn largest(&self) -> (id: i64)
        ensures
            id == largest_id(self.rows@),
            id >= 0,
            forall|j: int| 0 <= j < self.rows@.len() ==> (#[trigger] self.rows@[j]).id <= id,
    {
        let mut id: i64 = 0;
        let mut i: usize = 0;
        while i < self.rows.len()
            invariant
                i <= self.rows@.len(),
                id == largest_id(self.rows@.take(i as int)),
                id >= 0,
                forall|j: int| 0 <= j < i ==> (#[trigger] self.rows@[j]).id <= id,
            decreases self.rows@.len() - i,
        {
            proof {
                let next = self.rows@.take(i + 1);
                assert(next.drop_last() =~= self.rows@.take(i as int));
                assert(next.last() == self.rows@[i as int]);
            }
            if self.rows[i].id > id {
                id = self.rows[i].id;
            }
            i += 1;
        }
        proof {
            assert(self.rows@.take(i as int) =~= self.rows@);
        }
        id
    }
}

/// The rows of a stack from its top to its bottom.
pub open spec fn kept_reversed<T>(stack: Seq<T>) -> Seq<T>
    decreases stack.len(),
{
    if stack.len() == 0 {
        stack
    } else {
        seq![stack.last()] + kept_reversed(stack.drop_last())
    }
}

/// The place of the user with this id, or the number of users where there
/// is none.
pub open spec fn position_of(users: Seq<User>, id: i64) -> int
    decreases users.len(),
{
    if users.len() == 0 {
        0
    } else if has_user(users.drop_last(), id) || users.last().id != id {
        if has_user(users.drop_last(), id) {
            position_of(users.drop_last(), id)
        } else {
            users.len() as int
        }
    } else {
        users.len() - 1
    }
}

proof fn lemma_position_none(users: Seq<User>, id: i64)
    requires
        !has_user(users, id),
    ensures
        position_of(users, id) == users.len(),
    decreases users.len(),
{
    if users.len() > 0 {
        let init = users.drop_last();
        assert(!has_user(init, id)) by {
            if has_user(init, id) {
                let i = choose|i: int| 0 <= i < init.len() && (#[trigger] init[i]).id == id;
                assert(users[i].id == id);
            }
        }
        assert(users.last().id != id) by {
            if users.last().id == id {
                assert(users[users.len() - 1].id == id);
            }
        }
    }
}

proof fn lemma_position_some(users: Seq<User>, id: i64, at: int)
    requires
        distinct_users(users),
        0 <= at < users.len(),
        users[at].id == id,
    ensures
        position_of(users, id) == at,
        has_user(users, id),
    decreases users.len(),
{
    let init = users.drop_last();
    if at == users.len() - 1 {
        assert(!has_user(init, id)) by {
            if has_user(init, id) {
                let i = choose|i: int| 0 <= i < init.len() && (#[trigger] init[i]).id == id;
                assert(users[i].id == users[at].id);
            }
        }
    } else {
        assert(init[at].id == id);
        assert(has_user(init, id));
        assert(distinct_users(init)) by {
            assert forall|a: int, b: int| 0 <= a < b < init.len() implies (#[trigger] init[a]).id
                != (#[trigger] init[b]).id && init[a].email@ != init[b].email@ by {
                assert(init[a] == users[a]);
                assert(init[b] == users[b]);
            }
        }
        lemma_position_some(init, id, at);
    }
}

/// Whether another user than the one at `at` has this address.
pub open spec fn email_taken(users: Seq<User>, email: Seq<char>, at: int) -> bool {
    exists|j: int| 0 <= j < users.len() && j != at && (#[trigger] users[j]).email@ == email
}

proof fn lemma_email_taken(users: Seq<User>, user: User, at: int, other: int)
    requires
        0 <= other < users.len(),
        other != at,
        users[other].email@ == user.email@,
    ensures
        email_taken(users, user.email@, at),
{
}

proof fn lemma_email_free(users: Seq<User>, user: User, at: int)
    requires
        distinct_users(users),
        0 <= at < users.len(),
        !has_email(users, user.email@) || users[at].email@ == user.email@,
    ensures
        !email_taken(users, user.email@, at),
{
    if email_taken(users, user.email@, at) {
        let j = choose|j: int|
            0 <= j < users.len() && j != at && (#[trigger] users[j]).email@ == user.email@;
        if has_email(users, user.email@) {
            if j < at {
                assert(users[j].email@ != users[at].email@);
            } else {
                assert(users[at].email@ != users[j].email@);
            }
        }
    }
}

/// What storing a new user yields: its id, which follows the largest id in
/// use, or the refusal.
pub open spec fn store_outcome(users: Seq<User>, user: User) -> Result<i64, Error> {
    if has_email(users, user.email@) || largest_id(users) >= i64::MAX {
        Err(Error::Storage)
    } else {
        Ok((largest_id(users) + 1) as i64)
    }
}

/// The users after a new user was stored.
pub open spec fn after_store(users: Seq<User>, user: User) -> Seq<User> {
    match store_outcome(users, user) {
        Ok(id) => users.push(
            User { id, email: user.email, password: user.password, name: user.name },
        ),
        Err(_) => users,
    }
}

/// What an edit yields: nothing, or the refusal where the address belongs
/// to another user.
pub open spec fn edit_outcome(users: Seq<User>, user: User) -> Result<(), Error> {
    if has_user(users, user.id) && email_taken(users, user.email@, position_of(users, user.id)) {
        Err(Error::Storage)
    } else {
        Ok(())
    }
}

/// The users after an edit.
pub open spec fn after_edit(users: Seq<User>, user: User) -> Seq<User> {
    if has_user(users, user.id) && edit_outcome(users, user) is Ok {
        users.update(position_of(users, user.id), user)
    } else {
        users
    }
}

/// The tokens of the repository.
#[derive(Debug)]
pub struct Tokens {
    rows: Vec<JwtRecord>,
}

impl View for Tokens {
    type V = Seq<JwtRecord>;

    closed spec fn view(&self) -> Seq<JwtRecord> {
        self.rows@
    }
}

impl Tokens {
    /// The validity of the tokens, which all tokens have: no key id occurs
    /// twice.
    #[verifier::type_invariant]
    spec fn wf(&self) -> bool {
        distinct_tokens(self.rows@)
    }

    /// No tokens.
    pub fn new() -> (tokens: Tokens)
        ensures
            tokens@ == Seq::<JwtRecord>::empty(),
    {
        Tokens { rows: Vec::new() }
    }

    /// All tokens, in the order in which they were created.
    pub fn all(&self) -> (rows: &Vec<JwtRecord>)
        ensures
            rows@ == self@,
            distinct_tokens(rows@),
    {
        proof {
            use_type_invariant(self);
        }
        &self.rows
    }

    /// The public key stored under this key id.
    pub fn public_key(&self, key_id: &String) -> (key: Result<&String, Error>)
        ensures
            match key {
                Ok(k) => exists|i: int|
                    0 <= i < self@.len() && (#[trigger] self@[i]).key_id@ == key_id@
                        && self@[i].public_key == *k,
                Err(e) => e == Error::TokenNotFound && !has_token(self@, key_id@),
            },
    {
        match self.find(key_id) {
            Some(i) => {
                assert(self@[i as int] == self.rows@[i as int]);
                Ok(&self.rows[i].public_key)
            },
            None => Err(Error::TokenNotFound),
        }
    }

    /// Stores a token. A token whose key id is taken is refused, and so is
    /// one for a user that does not exist.
    pub fn create(&mut self, token: JwtRecord, users: &Users) -> (result: Result<(), Error>)
        ensures
            result == token_outcome(old(self)@, users@, token),
            final(self)@ == after_token(old(self)@, users@, token),
    {
        proof {
            use_type_invariant(&*self);
        }
        if self.find(&token.key_id).is_some() {
            return Err(Error::Storage);
        }
        if users.by_id(token.user).is_none() {
            return Err(Error::Storage);
        }
        let mut rows: Vec<JwtRecord> = Vec::new();
        core::mem::swap(&mut self.rows, &mut rows);
        rows.push(token);
        proof {
            let before = old(self)@;
            assert forall|a: int, b: int| 0 <= a < b < rows@.len() implies (
            #[trigger] rows@[a]).key_id@ != (#[trigger] rows@[b]).key_id@ by {
                assert(rows@[a] == before[a]);
                if b < before.len() {
                    assert(rows@[b] == before[b]);
                }
            }
        }
        self.rows = rows;
        Ok(())
    }

    /// The tokens of this user, in the order in which they were created.
    pub fn of_user(&self, user: i64) -> (tokens: Vec<&JwtRecord>)
        ensures
            tokens@.len() == tokens_of(self@, user).len(),
            forall|i: int|
                0 <= i < tokens@.len() ==> *(#[trigger] tokens@[i]) == tokens_of(self@, user)[i],
    {
        let mut tokens: Vec<&JwtRecord> = Vec::new();
        let mut i: usize = 0;
        while i < self.rows.len()
            invariant
                i <= self.rows@.len(),
                tokens@.len() == tokens_of(self.rows@.take(i as int), user).len(),
                forall|j: int|
                    0 <= j < tokens@.len() ==> *(#[trigger] tokens@[j]) == tokens_of(
                        self.rows@.take(i as int),
                        user,
                    )[j],
            decreases self.rows@.len() - i,
        {
            proof {
                let next = self.rows@.take(i + 1);
                assert(next.drop_last() =~= self.rows@.take(i as int));
                assert(next.last() == self.rows@[i as int]);
            }
            if self.rows[i].user == user {
                tokens.push(&self.rows[i]);
            }
            i += 1;
        }
        proof {
            assert(self.rows@.take(i as int) =~= self.rows@);
        }
        tokens
    }

    /// Deletes the tokens of this user.
    pub fn remove_user(&mut self, user: i64)
        ensures
            final(self)@ == tokens_without(old(self)@, user),
    {
        proof {
            use_type_invariant(&*self);
        }
        let mut kept: Vec<JwtRecord> = Vec::new();
        let mut rows: Vec<JwtRecord> = Vec::new();
        core::mem::swap(&mut self.rows, &mut rows);
        let ghost all = rows@;
        let ghost mut taken: int = 0;
        while rows.len() > 0
            invariant
                0 <= taken <= all.len(),
                rows@ == all.subrange(0, all.len() - taken),
                tokens_without(rows@, user) + kept_reversed(kept@) == tokens_without(all, user),
            decreases rows@.len(),
        {
            let ghost before = rows@;
            let ghost kept_before = kept@;
            let row = rows.pop().unwrap();
            proof {
                assert(rows@ =~= before.drop_last());
                assert(row == before.last());
                taken = taken + 1;
                assert(rows@ =~= all.subrange(0, all.len() - taken));
            }
            if row.user != user {
                kept.push(row);
                proof {
                    assert(kept@.drop_last() =~= kept_before);
                    assert(kept_reversed(kept@) =~= seq![row] + kept_reversed(kept_before));
                    assert(tokens_without(before, user) =~= tokens_without(rows@, user) + seq![row]);
                    assert(tokens_without(rows@, user) + kept_reversed(kept@) =~= tokens_without(
                        before,
                        user,
                    ) + kept_reversed(kept_before));
                }
            }
        }
        let mut out: Vec<JwtRecord> = Vec::new();
        let ghost stack = kept@;
        while kept.len() > 0
            invariant
                kept@.len() <= stack.len(),
                kept@ == stack.subrange(0, kept@.len() as int),
                out@ + kept_reversed(kept@) == kept_reversed(stack),
            decreases kept@.len(),
        {
            let ghost before = kept@;
            let ghost out_before = out@;
            let row = kept.pop().unwrap();
            out.push(row);
            proof {
                assert(kept@ =~= before.drop_last());
                assert(kept@ =~= stack.subrange(0, kept@.len() as int));
                assert(kept_reversed(before) =~= seq![row] + kept_reversed(kept@));
                assert(out@ =~= out_before + seq![row]);
                assert(out@ + kept_reversed(kept@) =~= out_before + kept_reversed(before));
            }
        }
        proof {
            assert(kept_reversed(kept@) =~= Seq::<JwtRecord>::empty());
            assert(out@ =~= kept_reversed(stack));
            assert(tokens_without(rows@, user) =~= Seq::<JwtRecord>::empty());
            assert(out@ =~= tokens_without(all, user));
            lemma_tokens_without(all, user);
        }
        self.rows = out;
    }

    fn find(&self, key_id: &String) -> (at: Option<usize>)
        ensures
            match at {
                Some(i) => i < self.rows@.len() && self.rows@[i as int].key_id@ == key_id@,
                None => !has_token(self.rows@, key_id@),
            },
    {
        let mut i: usize = 0;
        while i < self.rows.len()
            invariant
                i <= self.rows@.len(),
                forall|j: int| 0 <= j < i ==> (#[trigger] self.rows@[j]).key_id@ != key_id@,
            decreases self.rows@.len() - i,
        {
            if self.rows[i].key_id == *key_id {
                return Some(i);
            }
            i += 1;
        }
        None
    }
}

/// What storing a token yields.
pub open spec fn token_outcome(tokens: Seq<JwtRecord>, users: Seq<User>, token: JwtRecord) -> Result<
    (),
    Error,
> {
    if has_token(tokens, token.key_id@) || !has_user(users, token.user) {
        Err(Error::Storage)
    } else {
        Ok(())
    }
}

/// The tokens after a token was stored.
pub open spec fn after_token(
    tokens: Seq<JwtRecord>,
    users: Seq<User>,
    token: JwtRecord,
) -> Seq<JwtRecord> {
    if token_outcome(tokens, users, token) is Ok {
        tokens.push(token)
    } else {
        tokens
    }
}

/// The repository.
#[derive(Debug)]
pub struct Db {
    things: Things,
    settings: Table<String>,
    users: Users,
    tokens: Tokens,
}

/// The texts of a table of settings.
pub open spec fn setting_texts(settings: Map<Seq<char>, String>) -> Map<Seq<char>, Seq<char>> {
    settings.map_values(|text: String| text@)
}

impl View for Db {
    type V = DbView;

    closed spec fn view(&self) -> DbView {
        DbView {
            things: self.things@,
            settings: setting_texts(self.settings@),
            users: self.users@,
            tokens: self.tokens@,
        }
    }
}

/// What the request for a setting yields.
pub open spec fn setting_outcome(settings: Map<Seq<char>, Seq<char>>, key: Seq<char>) -> Result<
    Seq<char>,
    Error,
> {
    if settings.contains_key(key) {
        Ok(settings[key])
    } else {
        Err(Error::SettingNotFound)
    }
}

/// The settings after a text was stored under a key that may have a value.
pub open spec fn with_setting(
    settings: Map<Seq<char>, Seq<char>>,
    key: Seq<char>,
    text: Seq<char>,
) -> Map<Seq<char>, Seq<char>> {
    settings.insert(key, text)
}

/// The settings after a text was stored under a key unless it had a value.
pub open spec fn with_default(
    settings: Map<Seq<char>, Seq<char>>,
    key: Seq<char>,
    text: Seq<char>,
) -> Map<Seq<char>, Seq<char>> {
    if settings.contains_key(key) {
        settings
    } else {
        settings.insert(key, text)
    }
}

/// A stored text is read back as it was stored; a default is read back
/// only where the key had no value, and leaves a value that was there.
pub proof fn law_settings_read_back(
    settings: Map<Seq<char>, Seq<char>>,
    key: Seq<char>,
    text: Seq<char>,
)
    ensures
        setting_outcome(with_setting(settings, key, text), key) == Ok::<Seq<char>, Error>(text),
        setting_outcome(with_default(settings, key, text), key) == if settings.contains_key(key) {
            Ok::<Seq<char>, Error>(settings[key])
        } else {
            Ok::<Seq<char>, Error>(text)
        },
{
}

impl Db {
    /// An empty repository.
    pub fn new() -> (db: Db)
        ensures
            db@ == (DbView {
                things: Seq::empty(),
                settings: Map::empty(),
                users: Seq::empty(),
                tokens: Seq::empty(),
            }),
    {
        let db = Db {
            things: Things::new(),
            settings: Table::new(),
            users: Users::new(),
            tokens: Tokens::new(),
        };
        assert(db@.settings =~= Map::empty());
        db
    }

    /// All things, in the order in which they were created.
    pub fn get_things(&self, _msg: GetThings) -> (things: &Vec<Thing>)
        ensures
            things@ == self@.things,
    {
        self.things.all()
    }

    /// The thing with this id.
    pub fn get_thing(&self, msg: GetThing) -> (thing: Option<&Thing>)
        ensures
            thing is Some <==> has_thing(self@.things, msg.0@),
            thing matches Some(t) ==> t.device.id@ == msg.0@ && exists|i: int|
                0 <= i < self@.things.len() && self@.things[i] == *t,
    {
        let thing = self.things.by_id(&msg.0);
        proof {
            if let Some(t) = thing {
                let i = choose|i: int| 0 <= i < self.things@.len() && self.things@[i] == *t;
                assert(self@.things[i] == *t);
            }
        }
        thing
    }

    /// Adopts a device: it is stored as a connected thing, at the end of the
    /// things. Where a thing has the device's id already, the request is
    /// refused and nothing changes.
    pub fn create_thing(&mut self, msg: CreateThing) -> (result: Result<(), Error>)
        ensures
            result == adopt_outcome(old(self)@.things, msg.0),
            final(self)@ == (DbView { things: after_adopt(old(self)@.things, msg.0), ..old(self)@ }),
    {
        self.things.adopt(msg.0)
    }

    /// Stores a text under a key, in place of any text that was there.
    pub fn set_setting(&mut self, msg: SetSetting) -> (result: Result<(), Error>)
        ensures
            result is Ok,
            final(self)@ == (DbView {
                settings: with_setting(old(self)@.settings, msg.0@, msg.1@),
                ..old(self)@
            }),
    {
        let SetSetting(key, text) = msg;
        self.settings.insert(key, text);
        assert(setting_texts(self.settings@) =~= with_setting(old(self)@.settings, msg.0@, msg.1@));
        Ok(())
    }

    /// Stores a text under a key unless the key has a value.
    pub fn set_setting_if_not_exists(&mut self, msg: SetSettingIfNotExists) -> (result: Result<
        (),
        Error,
    >)
        ensures
            result is Ok,
            final(self)@ == (DbView {
                settings: with_default(old(self)@.settings, msg.0@, msg.1@),
                ..old(self)@
            }),
    {
        let SetSettingIfNotExists(key, text) = msg;
        if !self.settings.contains_key(&key) {
            self.settings.insert(key, text);
        }
        assert(setting_texts(self.settings@) =~= with_default(old(self)@.settings, msg.0@, msg.1@));
        Ok(())
    }

    /// The text stored under a key; an error where the key has no value.
    pub fn get_setting(&self, msg: GetSetting) -> (result: Result<&String, Error>)
        ensures
            match result {
                Ok(text) => setting_outcome(self@.settings, msg.0@) == Ok::<Seq<char>, Error>(text@),
                Err(e) => setting_outcome(self@.settings, msg.0@) == Err::<Seq<char>, Error>(e),
            },
    {
        match self.settings.get(&msg.0) {
            Some(text) => Ok(text),
            None => Err(Error::SettingNotFound),
        }
    }

    /// The flag stored under a key; an error where the key has no value or
    /// the value is no flag.
    pub fn get_flag(&self, key: &String) -> (result: Result<bool, Error>)
        ensures
            result == flag_outcome(self@.settings, key@),
    {
        match self.settings.get(key) {
            Some(text) => parse_flag(text),
            None => Err(Error::SettingNotFound),
        }
    }

    /// Stores a user whose password is hashed already, under the id that
    /// follows the largest id in use, and hands the stored user out.
    pub fn store_user(&mut self, user: User) -> (result: Result<User, Error>)
        ensures
            match result {
                Ok(stored) => store_outcome(old(self)@.users, user) == Ok::<i64, Error>(stored.id)
                    && stored == (User {
                    id: stored.id,
                    email: user.email,
                    password: user.password,
                    name: user.name,
                }),
                Err(e) => store_outcome(old(self)@.users, user) == Err::<i64, Error>(e),
            },
            final(self)@ == (DbView { users: after_store(old(self)@.users, user), ..old(self)@ }),
    {
        let copy = user.duplicate();
        match self.users.store(user) {
            Ok(id) => Ok(
                User { id, email: copy.email, password: copy.password, name: copy.name },
            ),
            Err(e) => Err(e),
        }
    }

    /// Creates a user: the password is hashed, and the user is stored under
    /// the id that follows the largest id in use. Where the password cannot
    /// be hashed nothing is stored.
    pub fn create_user(&mut self, msg: CreateUser) -> (result: Result<User, Error>)
        ensures
            match result {
                Ok(stored) => stored.email == msg.0 && stored.name == msg.2 && final(self)@ == (
                DbView { users: old(self)@.users.push(stored), ..old(self)@ }) && !has_email(
                    old(self)@.users,
                    msg.0@,
                ) && stored.id == largest_id(old(self)@.users) + 1,
                Err(e) => final(self)@ == old(self)@ && (e == Error::InvalidPassword || (e
                    == Error::Storage && (has_email(old(self)@.users, msg.0@) || largest_id(
                    old(self)@.users,
                ) >= i64::MAX))),
            },
    {
        let CreateUser(email, password, name) = msg;
        match User::new(0, email, password, name) {
            Ok(user) => self.store_user(user),
            Err(e) => Err(e),
        }
    }

    /// Stores the address, password and name of a user in place of those of
    /// the user with the same id.
    pub fn edit_user(&mut self, msg: EditUser) -> (result: Result<(), Error>)
        ensures
            result == edit_outcome(old(self)@.users, msg.0),
            final(self)@ == (DbView { users: after_edit(old(self)@.users, msg.0), ..old(self)@ }),
    {
        self.users.edit(msg.0)
    }

    /// Deletes a user, and with the user the user's tokens.
    pub fn delete_user(&mut self, msg: DeleteUser) -> (result: Result<(), Error>)
        ensures
            result is Ok,
            final(self)@ == (DbView {
                users: users_without(old(self)@.users, msg.0),
                tokens: tokens_without(old(self)@.tokens, msg.0),
                ..old(self)@
            }),
    {
        self.users.delete(msg.0);
        self.tokens.remove_user(msg.0);
        Ok(())
    }

    /// The user with this address or this id.
    pub fn get_user(&self, msg: GetUser) -> (user: Option<&User>)
        ensures
            match msg {
                GetUser::ByEmail(email) => (user is Some <==> has_email(self@.users, email@)) && (
                user matches Some(u) ==> u.email@ == email@),
                GetUser::ById(id) => (user is Some <==> has_user(self@.users, id)) && (
                user matches Some(u) ==> u.id == id),
            },
            user matches Some(u) ==> exists|i: int|
                0 <= i < self@.users.len() && self@.users[i] == *u,
    {
        match msg {
            GetUser::ByEmail(email) => self.users.by_email(&email),
            GetUser::ById(id) => self.users.by_id(id),
        }
    }

    /// All users, in the order in which they were created.
    pub fn get_users(&self, _msg: GetUsers) -> (users: &Vec<User>)
        ensures
            users@ == self@.users,
    {
        self.users.all()
    }

    /// The number of users.
    pub fn get_user_count(&self, _msg: GetUserCount) -> (count: i64)
        ensures
            count == if self@.users.len() <= i64::MAX {
                self@.users.len() as int
            } else {
                i64::MAX as int
            },
    {
        let n: u64 = self.users.all().len() as u64;
        if n > 0x7fff_ffff_ffff_ffffu64 {
            i64::MAX
        } else {
            n as i64
        }
    }

    /// Stores the public key of a token under its key id, for a user.
    pub fn create_jwt(&mut self, msg: CreateJwt) -> (result: Result<(), Error>)
        ensures
            result == token_outcome(
                old(self)@.tokens,
                old(self)@.users,
                JwtRecord { key_id: msg.0, user: msg.1, public_key: msg.2 },
            ),
            final(self)@ == (DbView {
                tokens: after_token(
                    old(self)@.tokens,
                    old(self)@.users,
                    JwtRecord { key_id: msg.0, user: msg.1, public_key: msg.2 },
                ),
                ..old(self)@
            }),
    {
        let CreateJwt(key_id, user, public_key) = msg;
        self.tokens.create(JwtRecord { key_id, user, public_key }, &self.users)
    }

    /// The public key stored under a key id.
    pub fn get_jwt_public_key_by_key_id(&self, msg: GetJwtPublicKeyByKeyId) -> (key: Result<
        &String,
        Error,
    >)
        ensures
            match key {
                Ok(k) => exists|i: int|
                    0 <= i < self@.tokens.len() && (#[trigger] self@.tokens[i]).key_id@ == msg.0@
                        && self@.tokens[i].public_key == *k,
                Err(e) => e == Error::TokenNotFound && !has_token(self@.tokens, msg.0@),
            },
    {
        let key = self.tokens.public_key(&msg.0);
        proof {
            if let Ok(k) = key {
                let i = choose|i: int|
                    0 <= i < self.tokens@.len() && (#[trigger] self.tokens@[i]).key_id@ == msg.0@
                        && self.tokens@[i].public_key == *k;
                assert(self@.tokens[i].key_id@ == msg.0@);
            }
        }
        key
    }

    /// The tokens of a user, in the order in which they were created.
    pub fn get_jwts_by_user(&self, msg: GetJwtsByUser) -> (tokens: Vec<&JwtRecord>)
        ensures
            tokens@.len() == tokens_of(self@.tokens, msg.0).len(),
            forall|i: int|
                0 <= i < tokens@.len() ==> *(#[trigger] tokens@[i]) == tokens_of(
                    self@.tokens,
                    msg.0,
                )[i],
    {
        self.tokens.of_user(msg.0)
    }

    /// The keys of all settings, in the order in which they were first
    /// stored, each with its text.
    pub fn settings(&self) -> (settings: &Table<String>)
        ensures
            setting_texts(settings@) == self@.settings,
    {
        &self.settings
    }
}

/// What the request for a flag yields.
pub open spec fn flag_outcome(settings: Map<Seq<char>, Seq<char>>, key: Seq<char>) -> Result<
    bool,
    Error,
> {
    if !settings.contains_key(key) {
        Err(Error::SettingNotFound)
    } else {
        match text_flag(settings[key]) {
            Some(b) => Ok(b),
            None => Err(Error::Storage),
        }
    }
}

} // verus!
