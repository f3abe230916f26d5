//! The local identity.

use crate::json::{canonical, parse, parsed_tree, print, text_before, written_text, Json, JsonView};
use uuid::Uuid;
use vstd::prelude::*;

verus! {

/// The operator's display name and the id under which the signaling server
/// knows this client.
#[derive(Debug, PartialEq, Eq)]
pub struct UserConfig {
    pub name: String,
    pub id: String,
}

/// Mathematical value of a [`UserConfig`].
pub struct UserConfigView {
    pub name: Seq<char>,
    pub id: Seq<char>,
}

impl View for UserConfig {
    type V = UserConfigView;

    open spec fn view(&self) -> UserConfigView {
        UserConfigView { name: self.name@, id: self.id@ }
    }
}

impl Clone for UserConfig {
    fn clone(&self) -> (r: Self)
        ensures
            r@ == self@,
    {
        UserConfig { name: self.name.clone(), id: self.id.clone() }
    }
}

/// The length of a freshly generated id: 32 hexadecimal digits in five groups.
pub const ID_LENGTH: usize = 36;

/// Calls `Uuid::new_v4` of the `uuid` crate and writes the result with its
/// `Display` form, which is the hyphenated one of 36 characters. The id is
/// random: the contract states its length and nothing else. The call fails
/// only where the system has no source of randomness.
#[verifier::external_body]
pub(crate) fn fresh_id() -> (id: String)
    ensures
        id@.len() == ID_LENGTH,
{
    Uuid::new_v4().to_string()
}

impl UserConfig {
    /// The identity with the given name and id.
    pub fn with_id(name: &str, id: String) -> (user: UserConfig)
        ensures
            user@ == (UserConfigView { name: name@, id: id@ }),
    {
        UserConfig { name: name.to_owned(), id }
    }

    /// A new identity for `name`, under an id that was generated for it.
    pub fn from(name: &str) -> (user: UserConfig)
        ensures
            user@.name == name@,
            user@.id.len() == ID_LENGTH,
    {
        UserConfig::with_id(name, fresh_id())
    }
}

/// The stored form of an identity: an object with the members `name` and
/// `id`.
pub open spec fn user_form(user: UserConfigView) -> JsonView {
    JsonView::Object(seq![("id"@, JsonView::Text(user.id)), ("name"@, JsonView::Text(user.name))])
}

/// The identity that a stored form holds, if it holds one. Members other than
/// `name` and `id` are ignored.
pub open spec fn user_in(json: JsonView) -> Option<UserConfigView> {
    match (json.member("name"@), json.member("id"@)) {
        (Some(JsonView::Text(name)), Some(JsonView::Text(id))) => Some(UserConfigView { name, id }),
        _ => None,
    }
}

/// An identity is read back from its stored form as itself.
pub proof fn lemma_user_round_trip(user: UserConfigView)
    ensures
        user_in(user_form(user)) == Some(user),
{
    reveal_strlit("name");
    reveal_strlit("id");
    assert("name"@.len() != "id"@.len());
}

impl UserConfig {
    /// The stored form of the identity.
    pub fn to_json(&self) -> (json: Json)
        ensures
            json@ == user_form(self@),
    {
        let name = Json::Text(self.name.clone());
        let id = Json::Text(self.id.clone());
        assert(name@ == JsonView::Text(self.name@));
        assert(id@ == JsonView::Text(self.id@));
        let mut members: Vec<(String, Json)> = Vec::new();
        members.push(("id".to_owned(), id));
        members.push(("name".to_owned(), name));
        let json = Json::Object(members);
        assert(json@->Object_0 =~= user_form(self@)->Object_0);
        json
    }

    /// The identity that a stored form holds, if it holds one.
    pub fn from_json(json: &Json) -> (user: Option<UserConfig>)
        ensures
            match user {
                Some(u) => user_in(json@) == Some(u@),
                None => user_in(json@) is None,
            },
    {
        let name = match json.member("name") {
            Some(value) => match value.as_text() {
                Some(name) => name.clone(),
                None => {
                    return None;
                },
            },
            None => {
                return None;
            },
        };
        let id = match json.member("id") {
            Some(value) => match value.as_text() {
                Some(id) => id.clone(),
                None => {
                    return None;
                },
            },
            None => {
                return None;
            },
        };
        Some(UserConfig { name, id })
    }
}

/// The stored form of an identity is canonical, so that it is written as it
/// stands.
pub proof fn lemma_user_form_canonical(user: UserConfigView)
    ensures
        canonical(user_form(user)),
{
    reveal_strlit("id");
    reveal_strlit("name");
    assert(text_before("id"@, "name"@));
    let members = user_form(user)->Object_0;
    assert forall|i: int| 0 <= i < members.len() implies canonical((#[trigger] members[i]).1) by {}
}

impl UserConfig {
    /// The text under which the identity is stored. Every identity has one:
    /// the text that is written for its stored form.
    pub fn to_text(&self) -> (r: Option<String>)
        ensures
            r matches Some(text) && text@ == written_text(user_form(self@)),
    {
        proof {
            lemma_user_form_canonical(self@);
        }
        print(&self.to_json())
    }

    /// The identity that a stored text holds: the one in the tree that is
    /// read from the text, if one is read and holds one.
    pub fn from_text(text: &str) -> (user: Option<UserConfig>)
        ensures
            match user {
                Some(u) => parsed_tree(text@) matches Some(tree) && user_in(tree) == Some(u@),
                None => parsed_tree(text@) matches Some(tree) ==> user_in(tree) is None,
            },
    {
        match parse(text) {
            Some(tree) => UserConfig::from_json(&tree),
            None => None,
        }
    }
}

/// The stored identity where there is one; otherwise a new identity under the
/// name that `ask_for_username` gives, which is called in that case only.
pub fn get_user_or_create<F: FnOnce() -> String>(
    stored: Option<UserConfig>,
    ask_for_username: F,
) -> (user: UserConfig)
    requires
        stored is None ==> ask_for_username.requires(()),
    ensures
        stored matches Some(known) ==> user@ == known@,
        stored is None ==> user@.id.len() == ID_LENGTH && exists|name: String|
            ask_for_username.ensures((), name) && user@.name == name@,
{
    match stored {
        Some(known) => known,
        None => {
            let name = ask_for_username();
            UserConfig::from(name.as_str())
        },
    }
}

/// The identity `user` under the id `id`, as the server assigned it.
pub fn set_id(user: UserConfig, id: &str) -> (updated: UserConfig)
    ensures
        updated@ == (UserConfigView { name: user@.name, id: id@ }),
{
    UserConfig { name: user.name, id: id.to_owned() }
}

} // verus!
