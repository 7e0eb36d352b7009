//! User records and their stored form.
use crate::document::{doc_fields, doc_keys, id_filter, id_key, lemma_without_absent_key, new_document, put_text, string_at, text_at, text_or_empty};
use bson::ordered::OrderedDocument;
use vstd::prelude::*;

verus! {

/// A user account. The primary key `id` is supplied by the caller; `email`
/// serves as a second lookup key.
#[derive(Debug, Clone, PartialEq)]
pub struct User {
    pub id: String,
    pub user_name: String,
    pub password: String,
    pub email: String,
}

/// The text of each field of a [`User`].
pub ghost struct UserView {
    pub id: Seq<char>,
    pub user_name: Seq<char>,
    pub password: Seq<char>,
    pub email: Seq<char>,
}

impl View for User {
    type V = UserView;

    open spec fn view(&self) -> UserView {
        UserView {
            id: self.id@,
            user_name: self.user_name@,
            password: self.password@,
            email: self.email@,
        }
    }
}

/// Storage key of `user_name`, which is stored under another name.
pub open spec fn user_name_key() -> Seq<char> {
    "username"@
}

pub open spec fn password_key() -> Seq<char> {
    "password"@
}

pub open spec fn email_key() -> Seq<char> {
    "email"@
}

/// The order of the keys in a stored user.
pub open spec fn user_key_order() -> Seq<Seq<char>> {
    seq![id_key(), user_name_key(), password_key(), email_key()]
}

/// The stored form of a user: one string entry per field.
pub open spec fn encode_user(u: UserView) -> Map<Seq<char>, Option<Seq<char>>> {
    map![
        id_key() => Some(u.id),
        user_name_key() => Some(u.user_name),
        password_key() => Some(u.password),
        email_key() => Some(u.email),
    ]
}

/// The user read back from stored fields: a field whose key is absent or
/// holds a value that is not a string reads as the empty text.
pub open spec fn decode_user(f: Map<Seq<char>, Option<Seq<char>>>) -> UserView {
    UserView {
        id: text_at(f, id_key()),
        user_name: text_at(f, user_name_key()),
        password: text_at(f, password_key()),
        email: text_at(f, email_key()),
    }
}

/// Builds a user from its fields.
pub fn build_user(id: String, email: String, user_name: String, password: String) -> (u: User)
    ensures
        u.id == id,
        u.email == email,
        u.user_name == user_name,
        u.password == password,
{
    User { id, user_name, password, email }
}

/// Reads a user from a stored document. Never fails: each field that is
/// missing or not a string becomes the empty string.
pub fn user_from_document(document: OrderedDocument) -> (u: User)
    ensures
        u@ == decode_user(doc_fields(document)),
{
    read_user(&document)
}

fn read_user(document: &OrderedDocument) -> (u: User)
    ensures
        u@ == decode_user(doc_fields(*document)),
{
    let id = text_or_empty(document, "_id");
    let email = text_or_empty(document, "email");
    let user_name = text_or_empty(document, "username");
    let password = text_or_empty(document, "password");
    build_user(id, email, user_name, password)
}

/// The stored document of a user, with the id under the primary-key field.
pub fn user_to_document(user: &User) -> (d: OrderedDocument)
    ensures
        doc_fields(d) == encode_user(user@),
        doc_keys(d) == user_key_order(),
{
    proof {
        lemma_user_keys_distinct();
    }
    let mut d = new_document();
    proof {
        lemma_without_absent_key(doc_keys(d), id_key());
    }
    put_text(&mut d, "_id", user.id.as_str());
    assert(doc_keys(d) =~= seq![id_key()]);
    proof {
        lemma_without_absent_key(doc_keys(d), user_name_key());
    }
    put_text(&mut d, "username", user.user_name.as_str());
    assert(doc_keys(d) =~= seq![id_key(), user_name_key()]);
    proof {
        lemma_without_absent_key(doc_keys(d), password_key());
    }
    put_text(&mut d, "password", user.password.as_str());
    assert(doc_keys(d) =~= seq![id_key(), user_name_key(), password_key()]);
    proof {
        lemma_without_absent_key(doc_keys(d), email_key());
    }
    put_text(&mut d, "email", user.email.as_str());
    assert(doc_keys(d) =~= user_key_order());
    assert(doc_fields(d) =~= encode_user(user@));
    d
}

/// A document that selects the stored users whose email is `email`.
pub fn email_filter(email: &str) -> (d: OrderedDocument)
    ensures
        doc_fields(d) == map![email_key() => Some(email@)],
        doc_keys(d) == seq![email_key()],
{
    let mut d = new_document();
    put_text(&mut d, "email", email);
    assert(doc_keys(d) =~= seq![email_key()]);
    assert(doc_fields(d) =~= map![email_key() => Some(email@)]);
    d
}

/// The selector and the replacement of an update: the stored user whose
/// primary key is `user.id` is replaced in full by the stored form of
/// `user`.
pub fn user_update_documents(user: &User) -> (r: (OrderedDocument, OrderedDocument))
    ensures
        doc_fields(r.0) == map![id_key() => Some(user.id@)],
        doc_keys(r.0) == seq![id_key()],
        doc_fields(r.1) == encode_user(user@),
        doc_keys(r.1) == user_key_order(),
{
    (id_filter(user.id.as_str()), user_to_document(user))
}

/// The user that a lookup by primary key found, if any.
pub fn user_from_found(found: Option<OrderedDocument>) -> (r: Option<User>)
    ensures
        match found {
            Some(d) => r is Some && r->0@ == decode_user(doc_fields(d)),
            None => r is None,
        },
{
    match found {
        Some(d) => Some(user_from_document(d)),
        None => None,
    }
}

/// The users read back from a scan of the collection, in scan order. An
/// item that could not be read is `None` and is skipped.
pub open spec fn readable_users(items: Seq<Option<OrderedDocument>>) -> Seq<UserView>
    decreases items.len(),
{
    if items.len() == 0 {
        Seq::empty()
    } else {
        let rest = readable_users(items.drop_last());
        match items.last() {
            Some(d) => rest.push(decode_user(doc_fields(d))),
            None => rest,
        }
    }
}

/// Decodes every item of a scan that could be read, in order, and skips the
/// others.
pub fn users_from_scan(items: Vec<Option<OrderedDocument>>) -> (r: Vec<User>)
    ensures
        r@.map_values(|u: User| u@) == readable_users(items@),
{
    let mut data: Vec<User> = Vec::new();
    let mut i: usize = 0;
    while i < items.len()
        invariant
            i <= items.len(),
            data@.map_values(|u: User| u@) == readable_users(items@.take(i as int)),
        decreases items.len() - i,
    {
        assert(items@.take(i as int + 1).drop_last() == items@.take(i as int));
        if let Some(d) = &items[i] {
            let ghost before = data@;
            let u = read_user(d);
            data.push(u);
            assert(data@.map_values(|u: User| u@) =~= before.map_values(|u: User| u@).push(u@));
        }
        i = i + 1;
    }
    assert(items@.take(items.len() as int) == items@);
    data
}

/// The four storage keys of a user differ from one another.
pub proof fn lemma_user_keys_distinct()
    ensures
        id_key() != user_name_key(),
        id_key() != password_key(),
        id_key() != email_key(),
        user_name_key() != password_key(),
        user_name_key() != email_key(),
        password_key() != email_key(),
{
    reveal_strlit("_id");
    reveal_strlit("username");
    reveal_strlit("password");
    reveal_strlit("email");
    assert(id_key().len() != user_name_key().len());
    assert(id_key().len() != password_key().len());
    assert(id_key().len() != email_key().len());
    assert(user_name_key()[0] != password_key()[0]);
    assert(user_name_key().len() != email_key().len());
    assert(password_key().len() != email_key().len());
}

/// Encoding a user and decoding the result gives back the same user.
pub proof fn lemma_user_round_trip(u: UserView)
    ensures
        decode_user(encode_user(u)) == u,
{
    lemma_user_keys_distinct();
}

/// A well-formed stored user (the four keys in their order, each holding a
/// string) decodes to a user whose stored form has the same entries and the
/// same key order.
pub proof fn lemma_user_document_round_trip(d: OrderedDocument)
    requires
        doc_keys(d) == user_key_order(),
        doc_fields(d).dom() == set![id_key(), user_name_key(), password_key(), email_key()],
        forall|k: Seq<char>| doc_fields(d).contains_key(k) ==> (#[trigger] doc_fields(d)[k]) is Some,
    ensures
        encode_user(decode_user(doc_fields(d))) == doc_fields(d),
        user_key_order() == doc_keys(d),
{
    lemma_user_keys_distinct();
    let f = doc_fields(d);
    assert(f.contains_key(id_key()));
    assert(f.contains_key(user_name_key()));
    assert(f.contains_key(password_key()));
    assert(f.contains_key(email_key()));
    assert(encode_user(decode_user(f)) =~= f);
}

/// A stored user whose `email` entry is missing decodes with an empty
/// email; every other field reads as it would with the entry present.
pub proof fn lemma_user_missing_email(f: Map<Seq<char>, Option<Seq<char>>>)
    ensures
        decode_user(f.remove(email_key())) == (UserView { email: Seq::empty(), ..decode_user(f) }),
{
    lemma_user_keys_distinct();
}

/// A scan in which every item could be read yields one user per item, in
/// order, each the decoding of its document.
pub proof fn lemma_scan_keeps_readable_users(items: Seq<Option<OrderedDocument>>)
    requires
        forall|i: int| 0 <= i < items.len() ==> (#[trigger] items[i]) is Some,
    ensures
        readable_users(items).len() == items.len(),
        forall|i: int|
            0 <= i < items.len() ==> (#[trigger] readable_users(items)[i]) == decode_user(
                doc_fields(items[i]->0),
            ),
    decreases items.len(),
{
    if items.len() > 0 {
        let rest = items.drop_last();
        assert forall|i: int| 0 <= i < rest.len() implies (#[trigger] rest[i]) is Some by {
            assert(rest[i] == items[i]);
        }
        lemma_scan_keeps_readable_users(rest);
        assert(items[items.len() - 1] is Some);
    }
}

/// An update keeps the identity of the stored user: the replacement holds
/// the id that the selector keys on, and reads back as the new payload.
pub proof fn lemma_user_update_keeps_identity(user: UserView)
    ensures
        string_at(encode_user(user), id_key()) == Some(user.id),
        decode_user(encode_user(user)) == user,
{
    lemma_user_round_trip(user);
}

} // verus!
