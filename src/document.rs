//! String-keyed store documents, as seen by the codec.
use bson::ordered::OrderedDocument;
use vstd::prelude::*;

verus! {

#[verifier::external_type_specification]
#[verifier::external_body]
pub struct ExOrderedDocument(OrderedDocument);

/// What a document holds: each key maps to `Some(text)` where the stored
/// value is a string, and to `None` where it is a value of any other type.
pub uninterp spec fn doc_fields(d: OrderedDocument) -> Map<Seq<char>, Option<Seq<char>>>;

/// The keys of a document, in the order the document keeps them: the order
/// in which they were first inserted, with a re-inserted key moved last.
pub uninterp spec fn doc_keys(d: OrderedDocument) -> Seq<Seq<char>>;

/// `keys` with every occurrence of `key` left out, the rest in order.
pub open spec fn without_key(keys: Seq<Seq<char>>, key: Seq<char>) -> Seq<Seq<char>>
    decreases keys.len(),
{
    if keys.len() == 0 {
        keys
    } else {
        let rest = without_key(keys.drop_last(), key);
        if keys.last() == key {
            rest
        } else {
            rest.push(keys.last())
        }
    }
}

/// Leaving out a key that does not occur changes nothing.
pub proof fn lemma_without_absent_key(keys: Seq<Seq<char>>, key: Seq<char>)
    requires
        !keys.contains(key),
    ensures
        without_key(keys, key) == keys,
    decreases keys.len(),
{
    if keys.len() > 0 {
        let init = keys.drop_last();
        assert(!init.contains(key)) by {
            if init.contains(key) {
                let i = choose|i: int| 0 <= i < init.len() && init[i] == key;
                assert(keys[i] == key);
            }
        }
        lemma_without_absent_key(init, key);
        assert(keys[keys.len() - 1] != key);
        assert(init.push(keys.last()) =~= keys);
    }
}

/// The text stored under `key`, if the document holds a string there.
pub open spec fn string_at(fields: Map<Seq<char>, Option<Seq<char>>>, key: Seq<char>) -> Option<
    Seq<char>,
> {
    if fields.contains_key(key) {
        fields[key]
    } else {
        None
    }
}

/// The text stored under `key`, or the empty text where the key is absent
/// or holds a value that is not a string.
pub open spec fn text_at(fields: Map<Seq<char>, Option<Seq<char>>>, key: Seq<char>) -> Seq<char> {
    match string_at(fields, key) {
        Some(s) => s,
        None => Seq::empty(),
    }
}

/// Relies on `OrderedDocument::new`: a document with no entries.
#[verifier::external_body]
pub(crate) fn new_document() -> (d: OrderedDocument)
    ensures
        doc_fields(d).dom() == Set::<Seq<char>>::empty(),
        doc_keys(d) == Seq::<Seq<char>>::empty(),
{
    OrderedDocument::new()
}

/// Relies on `OrderedDocument::insert`: the key is bound to a string value,
/// replacing whatever it held before; every other entry is kept. The
/// underlying `LinkedHashMap::insert` puts a new key last and moves an
/// existing one last.
#[verifier::external_body]
pub(crate) fn put_text(d: &mut OrderedDocument, key: &str, value: &str)
    ensures
        doc_fields(*final(d)) == doc_fields(*old(d)).insert(key@, Some(value@)),
        doc_keys(*final(d)) == without_key(doc_keys(*old(d)), key@).push(key@),
{
    d.insert(key, value);
}

/// Relies on `OrderedDocument::get_str`: the text under `key` where the
/// stored value is a string, and an error where the key is absent or holds
/// another type.
#[verifier::external_body]
pub(crate) fn get_text(d: &OrderedDocument, key: &str) -> (r: Option<String>)
    ensures
        match r {
            Some(s) => string_at(doc_fields(*d), key@) == Some(s@),
            None => string_at(doc_fields(*d), key@) is None,
        },
{
    match d.get_str(key) {
        Ok(s) => Some(s.to_string()),
        Err(_) => None,
    }
}

/// Storage key of every record's primary key.
pub open spec fn id_key() -> Seq<char> {
    "_id"@
}

/// A document that selects the stored record whose primary key is `id`.
pub fn id_filter(id: &str) -> (d: OrderedDocument)
    ensures
        doc_fields(d) == map![id_key() => Some(id@)],
        doc_keys(d) == seq![id_key()],
{
    let mut d = new_document();
    put_text(&mut d, "_id", id);
    assert(doc_keys(d) =~= seq![id_key()]);
    assert(doc_fields(d) =~= map![id_key() => Some(id@)]);
    d
}

/// The text under `key`, or the empty string where the document holds no
/// string there.
pub fn text_or_empty(d: &OrderedDocument, key: &str) -> (r: String)
    ensures
        r@ == text_at(doc_fields(*d), key@),
{
    match get_text(d, key) {
        Some(s) => s,
        None => String::new(),
    }
}

} // verus!
