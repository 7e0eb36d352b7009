//! Task records and their stored form.
use crate::document::{doc_fields, doc_keys, id_filter, id_key, lemma_without_absent_key, new_document, put_text, string_at, text_at, text_or_empty};
use bson::ordered::OrderedDocument;
use vstd::prelude::*;

verus! {

/// A task. `user_id` names the owning user but is never checked against
/// the user collection.
#[derive(Debug, Clone, PartialEq)]
pub struct Task {
    pub id: String,
    pub title: String,
    pub description: String,
    pub user_id: String,
    pub todo: String,
}

/// The text of each field of a [`Task`].
pub ghost struct TaskView {
    pub id: Seq<char>,
    pub title: Seq<char>,
    pub description: Seq<char>,
    pub user_id: Seq<char>,
    pub todo: Seq<char>,
}

impl View for Task {
    type V = TaskView;

    open spec fn view(&self) -> TaskView {
        TaskView {
            id: self.id@,
            title: self.title@,
            description: self.description@,
            user_id: self.user_id@,
            todo: self.todo@,
        }
    }
}

pub open spec fn title_key() -> Seq<char> {
    "title"@
}

pub open spec fn description_key() -> Seq<char> {
    "description"@
}

pub open spec fn user_id_key() -> Seq<char> {
    "user_id"@
}

pub open spec fn todo_key() -> Seq<char> {
    "todo"@
}

/// The order of the keys in a stored task.
pub open spec fn task_key_order() -> Seq<Seq<char>> {
    seq![id_key(), title_key(), description_key(), user_id_key(), todo_key()]
}

/// The stored form of a task: one string entry per field.
pub open spec fn encode_task(t: TaskView) -> Map<Seq<char>, Option<Seq<char>>> {
    map![
        id_key() => Some(t.id),
        title_key() => Some(t.title),
        description_key() => Some(t.description),
        user_id_key() => Some(t.user_id),
        todo_key() => Some(t.todo),
    ]
}

/// The task read back from stored fields: a field whose key is absent or
/// holds a value that is not a string reads as the empty text.
pub open spec fn decode_task(f: Map<Seq<char>, Option<Seq<char>>>) -> TaskView {
    TaskView {
        id: text_at(f, id_key()),
        title: text_at(f, title_key()),
        description: text_at(f, description_key()),
        user_id: text_at(f, user_id_key()),
        todo: text_at(f, todo_key()),
    }
}

/// Builds a task from its fields.
pub fn build_task(id: String, user_id: String, title: String, description: String, todo: String) -> (t: Task)
    ensures
        t.id == id,
        t.user_id == user_id,
        t.title == title,
        t.description == description,
        t.todo == todo,
{
    Task { id, title, description, user_id, todo }
}

/// Reads a task from a stored document. Never fails: each field that is
/// missing or not a string becomes the empty string.
pub fn task_from_document(document: OrderedDocument) -> (t: Task)
    ensures
        t@ == decode_task(doc_fields(document)),
{
    read_task(&document)
}

fn read_task(document: &OrderedDocument) -> (t: Task)
    ensures
        t@ == decode_task(doc_fields(*document)),
{
    let id = text_or_empty(document, "_id");
    let user_id = text_or_empty(document, "user_id");
    let title = text_or_empty(document, "title");
    let description = text_or_empty(document, "description");
    let todo = text_or_empty(document, "todo");
    build_task(id, user_id, title, description, todo)
}

/// The stored document of a task, with the id under the primary-key field.
pub fn task_to_document(task: &Task) -> (d: OrderedDocument)
    ensures
        doc_fields(d) == encode_task(task@),
        doc_keys(d) == task_key_order(),
{
    proof {
        lemma_task_keys_distinct();
    }
    let mut d = new_document();
    proof {
        lemma_without_absent_key(doc_keys(d), id_key());
    }
    put_text(&mut d, "_id", task.id.as_str());
    assert(doc_keys(d) =~= seq![id_key()]);
    proof {
        lemma_without_absent_key(doc_keys(d), title_key());
    }
    put_text(&mut d, "title", task.title.as_str());
    assert(doc_keys(d) =~= seq![id_key(), title_key()]);
    proof {
        lemma_without_absent_key(doc_keys(d), description_key());
    }
    put_text(&mut d, "description", task.description.as_str());
    assert(doc_keys(d) =~= seq![id_key(), title_key(), description_key()]);
    proof {
        lemma_without_absent_key(doc_keys(d), user_id_key());
    }
    put_text(&mut d, "user_id", task.user_id.as_str());
    assert(doc_keys(d) =~= seq![id_key(), title_key(), description_key(), user_id_key()]);
    proof {
        lemma_without_absent_key(doc_keys(d), todo_key());
    }
    put_text(&mut d, "todo", task.todo.as_str());
    assert(doc_keys(d) =~= task_key_order());
    assert(doc_fields(d) =~= encode_task(task@));
    d
}

/// The selector and the replacement of an update: the stored task whose
/// primary key is `task.id` is replaced in full by the stored form of
/// `task`.
pub fn task_update_documents(task: &Task) -> (r: (OrderedDocument, OrderedDocument))
    ensures
        doc_fields(r.0) == map![id_key() => Some(task.id@)],
        doc_keys(r.0) == seq![id_key()],
        doc_fields(r.1) == encode_task(task@),
        doc_keys(r.1) == task_key_order(),
{
    (id_filter(task.id.as_str()), task_to_document(task))
}

/// The task that a lookup by primary key found, if any.
pub fn task_from_found(found: Option<OrderedDocument>) -> (r: Option<Task>)
    ensures
        match found {
            Some(d) => r is Some && r->0@ == decode_task(doc_fields(d)),
            None => r is None,
        },
{
    match found {
        Some(d) => Some(task_from_document(d)),
        None => None,
    }
}

/// The tasks read back from a scan of the collection, in scan order. An
/// item that could not be read is `None` and is skipped.
pub open spec fn readable_tasks(items: Seq<Option<OrderedDocument>>) -> Seq<TaskView>
    decreases items.len(),
{
    if items.len() == 0 {
        Seq::empty()
    } else {
        let rest = readable_tasks(items.drop_last());
        match items.last() {
            Some(d) => rest.push(decode_task(doc_fields(d))),
            None => rest,
        }
    }
}

/// Decodes every item of a scan that could be read, in order, and skips the
/// others.
pub fn tasks_from_scan(items: Vec<Option<OrderedDocument>>) -> (r: Vec<Task>)
    ensures
        r@.map_values(|t: Task| t@) == readable_tasks(items@),
{
    let mut data: Vec<Task> = Vec::new();
    let mut i: usize = 0;
    while i < items.len()
        invariant
            i <= items.len(),
            data@.map_values(|t: Task| t@) == readable_tasks(items@.take(i as int)),
        decreases items.len() - i,
    {
        assert(items@.take(i as int + 1).drop_last() == items@.take(i as int));
        if let Some(d) = &items[i] {
            let ghost before = data@;
            let t = read_task(d);
            data.push(t);
            assert(data@.map_values(|t: Task| t@) =~= before.map_values(|t: Task| t@).push(t@));
        }
        i = i + 1;
    }
    assert(items@.take(items.len() as int) == items@);
    data
}

/// The five storage keys of a task differ from one another.
pub proof fn lemma_task_keys_distinct()
    ensures
        id_key() != title_key(),
        id_key() != description_key(),
        id_key() != user_id_key(),
        id_key() != todo_key(),
        title_key() != description_key(),
        title_key() != user_id_key(),
        title_key() != todo_key(),
        description_key() != user_id_key(),
        description_key() != todo_key(),
        user_id_key() != todo_key(),
{
    reveal_strlit("_id");
    reveal_strlit("title");
    reveal_strlit("description");
    reveal_strlit("user_id");
    reveal_strlit("todo");
    assert(id_key().len() == 3);
    assert(title_key().len() == 5);
    assert(description_key().len() == 11);
    assert(user_id_key().len() == 7);
    assert(todo_key().len() == 4);
}

/// Encoding a task and decoding the result gives back the same task.
pub proof fn lemma_task_round_trip(t: TaskView)
    ensures
        decode_task(encode_task(t)) == t,
{
    lemma_task_keys_distinct();
}

/// A well-formed stored task (the five keys in their order, each holding a
/// string) decodes to a task whose stored form has the same entries and the
/// same key order.
pub proof fn lemma_task_document_round_trip(d: OrderedDocument)
    requires
        doc_keys(d) == task_key_order(),
        doc_fields(d).dom() == set![id_key(), title_key(), description_key(), user_id_key(), todo_key()],
        forall|k: Seq<char>| doc_fields(d).contains_key(k) ==> (#[trigger] doc_fields(d)[k]) is Some,
    ensures
        encode_task(decode_task(doc_fields(d))) == doc_fields(d),
        task_key_order() == doc_keys(d),
{
    lemma_task_keys_distinct();
    let f = doc_fields(d);
    assert(f.contains_key(id_key()));
    assert(f.contains_key(title_key()));
    assert(f.contains_key(description_key()));
    assert(f.contains_key(user_id_key()));
    assert(f.contains_key(todo_key()));
    assert(encode_task(decode_task(f)) =~= f);
}

/// A stored task whose `description` entry is missing decodes with an empty
/// description; every other field reads as it would with the entry present.
pub proof fn lemma_task_missing_description(f: Map<Seq<char>, Option<Seq<char>>>)
    ensures
        decode_task(f.remove(description_key())) == (TaskView {
            description: Seq::empty(),
            ..decode_task(f)
        }),
{
    lemma_task_keys_distinct();
}

/// A stored task whose `title` holds a value that is not a string decodes
/// with an empty title; every other field reads as it would otherwise.
pub proof fn lemma_task_non_string_title(f: Map<Seq<char>, Option<Seq<char>>>)
    ensures
        decode_task(f.insert(title_key(), None)) == (TaskView { title: Seq::empty(), ..decode_task(f) }),
{
    lemma_task_keys_distinct();
}

/// A scan in which every item could be read yields one task per item, in
/// order, each the decoding of its document.
pub proof fn lemma_scan_keeps_readable_tasks(items: Seq<Option<OrderedDocument>>)
    requires
        forall|i: int| 0 <= i < items.len() ==> (#[trigger] items[i]) is Some,
    ensures
        readable_tasks(items).len() == items.len(),
        forall|i: int|
            0 <= i < items.len() ==> (#[trigger] readable_tasks(items)[i]) == decode_task(
                doc_fields(items[i]->0),
            ),
    decreases items.len(),
{
    if items.len() > 0 {
        let rest = items.drop_last();
        assert forall|i: int| 0 <= i < rest.len() implies (#[trigger] rest[i]) is Some by {
            assert(rest[i] == items[i]);
        }
        lemma_scan_keeps_readable_tasks(rest);
        assert(items[items.len() - 1] is Some);
    }
}

/// An update keeps the identity of the stored task: the replacement holds
/// the id that the selector keys on, and reads back as the new payload.
pub proof fn lemma_task_update_keeps_identity(task: TaskView)
    ensures
        string_at(encode_task(task), id_key()) == Some(task.id),
        decode_task(encode_task(task)) == task,
{
    lemma_task_round_trip(task);
}

} // verus!
