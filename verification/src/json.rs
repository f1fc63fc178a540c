//! A small JSON tree.

use crate::text;
use vstd::prelude::*;

verus! {

/// A JSON value.
#[derive(Debug, PartialEq, Eq)]
pub enum Json {
    /// A truth value.
    Bool(bool),
    /// A whole number.
    Number(u64),
    /// A string.
    Text(String),
    /// An array.
    List(Vec<Json>),
    /// An object, with its members in order.
    Object(Vec<(String, Json)>),
}

/// Model of a [`Json`] value.
pub enum JsonView {
    Bool(bool),
    Number(u64),
    Text(Seq<char>),
    List(Seq<JsonView>),
    Object(Seq<(Seq<char>, JsonView)>),
}

impl Json {
    /// The model of this value.
    pub open spec fn model(self) -> JsonView
        decreases self,
    {
        match self {
            Json::Bool(b) => JsonView::Bool(b),
            Json::Number(n) => JsonView::Number(n),
            Json::Text(s) => JsonView::Text(s@),
            Json::List(items) => JsonView::List(
                Seq::new(
                    items@.len(),
                    |i: int|
                        if 0 <= i < items@.len() {
                            items@[i].model()
                        } else {
                            JsonView::Bool(false)
                        },
                ),
            ),
            Json::Object(members) => JsonView::Object(
                Seq::new(
                    members@.len(),
                    |i: int|
                        if 0 <= i < members@.len() {
                            (members@[i].0@, members@[i].1.model())
                        } else {
                            (Seq::empty(), JsonView::Bool(false))
                        },
                ),
            ),
        }
    }

    /// A string.
    pub fn text(s: &str) -> (r: Json)
        ensures
            r.model() == JsonView::Text(s@),
    {
        Json::Text(s.to_owned())
    }

    /// An empty array.
    pub fn list() -> (r: Json)
        ensures
            r is List,
            r.model() == JsonView::List(Seq::empty()),
    {
        let r = Json::List(Vec::new());
        assert(r.model()->List_0 =~= Seq::empty());
        r
    }

    /// An empty object.
    pub fn object() -> (r: Json)
        ensures
            r is Object,
            r.model() == JsonView::Object(Seq::empty()),
    {
        let r = Json::Object(Vec::new());
        assert(r.model()->Object_0 =~= Seq::empty());
        r
    }

    /// This array with one more element.
    pub fn with_item(self, item: Json) -> (r: Json)
        requires
            self is List,
        ensures
            r is List,
            r.model() == JsonView::List(self.model()->List_0.push(item.model())),
    {
        let ghost before = self.model()->List_0;
        match self {
            Json::List(items) => {
                let mut items: Vec<Json> = items;
                items.push(item);
                let r = Json::List(items);
                assert(r.model()->List_0 =~= before.push(item.model()));
                r
            },
            other => other,
        }
    }

    /// This object with one more member.
    pub fn with(self, key: &str, value: Json) -> (r: Json)
        requires
            self is Object,
        ensures
            r is Object,
            r.model() == JsonView::Object(self.model()->Object_0.push((key@, value.model()))),
    {
        let ghost before = self.model()->Object_0;
        match self {
            Json::Object(members) => {
                let mut members: Vec<(String, Json)> = members;
                members.push((key.to_owned(), value));
                let r = Json::Object(members);
                assert(r.model()->Object_0 =~= before.push((key@, value.model())));
                r
            },
            other => other,
        }
    }

    /// The first member of this object under `key`; nothing if there is none, or if
    /// this is no object.
    pub fn get(&self, key: &str) -> (r: Option<&Json>)
        ensures
            match r {
                Some(value) => self is Object && exists|i: int|
                    {
                        &&& 0 <= i < self->Object_0@.len()
                        &&& (#[trigger] self->Object_0@[i]).0@ == key@
                        &&& *value == self->Object_0@[i].1
                        &&& forall|j: int|
                            0 <= j < i ==> (#[trigger] self->Object_0@[j]).0@ != key@
                    },
                None => self is Object ==> forall|i: int|
                    0 <= i < self->Object_0@.len() ==> (#[trigger] self->Object_0@[i]).0@ != key@,
            },
    {
        match self {
            Json::Object(members) => {
                let mut i: usize = 0;
                while i < members.len()
                    invariant
                        i <= members@.len(),
                        self is Object,
                        self->Object_0 == *members,
                        forall|j: int| 0 <= j < i ==> (#[trigger] members@[j]).0@ != key@,
                    decreases members@.len() - i,
                {
                    if text::same(members[i].0.as_str(), key) {
                        assert(self->Object_0@[i as int].0@ == key@);
                        return Some(&members[i].1);
                    }
                    i += 1;
                }
                None
            },
            _ => None,
        }
    }

    /// The element of this array at `index`; nothing if there is none, or if this is
    /// no array.
    pub fn at(&self, index: usize) -> (r: Option<&Json>)
        ensures
            match r {
                Some(item) => {
                    &&& self is List
                    &&& index < self->List_0@.len()
                    &&& *item == self->List_0@[index as int]
                },
                None => self is List ==> index >= self->List_0@.len(),
            },
    {
        match self {
            Json::List(items) => {
                if index < items.len() {
                    Some(&items[index])
                } else {
                    None
                }
            },
            _ => None,
        }
    }
}

} // verus!
