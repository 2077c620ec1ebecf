//! JSON values.

use vstd::prelude::*;

verus! {

/// A JSON number. A double is given by the bits of its IEEE 754 form. An integer
/// comes with the bits of the double that is nearest to it.
#[derive(Debug, Clone, Copy, PartialEq, Eq, Structural)]
pub enum Number {
    Unsigned { value: u64, double: u64 },
    Negative { value: i64, double: u64 },
    Double { bits: u64 },
}

/// A JSON value. The members of an object are ordered by name.
#[derive(Debug, PartialEq, Eq)]
pub enum Json {
    Null,
    Bool(bool),
    Number(Number),
    Text(String),
    List(Vec<Json>),
    Object(Vec<(String, Json)>),
}

/// The content of a JSON value.
#[verifier::ext_equal]
pub enum JsonView {
    Null,
    Bool(bool),
    Number(Number),
    Text(Seq<char>),
    List(Seq<JsonView>),
    Object(Seq<(Seq<char>, JsonView)>),
}

/// The content of a JSON value.
pub open spec fn json_view(json: Json) -> JsonView
    decreases json,
{
    match json {
        Json::Null => JsonView::Null,
        Json::Bool(value) => JsonView::Bool(value),
        Json::Number(value) => JsonView::Number(value),
        Json::Text(value) => JsonView::Text(value@),
        Json::List(items) => JsonView::List(
            Seq::new(
                items@.len(),
                |i: int|
                    if 0 <= i < items@.len() {
                        json_view(items@[i])
                    } else {
                        JsonView::Null
                    },
            ),
        ),
        Json::Object(members) => JsonView::Object(
            Seq::new(
                members@.len(),
                |i: int|
                    if 0 <= i < members@.len() {
                        (members@[i].0@, json_view(members@[i].1))
                    } else {
                        (Seq::empty(), JsonView::Null)
                    },
            ),
        ),
    }
}

impl DeepView for Json {
    type V = JsonView;

    open spec fn deep_view(&self) -> JsonView {
        json_view(*self)
    }
}

/// The content of a list is the content of its items.
pub broadcast proof fn lemma_list_view(items: Vec<Json>)
    ensures
        #[trigger] json_view(Json::List(items)) == JsonView::List(items.deep_view()),
{
    let shown = json_view(Json::List(items));
    assert(shown is List);
    assert(shown->List_0 =~= items.deep_view());
}

/// The content of an object is the content of its members.
pub broadcast proof fn lemma_object_view(members: Vec<(String, Json)>)
    ensures
        #[trigger] json_view(Json::Object(members)) == JsonView::Object(members.deep_view()),
{
    let shown = json_view(Json::Object(members));
    assert(shown is Object);
    assert(shown->Object_0 =~= members.deep_view());
}

pub broadcast group group_json_views {
    lemma_list_view,
    lemma_object_view,
}

impl Json {
    /// A value with the same content.
    pub fn copy(&self) -> (r: Json)
        ensures
            r.deep_view() == self.deep_view(),
        decreases self,
    {
        broadcast use group_json_views;

        match self {
            Json::Null => Json::Null,
            Json::Bool(value) => Json::Bool(*value),
            Json::Number(value) => Json::Number(*value),
            Json::Text(value) => Json::Text(value.clone()),
            Json::List(items) => {
                let mut copies: Vec<Json> = Vec::new();
                let mut i: usize = 0;
                while i < items.len()
                    invariant
                        i <= items.len(),
                        copies.len() == i,
                        decreases_to!(self => items@),
                        forall|j: int|
                            0 <= j < i ==> #[trigger] copies.deep_view()[j]
                                == items@[j].deep_view(),
                    decreases items.len() - i,
                {
                    let ghost before = copies.deep_view();
                    assert(decreases_to!(items@ => items@[i as int]));
                    let item = items[i].copy();
                    copies.push(item);
                    proof {
                        assert forall|j: int| 0 <= j < i + 1 implies #[trigger] copies.deep_view()[j]
                            == items@[j].deep_view() by {
                            if j < i {
                                assert(copies.deep_view()[j] == before[j]);
                            }
                        }
                    }
                    i += 1;
                }
                assert(copies.deep_view() =~= items.deep_view());
                Json::List(copies)
            },
            Json::Object(members) => {
                let mut copies: Vec<(String, Json)> = Vec::new();
                let mut i: usize = 0;
                while i < members.len()
                    invariant
                        i <= members.len(),
                        copies.len() == i,
                        decreases_to!(self => members@),
                        forall|j: int|
                            0 <= j < i ==> #[trigger] copies.deep_view()[j]
                                == members@[j].deep_view(),
                    decreases members.len() - i,
                {
                    let ghost before = copies.deep_view();
                    assert(decreases_to!(members@ => members@[i as int]));
                    assert(decreases_to!(members@[i as int] => members@[i as int].1));
                    let member = (members[i].0.clone(), members[i].1.copy());
                    copies.push(member);
                    proof {
                        assert forall|j: int| 0 <= j < i + 1 implies #[trigger] copies.deep_view()[j]
                            == members@[j].deep_view() by {
                            if j < i {
                                assert(copies.deep_view()[j] == before[j]);
                            }
                        }
                    }
                    i += 1;
                }
                assert(copies.deep_view() =~= members.deep_view());
                Json::Object(copies)
            },
        }
    }
}

} // verus!
