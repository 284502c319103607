//! JSON values as the manifest holds them in its open fields.

use crate::name_map::NameMap;
use crate::text::views;
use vstd::prelude::*;

verus! {

/// A JSON value. A number is held as the decimal text that stands for it; the
/// members of an object are held by name, in ascending order of the names.
#[derive(Debug, PartialEq, Eq)]
pub enum JsonValue {
    Null,
    Bool(bool),
    Number(String),
    Text(String),
    Array(Vec<JsonValue>),
    Object(NameMap<JsonValue>),
}

impl JsonValue {
    /// The characters of a JSON string; `None` for any other value.
    pub open spec fn spec_as_text(&self) -> Option<Seq<char>> {
        match self {
            JsonValue::Text(s) => Some(s@),
            _ => None,
        }
    }

    /// The strings of a JSON array all of whose items are strings; `None` for
    /// any other value.
    pub open spec fn spec_as_text_list(&self) -> Option<Seq<Seq<char>>> {
        match self {
            JsonValue::Array(items) => if forall|i: int|
                0 <= i < items@.len() ==> (#[trigger] items@[i]) is Text {
                Some(Seq::new(items@.len(), |i: int| items@[i]->Text_0@))
            } else {
                None
            },
            _ => None,
        }
    }

    /// The member `key` of a JSON object; `None` where the value is no object
    /// or has no such member.
    pub open spec fn spec_member(&self, key: Seq<char>) -> Option<JsonValue> {
        match self {
            JsonValue::Object(members) => members.spec_get(key),
            _ => None,
        }
    }

    /// Decodes a JSON string.
    pub fn as_text(&self) -> (r: Option<String>)
        ensures
            r is Some == self.spec_as_text() is Some,
            r matches Some(s) ==> self.spec_as_text() == Some(s@),
    {
        match self {
            JsonValue::Text(s) => Some(s.clone()),
            _ => None,
        }
    }

    /// Decodes a JSON array of strings.
    pub fn as_text_list(&self) -> (r: Option<Vec<String>>)
        ensures
            r is Some == self.spec_as_text_list() is Some,
            r matches Some(list) ==> self.spec_as_text_list() == Some(views(list@)),
    {
        match self {
            JsonValue::Array(items) => {
                let mut out: Vec<String> = Vec::new();
                let mut i: usize = 0;
                while i < items.len()
                    invariant
                        *self == JsonValue::Array(*items),
                        0 <= i <= items.len(),
                        out.len() == i,
                        forall|j: int| 0 <= j < i ==> (#[trigger] items@[j]) is Text,
                        forall|j: int| 0 <= j < i ==> out[j]@ == items@[j]->Text_0@,
                    decreases items.len() - i,
                {
                    match &items[i] {
                        JsonValue::Text(s) => {
                            out.push(s.clone());
                        },
                        _ => {
                            proof {
                                assert(!(items@[i as int] is Text));
                            }
                            return None;
                        },
                    }
                    i += 1;
                }
                proof {
                    assert(views(out@) =~= Seq::new(items@.len(), |i: int| items@[i]->Text_0@));
                }
                Some(out)
            },
            _ => None,
        }
    }

    /// The member `key` of a JSON object.
    pub fn get(&self, key: &str) -> (r: Option<&JsonValue>)
        ensures
            r is Some == self.spec_member(key@) is Some,
            r matches Some(v) ==> self.spec_member(key@) == Some(*v),
    {
        match self {
            JsonValue::Object(members) => members.get(key),
            _ => None,
        }
    }
}

} // verus!
