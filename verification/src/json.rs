//! JSON values, as far as requests are read from them.

use vstd::prelude::*;

use crate::text;

verus! {

/// A JSON value; a number is kept as it is written.
#[derive(Debug)]
pub enum Json {
    Null,
    Bool(bool),
    Number(String),
    Text(String),
    Array(Vec<Json>),
    Object(Vec<(String, Json)>),
}

impl Json {
    /// The text that the value is, if it is one.
    pub open spec fn text(self) -> Option<Seq<char>> {
        match self {
            Json::Text(value) => Some(value@),
            _ => None,
        }
    }

    /// Whether member `i` is the first one with the name.
    pub open spec fn first_member(members: Seq<(String, Json)>, name: Seq<char>, i: int) -> bool {
        &&& 0 <= i < members.len()
        &&& members[i].0@ == name
        &&& forall|j: int| 0 <= j < i ==> #[trigger] members[j].0@ != name
    }

    /// The first member with the name, if the value is an object that has one.
    pub open spec fn member(self, name: Seq<char>) -> Option<Json> {
        match self {
            Json::Object(members) => if exists|i: int| Self::first_member(members@, name, i) {
                Some(members@[choose|i: int| Self::first_member(members@, name, i)].1)
            } else {
                None
            },
            _ => None,
        }
    }

    /// The text of the named member, if there is one and it is a text.
    pub open spec fn member_text(self, name: Seq<char>) -> Option<Seq<char>> {
        match self.member(name) {
            Some(value) => value.text(),
            None => None,
        }
    }

    pub fn as_str(&self) -> (r: Option<&str>)
        ensures
            text::opt_str(r) == self.text(),
    {
        match self {
            Json::Text(value) => Some(value.as_str()),
            _ => None,
        }
    }

    pub fn get(&self, name: &str) -> (r: Option<&Json>)
        ensures
            match r {
                Some(value) => self.member(name@) == Some(*value),
                None => self.member(name@) is None,
            },
    {
        match self {
            Json::Object(members) => {
                let mut i: usize = 0;
                while i < members.len()
                    invariant
                        i <= members@.len(),
                        *self == Json::Object(*members),
                        forall|j: int| 0 <= j < i ==> #[trigger] members@[j].0@ != name@,
                    decreases members@.len() - i,
                {
                    if text::same(members[i].0.as_str(), name) {
                        proof {
                            assert(Self::first_member(members@, name@, i as int));
                            let found = choose|j: int| Self::first_member(members@, name@, j);
                            assert(Self::first_member(members@, name@, found));
                            assert(found == i) by {
                                if found < i {
                                    assert(members@[found].0@ != name@);
                                } else if i < found {
                                    assert(members@[i as int].0@ != name@);
                                }
                            }
                            assert(self.member(name@) == Some(members@[found].1));
                        }
                        return Some(&members[i].1);
                    }
                    i += 1;
                }
                None
            },
            _ => None,
        }
    }

    /// The text of the named member, if there is one and it is a text.
    pub fn get_str(&self, name: &str) -> (r: Option<&str>)
        ensures
            text::opt_str(r) == self.member_text(name@),
    {
        match self.get(name) {
            Some(value) => value.as_str(),
            None => None,
        }
    }
}

/// The JSON text that the `serde_json` crate makes of a list of strings.
pub uninterp spec fn string_list_text(list: Seq<Seq<char>>) -> Seq<char>;

/// The list of strings that the `serde_json` crate reads out of a text, if the text is one.
pub uninterp spec fn string_list(json: Seq<char>) -> Option<Seq<Seq<char>>>;

/// Calls `serde_json::to_string` on a list of strings, which it never refuses. The list alone
/// decides the text, and `serde_json::from_str` reads the same list out of it again.
#[verifier::external_body]
pub(crate) fn write_string_list(list: &Vec<String>) -> (json: Option<String>)
    ensures
        json is Some,
        json->0@ == string_list_text(text::views(list@)),
        string_list(json->0@) == Some(text::views(list@)),
{
    serde_json::to_string(list).ok()
}

/// Calls `serde_json::from_str` for a list of strings; the text alone decides whether it is one,
/// and which.
#[verifier::external_body]
pub(crate) fn read_string_list(json: &str) -> (list: Option<Vec<String>>)
    ensures
        match list {
            Some(read) => string_list(json@) == Some(text::views(read@)),
            None => string_list(json@) is None,
        },
{
    serde_json::from_str::<Vec<String>>(json).ok()
}

/// The file names that a stored list holds; none where it cannot be read.
pub open spec fn listed(json: Seq<char>) -> Seq<Seq<char>> {
    match string_list(json) {
        Some(list) => list,
        None => Seq::empty(),
    }
}

/// The file names that a stored list holds; none where it cannot be read.
pub fn file_list(json: &str) -> (r: Vec<String>)
    ensures
        text::views(r@) == listed(json@),
{
    match read_string_list(json) {
        Some(list) => list,
        None => {
            let none: Vec<String> = Vec::new();
            assert(text::views(none@) == Seq::<Seq<char>>::empty());
            none
        },
    }
}

/// A member is found by its name: the first of several, and only in objects.
pub proof fn members_are_found_by_name(value: Json, name: &str, i: int, r: Option<&Json>)
    requires
        call_ensures(Json::get, (&value, name), r),
    ensures
        !(value is Object) ==> r is None,
        value matches Json::Object(members) ==> {
            &&& 0 <= i < members@.len() && members@[i].0@ == name@ && (forall|j: int|
                0 <= j < i ==> (#[trigger] members@[j]).0@ != name@) ==> r is Some && *r->0
                == members@[i].1
            &&& (forall|j: int| 0 <= j < members@.len() ==> (#[trigger] members@[j]).0@ != name@)
                ==> r is None
        },
{
    if value is Object {
        let members = value->Object_0@;
        if 0 <= i < members.len() && members[i].0@ == name@ && (forall|j: int|
            0 <= j < i ==> (#[trigger] members[j]).0@ != name@) {
            assert(Json::first_member(members, name@, i));
            let found = choose|k: int| Json::first_member(members, name@, k);
            assert(Json::first_member(members, name@, found));
            if found < i {
                assert(members[found].0@ != name@);
            } else if i < found {
                assert(members[i].0@ != name@);
            }
        }
        if forall|j: int| 0 <= j < members.len() ==> (#[trigger] members[j]).0@ != name@ {
            if exists|k: int| Json::first_member(members, name@, k) {
                let found = choose|k: int| Json::first_member(members, name@, k);
                assert(members[found].0@ != name@);
            }
        }
    }
}

/// A text member is found where the member is a text.
pub proof fn text_members_are_texts(
    value: Json,
    name: &str,
    member: Option<&Json>,
    r: Option<&str>,
)
    requires
        call_ensures(Json::get, (&value, name), member),
        call_ensures(Json::get_str, (&value, name), r),
    ensures
        r is Some <==> member is Some && *member->0 is Text,
        r is Some ==> r->0@ == (*member->0)->Text_0@,
{
}

/// A stored list of files is read as it was written; what is no list holds no files.
pub proof fn stored_lists_are_read(json: &str, r: Vec<String>)
    requires
        call_ensures(file_list, (json,), r),
    ensures
        string_list(json@) is Some ==> text::views(r@) == string_list(json@)->0,
        string_list(json@) is None ==> r@.len() == 0,
{
    assert(text::views(r@).len() == r@.len());
}

/// A value is read as a text exactly where it is one.
pub proof fn only_texts_are_texts(value: Json, r: Option<&str>)
    requires
        call_ensures(Json::as_str, (&value,), r),
    ensures
        r is Some <==> value is Text,
        r is Some ==> r->0@ == value->Text_0@,
{
}

} // verus!
