//! JSON values: what the library reads out of requests and writes into responses.
use vstd::prelude::*;

use crate::text::same_text;

verus! {

/// A JSON value.
///
/// Numbers that do not fit an `i64` keep their notation: nothing here computes with them.
#[derive(Debug)]
pub enum Json {
    /// `null`.
    Null,
    /// `true` or `false`.
    Bool(bool),
    /// A whole number.
    Int(i64),
    /// Any other number, as it is written.
    Number(String),
    /// A string.
    Str(String),
    /// An array.
    Array(Vec<Json>),
    /// An object.
    Object(JsonObject),
}

/// The members of a JSON object. No key occurs twice.
#[derive(Debug)]
pub struct JsonObject {
    members: Vec<Member>,
}

/// One member of a JSON object.
#[derive(Debug)]
struct Member {
    key: String,
    value: Json,
}

/// What a [`Json`] stands for: an object is a map from its keys to its values.
pub enum JsonView {
    /// `null`.
    Null,
    /// `true` or `false`.
    Bool(bool),
    /// A whole number.
    Int(int),
    /// Any other number, as it is written.
    Number(Seq<char>),
    /// A string.
    Str(Seq<char>),
    /// An array.
    Array(Seq<JsonView>),
    /// An object.
    Object(Map<Seq<char>, JsonView>),
}

impl JsonView {
    /// The value of the member `key`, where this is an object that has one.
    pub open spec fn get(self, key: Seq<char>) -> Option<JsonView> {
        match self {
            JsonView::Object(m) => if m.contains_key(key) {
                Some(m[key])
            } else {
                None
            },
            _ => None,
        }
    }

    /// The text, where this is a string.
    pub open spec fn as_str(self) -> Option<Seq<char>> {
        match self {
            JsonView::Str(s) => Some(s),
            _ => None,
        }
    }
}

impl Json {
    /// What the value stands for.
    pub open spec fn view(&self) -> JsonView
        decreases self,
    {
        match self {
            Json::Null => JsonView::Null,
            Json::Bool(b) => JsonView::Bool(*b),
            Json::Int(n) => JsonView::Int(*n as int),
            Json::Number(s) => JsonView::Number(s@),
            Json::Str(s) => JsonView::Str(s@),
            Json::Array(v) => JsonView::Array(
                Seq::new(
                    v@.len(),
                    |i: int|
                        if 0 <= i < v@.len() {
                            v@[i].view()
                        } else {
                            JsonView::Null
                        },
                ),
            ),
            Json::Object(o) => JsonView::Object(o.view()),
        }
    }
}

impl Json {
    /// The string `s`.
    pub fn text(s: &str) -> (r: Json)
        ensures
            r@ == JsonView::Str(s@),
    {
        Json::Str(s.to_owned())
    }

    /// The value of the member `key`, where this is an object that has one.
    pub fn get(&self, key: &str) -> (r: Option<&Json>)
        ensures
            match r {
                Some(v) => self@.get(key@) == Some(v@),
                None => self@.get(key@) is None,
            },
    {
        match self {
            Json::Object(o) => o.get(key),
            _ => None,
        }
    }

    /// The text, where this is a string.
    pub fn as_str(&self) -> (r: Option<&str>)
        ensures
            match r {
                Some(s) => self@.as_str() == Some(s@),
                None => self@.as_str() is None,
            },
    {
        match self {
            Json::Str(s) => Some(s.as_str()),
            _ => None,
        }
    }

    /// The items, where this is an array.
    pub fn as_array(&self) -> (r: Option<&Vec<Json>>)
        ensures
            match r {
                Some(v) => self@ == JsonView::Array(views(v@)),
                None => !(self@ is Array),
            },
    {
        match self {
            Json::Array(v) => {
                proof {
                    lemma_array(*self);
                }
                Some(v)
            },
            _ => None,
        }
    }
}

/// An array stands for the sequence of what its items stand for.
pub proof fn lemma_array(j: Json)
    requires
        j is Array,
    ensures
        j@ == JsonView::Array(views(j->Array_0@)),
{
    assert(j@->Array_0 =~= views(j->Array_0@));
}

/// What each of the values stands for.
pub open spec fn views(s: Seq<Json>) -> Seq<JsonView> {
    s.map_values(|v: Json| v@)
}

/// Whether the member `i` of `members` has the key `key`.
spec fn has_key_at(members: Seq<Member>, key: Seq<char>, i: int) -> bool {
    0 <= i < members.len() && members[i].key@ == key
}

/// Whether no key occurs twice.
spec fn distinct_keys(members: Seq<Member>) -> bool {
    forall|i: int, j: int|
        0 <= i < j < members.len() ==> #[trigger] members[i].key@ != #[trigger] members[j].key@
}

impl JsonObject {
    /// The map from keys to values.
    pub closed spec fn view(&self) -> Map<Seq<char>, JsonView>
        decreases self,
    {
        Map::new(
            |k: Seq<char>| exists|i: int| has_key_at(self.members@, k, i),
            |k: Seq<char>|
                {
                    let i = choose|i: int| has_key_at(self.members@, k, i);
                    if 0 <= i < self.members@.len() {
                        self.members@[i].value.view()
                    } else {
                        JsonView::Null
                    }
                },
        )
    }

    /// The keys, in the order in which they were first inserted.
    pub closed spec fn keys(&self) -> Seq<Seq<char>> {
        Seq::new(self.members@.len(), |i: int| self.members@[i].key@)
    }

    #[verifier::type_invariant]
    spec fn well_formed(self) -> bool {
        distinct_keys(self.members@)
    }

    /// Where no key occurs twice, the map takes each key to the value that stands with it.
    proof fn lemma_at(&self, i: int)
        requires
            distinct_keys(self.members@),
            0 <= i < self.members@.len(),
        ensures
            self@.contains_key(self.members@[i].key@),
            self@[self.members@[i].key@] == self.members@[i].value@,
    {
        let k = self.members@[i].key@;
        assert(has_key_at(self.members@, k, i));
        let j = choose|j: int| has_key_at(self.members@, k, j);
        assert(i == j);
    }

    /// The keys are what the map is defined on.
    pub proof fn lemma_keys(&self)
        ensures
            forall|k: Seq<char>| #[trigger] self@.contains_key(k) <==> self.keys().contains(k),
    {
        assert forall|k: Seq<char>| #[trigger] self@.contains_key(k) implies self.keys().contains(
            k,
        ) by {
            let i = choose|i: int| has_key_at(self.members@, k, i);
            assert(self.keys()[i] == k);
        }
        assert forall|k: Seq<char>| self.keys().contains(k) implies #[trigger] self@.contains_key(
            k,
        ) by {
            let i = self.keys().index_of(k);
            assert(has_key_at(self.members@, k, i));
        }
    }

    /// An object without members.
    pub fn new() -> (r: JsonObject)
        ensures
            r@ == Map::<Seq<char>, JsonView>::empty(),
            r.keys() == Seq::<Seq<char>>::empty(),
    {
        let r = JsonObject { members: Vec::new() };
        assert(r@ =~= Map::<Seq<char>, JsonView>::empty());
        assert(r.keys() =~= Seq::<Seq<char>>::empty());
        r
    }

    /// The number of members.
    pub fn len(&self) -> (r: usize)
        ensures
            r == self.keys().len(),
    {
        self.members.len()
    }

    /// The key of the member `i`.
    pub fn key_at(&self, i: usize) -> (r: &str)
        requires
            i < self.keys().len(),
        ensures
            r@ == self.keys()[i as int],
    {
        self.members[i].key.as_str()
    }

    /// The value of the member `i`.
    pub fn value_at(&self, i: usize) -> (r: &Json)
        requires
            i < self.keys().len(),
        ensures
            self@.contains_key(self.keys()[i as int]),
            r@ == self@[self.keys()[i as int]],
    {
        proof {
            use_type_invariant(self);
            self.lemma_at(i as int);
        }
        &self.members[i].value
    }

    /// The position of the member with the key `key`.
    fn find(&self, key: &str) -> (r: Option<usize>)
        ensures
            match r {
                Some(i) => i < self.keys().len() && self.keys()[i as int] == key@,
                None => !self@.contains_key(key@),
            },
    {
        let mut i: usize = 0;
        while i < self.members.len()
            invariant
                i <= self.members@.len(),
                forall|j: int| 0 <= j < i ==> self.members@[j].key@ != key@,
            decreases self.members@.len() - i,
        {
            if same_text(self.members[i].key.as_str(), key) {
                return Some(i);
            }
            i = i + 1;
        }
        None
    }

    /// The value of the member `key`.
    pub fn get(&self, key: &str) -> (r: Option<&Json>)
        ensures
            match r {
                Some(v) => self@.contains_key(key@) && v@ == self@[key@],
                None => !self@.contains_key(key@),
            },
    {
        match self.find(key) {
            Some(i) => Some(self.value_at(i)),
            None => None,
        }
    }

    /// Sets the member `key` to `value`, whether or not there was one. A new member stands behind
    /// the others.
    pub fn insert(&mut self, key: String, value: Json)
        ensures
            final(self)@ == old(self)@.insert(key@, value@),
            final(self).keys() == if old(self)@.contains_key(key@) {
                old(self).keys()
            } else {
                old(self).keys().push(key@)
            },
    {
        proof {
            use_type_invariant(&*self);
        }
        let ghost before = *self;
        let ghost added = Member { key, value };
        let ghost after = before@.insert(key@, value@);
        let found = self.find(key.as_str());
        let mut members: Vec<Member> = Vec::new();
        std::mem::swap(&mut members, &mut self.members);
        match found {
            Some(i) => {
                members.set(i, Member { key, value });
            },
            None => {
                members.push(Member { key, value });
            },
        }
        proof {
            let at = match found {
                Some(i) => i as int,
                None => before.members@.len() as int,
            };
            assert(members@[at] == added);
            assert forall|i: int, j: int| 0 <= i < j < members@.len() implies #[trigger]
                members@[i].key@ != #[trigger] members@[j].key@ by {
                if i != at {
                    assert(has_key_at(before.members@, members@[i].key@, i));
                }
                if j != at {
                    assert(has_key_at(before.members@, members@[j].key@, j));
                }
            }
        }
        self.members = members;
        proof {
            let at = match found {
                Some(i) => i as int,
                None => before.members@.len() as int,
            };
            assert forall|k: Seq<char>|
                #![trigger self@.contains_key(k)]
                (self@.contains_key(k) <==> after.contains_key(k)) && (self@.contains_key(k)
                    ==> self@[k] == after[k]) by {
                self.lemma_keys();
                before.lemma_keys();
                if self@.contains_key(k) {
                    let i = self.keys().index_of(k);
                    self.lemma_at(i);
                    if i != at {
                        before.lemma_at(i);
                    }
                } else {
                    self.lemma_at(at);
                    if before@.contains_key(k) {
                        let i = before.keys().index_of(k);
                        self.lemma_at(i);
                    }
                }
            }
            assert(self@ =~= after);
            before.lemma_keys();
            if found is Some {
                assert(before.keys().contains(added.key@));
                assert(self.keys() =~= before.keys());
            } else {
                assert(self.keys() =~= before.keys().push(added.key@));
            }
        }
    }

    /// The object with the member `key` set to `value`.
    pub fn with(self, key: &str, value: Json) -> (r: JsonObject)
        ensures
            r@ == self@.insert(key@, value@),
    {
        let mut out = self;
        out.insert(key.to_owned(), value);
        out
    }
}

impl Default for JsonObject {
    fn default() -> (r: JsonObject)
        ensures
            r@ == Map::<Seq<char>, JsonView>::empty(),
    {
        JsonObject::new()
    }
}

/// Values stand for what they hold: a string for its characters, an array for its items in their
/// order, an object for its members.
pub proof fn law_values_stand_for_what_they_hold(
    b: bool,
    n: i64,
    s: String,
    items: Vec<Json>,
    members: JsonObject,
)
    ensures
        Json::Null@ == JsonView::Null,
        Json::Bool(b)@ == JsonView::Bool(b),
        Json::Int(n)@ == JsonView::Int(n as int),
        Json::Number(s)@ == JsonView::Number(s@),
        Json::Str(s)@ == JsonView::Str(s@),
        Json::Array(items)@ is Array,
        Json::Array(items)@->Array_0.len() == items@.len(),
        forall|i: int|
            0 <= i < items@.len() ==> #[trigger] Json::Array(items)@->Array_0[i] == items@[i]@,
        Json::Object(members)@ == JsonView::Object(members@),
{
}

/// A member of an object is found under its key, and nowhere else is anything found.
pub proof fn law_members_are_found(v: JsonView, m: Map<Seq<char>, JsonView>, k: Seq<char>)
    ensures
        m.contains_key(k) ==> JsonView::Object(m).get(k) == Some(m[k]),
        !m.contains_key(k) ==> JsonView::Object(m).get(k) is None,
        !(v is Object) ==> v.get(k) is None,
        JsonView::Str(k).as_str() == Some(k),
        !(v is Str) ==> v.as_str() is None,
{
}

} // verus!
