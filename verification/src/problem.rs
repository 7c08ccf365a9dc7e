//! The problem value: a status code and a body of JSON members, built up
//! call by call.

use crate::json::{clone_value, string_value, string_to_value};
use crate::key::{
    compare_keys, lemma_precedes_asymmetric, lemma_precedes_transitive, precedes, KeyOrder,
};
use crate::listing::{
    as_map, ascending, has_key, lemma_as_map_keys, lemma_as_map_len, lemma_as_map_values,
    lemma_insert_at, lemma_replace_at, lists,
};
use http::StatusCode;
use serde_json::Value;
use vstd::prelude::*;

verus! {

/// What a problem is: its status code, and its body as a map from member
/// name to JSON value.
pub struct ProblemView {
    pub status_code: StatusCode,
    pub body: Map<Seq<char>, Value>,
}

impl ProblemView {
    /// A problem that is a status code and nothing else.
    pub open spec fn bare(status_code: StatusCode) -> ProblemView {
        ProblemView { status_code, body: Map::empty() }
    }

    /// The body's keys are finitely many, as those of every built problem are.
    pub open spec fn finite(self) -> bool {
        self.body.dom().finite()
    }

    /// The problem with `body[key]` set to `value`, whatever it was before.
    pub open spec fn with_value(self, key: Seq<char>, value: Value) -> ProblemView {
        ProblemView { status_code: self.status_code, body: self.body.insert(key, value) }
    }

    /// The problem with the member `type` set to the given text.
    pub open spec fn with_type(self, value: Seq<char>) -> ProblemView {
        self.with_value("type"@, string_value(value))
    }

    /// The problem with the member `title` set to the given text.
    pub open spec fn with_title(self, value: Seq<char>) -> ProblemView {
        self.with_value("title"@, string_value(value))
    }

    /// The problem with the member `detail` set to the given text.
    pub open spec fn with_detail(self, value: Seq<char>) -> ProblemView {
        self.with_value("detail"@, string_value(value))
    }

    /// The problem with the member `instance` set to the given text.
    pub open spec fn with_instance(self, value: Seq<char>) -> ProblemView {
        self.with_value("instance"@, string_value(value))
    }
}

/// The stored members with each name taken as text.
pub open spec fn members(fields: Seq<(String, Value)>) -> Seq<(Seq<char>, Value)> {
    fields.map_values(|field: (String, Value)| (field.0@, field.1))
}

/// A problem to report to the client: a status code and the members of its
/// JSON body, kept in ascending order of their names.
#[derive(Debug)]
pub struct Problem {
    status_code: StatusCode,
    fields: Vec<(String, Value)>,
}

impl View for Problem {
    type V = ProblemView;

    closed spec fn view(&self) -> ProblemView {
        ProblemView { status_code: self.status_code, body: as_map(members(self.fields@)) }
    }
}

/// Creates a problem with the given status code and an empty body.
pub fn new(status_code: StatusCode) -> (problem: Problem)
    ensures
        problem@ == ProblemView::bare(status_code),
{
    Problem { status_code, fields: Vec::new() }
}

/// Finds where `key` belongs among the fields: the number of names that
/// come before it, and whether the name at that place is `key` itself.
fn find_place(fields: &Vec<(String, Value)>, key: &str) -> (at: (usize, bool))
    requires
        ascending(members(fields@)),
    ensures
        at.0 <= fields.len(),
        forall|i: int|
            #![trigger members(fields@)[i]]
            0 <= i < at.0 ==> precedes(members(fields@)[i].0, key@),
        at.1 ==> at.0 < fields.len() && members(fields@)[at.0 as int].0 == key@,
        !at.1 ==> forall|i: int|
            #![trigger members(fields@)[i]]
            at.0 <= i < fields.len() ==> precedes(key@, members(fields@)[i].0),
{
    let ghost s = members(fields@);
    let mut place: usize = 0;
    while place < fields.len()
        invariant
            place <= fields.len(),
            s == members(fields@),
            ascending(s),
            forall|i: int| #![trigger s[i]] 0 <= i < place ==> precedes(s[i].0, key@),
        decreases fields.len() - place,
    {
        let order = compare_keys(fields[place].0.as_str(), key);
        assert(s[place as int].0 == fields[place as int].0@);
        match order {
            KeyOrder::Before => {
                place += 1;
            },
            KeyOrder::Same => {
                return (place, true);
            },
            KeyOrder::After => {
                proof {
                    assert forall|i: int| #![trigger s[i]] place <= i < s.len() implies precedes(
                        key@,
                        s[i].0,
                    ) by {
                        if i > place {
                            assert(precedes(s[place as int].0, s[i].0));
                            lemma_precedes_transitive(key@, s[place as int].0, s[i].0);
                        }
                    }
                }
                return (place, false);
            },
        }
    }
    (place, false)
}

impl Problem {
    #[verifier::type_invariant]
    spec fn ordered(&self) -> bool {
        ascending(members(self.fields@))
    }

    /// Sets `body[key]` to `value`: a new member if the key is new, the
    /// member's new value if it is not.
    #[must_use]
    pub fn with_value(self, key: &str, value: Value) -> (problem: Problem)
        ensures
            problem@ == self@.with_value(key@, value),
    {
        proof {
            use_type_invariant(&self);
        }
        let Problem { status_code, mut fields } = self;
        let ghost before = members(fields@);
        let (place, found) = find_place(&fields, key);
        let name = key.to_owned();
        proof {
            if found {
                lemma_replace_at(before, place as int, key@, value);
            } else {
                lemma_insert_at(before, place as int, key@, value);
            }
        }
        if found {
            fields.set(place, (name, value));
            assert(members(fields@) =~= before.update(place as int, (key@, value)));
        } else {
            fields.insert(place, (name, value));
            assert(members(fields@) =~= before.insert(place as int, (key@, value)));
        }
        Problem { status_code, fields }
    }

    /// Sets the member `type`.
    #[must_use]
    pub fn with_type(self, value: &str) -> (problem: Problem)
        ensures
            problem@ == self@.with_type(value@),
    {
        self.with_value("type", string_to_value(value))
    }

    /// Sets the member `title`.
    #[must_use]
    pub fn with_title(self, value: &str) -> (problem: Problem)
        ensures
            problem@ == self@.with_title(value@),
    {
        self.with_value("title", string_to_value(value))
    }

    /// Sets the member `detail`.
    #[must_use]
    pub fn with_detail(self, value: &str) -> (problem: Problem)
        ensures
            problem@ == self@.with_detail(value@),
    {
        self.with_value("detail", string_to_value(value))
    }

    /// Sets the member `instance`.
    #[must_use]
    pub fn with_instance(self, value: &str) -> (problem: Problem)
        ensures
            problem@ == self@.with_instance(value@),
    {
        self.with_value("instance", string_to_value(value))
    }

    /// The status code of the problem.
    pub fn status_code(&self) -> (status_code: StatusCode)
        ensures
            status_code == self@.status_code,
    {
        self.status_code
    }

    /// The members of the body in ascending order of their names.
    pub fn entries(&self) -> (fields: &Vec<(String, Value)>)
        ensures
            lists(members(fields@), self@.body),
    {
        proof {
            use_type_invariant(self);
        }
        &self.fields
    }

    /// The value of the member `key`, if the body has one.
    pub fn get(&self, key: &str) -> (value: Option<&Value>)
        ensures
            match value {
                Some(found) => self@.body.contains_key(key@) && *found == self@.body[key@],
                None => !self@.body.contains_key(key@),
            },
    {
        proof {
            use_type_invariant(self);
            lemma_as_map_keys(members(self.fields@));
            lemma_as_map_values(members(self.fields@));
        }
        let (place, found) = find_place(&self.fields, key);
        if found {
            assert(members(self.fields@)[place as int].1 == self.fields[place as int].1);
            Some(&self.fields[place].1)
        } else {
            proof {
                let s = members(self.fields@);
                if has_key(s, key@) {
                    let i = choose|i: int| #![trigger s[i]] 0 <= i < s.len() && s[i].0 == key@;
                    if i < place {
                        lemma_precedes_asymmetric(s[i].0, key@);
                    } else {
                        lemma_precedes_asymmetric(key@, s[i].0);
                    }
                }
            }
            None
        }
    }

    /// The number of members in the body.
    pub fn len(&self) -> (count: usize)
        ensures
            self@.finite(),
            count == self@.body.len(),
    {
        proof {
            use_type_invariant(self);
            lemma_as_map_len(members(self.fields@));
        }
        self.fields.len()
    }

    /// Whether the body has no member.
    pub fn is_empty(&self) -> (empty: bool)
        ensures
            empty <==> self@.body == Map::<Seq<char>, Value>::empty(),
    {
        proof {
            use_type_invariant(self);
            let s = members(self.fields@);
            lemma_as_map_keys(s);
            if s.len() > 0 {
                assert(has_key(s, s[0].0));
                assert(as_map(s).dom().contains(s[0].0));
            } else {
                assert(as_map(s) =~= Map::<Seq<char>, Value>::empty());
            }
        }
        self.fields.len() == 0
    }
}

impl From<StatusCode> for Problem {
    /// The problem with the given status code and an empty body.
    fn from(status_code: StatusCode) -> (problem: Problem)
        ensures
            problem@ == ProblemView::bare(status_code),
    {
        new(status_code)
    }
}

impl vstd::std_specs::convert::FromSpecImpl<StatusCode> for Problem {
    /// What `from` returns is stated on `from` itself, over the view: a
    /// problem has no spec-level constructor to state it with here.
    open spec fn obeys_from_spec() -> bool {
        false
    }

    open spec fn from_spec(status_code: StatusCode) -> Problem {
        arbitrary()
    }
}

impl Clone for Problem {
    /// A problem with the same status code and the same body.
    fn clone(&self) -> (problem: Problem)
        ensures
            problem@ == self@,
    {
        proof {
            use_type_invariant(self);
        }
        let mut fields: Vec<(String, Value)> = Vec::new();
        let mut i: usize = 0;
        while i < self.fields.len()
            invariant
                i <= self.fields.len(),
                fields@ == self.fields@.take(i as int),
            decreases self.fields.len() - i,
        {
            let name = self.fields[i].0.clone();
            let value = clone_value(&self.fields[i].1);
            fields.push((name, value));
            assert(fields@ =~= self.fields@.take(i as int + 1));
            i += 1;
        }
        assert(fields@ =~= self.fields@);
        Problem { status_code: self.status_code, fields }
    }
}

} // verus!
