//! Rendering: the response that a problem becomes.
//!
//! A problem with an empty body is its status code and nothing more. Any
//! other problem is answered with a JSON object that holds the body's
//! members in ascending order of their names, under the media type
//! `application/problem+json`.

use crate::json::{json_text, string_to_value, string_value, value_text};
use crate::listing::{lemma_listing_of_as_map, listing};
use crate::problem::{members, Problem, ProblemView};
use crate::status::{status_as_u16, status_number};
use http::StatusCode;
use serde_json::Value;
use vstd::prelude::*;
use vstd::string::StringExecFns;

verus! {

/// The media type of a problem document.
pub const PROBLEM_JSON: &'static str = "application/problem+json";

/// A response as the serving layer is to send it.
#[derive(Debug)]
pub struct Response {
    /// The status of the response.
    pub status_code: StatusCode,
    /// The value of the `Content-Type` header, where the response has one.
    pub content_type: Option<&'static str>,
    /// The payload; empty where the response has none.
    pub body: String,
}

/// What a response is: its status, its media type if it has one, and the
/// text of its payload.
pub struct ResponseView {
    pub status_code: StatusCode,
    pub content_type: Option<Seq<char>>,
    pub body: Seq<char>,
}

impl View for Response {
    type V = ResponseView;

    open spec fn view(&self) -> ResponseView {
        ResponseView {
            status_code: self.status_code,
            content_type: match self.content_type {
                Some(media_type) => Some(media_type@),
                None => None,
            },
            body: self.body@,
        }
    }
}

impl Response {
    /// The number of the response's status, such as 404.
    pub fn status(&self) -> (number: u16)
        ensures
            number == status_number(self.status_code),
    {
        status_as_u16(self.status_code)
    }
}

/// One member of a JSON object: the name as a JSON string, a colon, and the
/// value.
pub open spec fn member_text(member: (Seq<char>, Value)) -> Seq<char> {
    json_text(string_value(member.0)) + seq![':'] + json_text(member.1)
}

/// The members of a JSON object in the order given, with a comma between
/// each two.
pub open spec fn members_text(s: Seq<(Seq<char>, Value)>) -> Seq<char>
    decreases s.len(),
{
    if s.len() == 0 {
        Seq::empty()
    } else if s.len() == 1 {
        member_text(s[0])
    } else {
        members_text(s.drop_last()) + seq![','] + member_text(s.last())
    }
}

/// The compact JSON object with the given members, in the order given.
pub open spec fn object_text(s: Seq<(Seq<char>, Value)>) -> Seq<char> {
    seq!['{'] + members_text(s) + seq!['}']
}

/// The response that a problem is rendered to.
pub open spec fn rendered(problem: ProblemView) -> ResponseView {
    if problem.body == Map::<Seq<char>, Value>::empty() {
        ResponseView {
            status_code: problem.status_code,
            content_type: None,
            body: Seq::empty(),
        }
    } else {
        ResponseView {
            status_code: problem.status_code,
            content_type: Some(PROBLEM_JSON@),
            body: object_text(listing(problem.body)),
        }
    }
}

/// Writes the JSON object that holds the given members in the order given.
pub fn encode_object(fields: &Vec<(String, Value)>) -> (text: String)
    ensures
        text@ == object_text(members(fields@)),
{
    let ghost s = members(fields@);
    let mut text = String::new();
    let mut i: usize = 0;
    proof {
        reveal_strlit("{");
        reveal_strlit(",");
        reveal_strlit(":");
        reveal_strlit("}");
    }
    text.append("{");
    assert(text@ =~= seq!['{'] + members_text(s.take(0)));
    while i < fields.len()
        invariant
            i <= fields.len(),
            s == members(fields@),
            text@ == seq!['{'] + members_text(s.take(i as int)),
            ","@ == seq![','],
            ":"@ == seq![':'],
        decreases fields.len() - i,
    {
        let ghost front = text@;
        if i > 0 {
            text.append(",");
        }
        let name = value_text(&string_to_value(fields[i].0.as_str()));
        let value = value_text(&fields[i].1);
        text.append(name.as_str());
        text.append(":");
        text.append(value.as_str());
        proof {
            let t = s.take(i as int + 1);
            assert(t.drop_last() =~= s.take(i as int));
            assert(t.last() == s[i as int]);
            assert(s[i as int] == (fields@[i as int].0@, fields@[i as int].1));
            if i > 0 {
                assert(text@ =~= front + seq![','] + member_text(s[i as int]));
            } else {
                assert(text@ =~= front + member_text(s[i as int]));
            }
            assert(text@ =~= seq!['{'] + members_text(t));
        }
        i += 1;
    }
    assert(s.take(i as int) =~= s);
    text.append("}");
    text
}

impl Problem {
    /// Renders the problem: the status code alone where the body is empty,
    /// else the body as a JSON object with its media type.
    pub fn into_response(self) -> (response: Response)
        ensures
            response@ == rendered(self@),
    {
        let status_code = self.status_code();
        if self.is_empty() {
            Response { status_code, content_type: None, body: String::new() }
        } else {
            let fields = self.entries();
            proof {
                lemma_listing_of_as_map(members(fields@));
            }
            let body = encode_object(fields);
            Response { status_code, content_type: Some(PROBLEM_JSON), body }
        }
    }
}

} // verus!
