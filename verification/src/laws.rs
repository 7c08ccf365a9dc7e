//! What holds of every problem, stated over the views that the functions'
//! contracts speak of.

use crate::handler::{failure_text, PanicHandlerView};
use crate::json::string_value;
use crate::key::precedes;
use crate::listing::{
    has_key, lemma_as_map_keys, lemma_as_map_len, lemma_as_map_values, lemma_listing_exists,
    listing,
};
use crate::problem::ProblemView;
use crate::response::{object_text, rendered, ResponseView};
use serde_json::Value;
use vstd::prelude::*;

verus! {

/// A problem that was given nothing but a status code is rendered to that
/// status code alone: no payload and no `Content-Type`.
pub proof fn law_bare_problem_renders_status_alone(status_code: http::StatusCode)
    ensures
        rendered(ProblemView::bare(status_code)) == (ResponseView {
            status_code,
            content_type: None,
            body: Seq::empty(),
        }),
{
}

/// A problem with a body is rendered with its own status code, the media
/// type `application/problem+json`, and a JSON object whose members are the
/// body's entries, each once, in strictly ascending order of their names.
pub proof fn law_body_renders_in_key_order(problem: ProblemView)
    requires
        problem.finite(),
        problem.body != Map::<Seq<char>, Value>::empty(),
    ensures
        rendered(problem).status_code == problem.status_code,
        rendered(problem).content_type == Some("application/problem+json"@),
        rendered(problem).body == object_text(listing(problem.body)),
        listing(problem.body).len() == problem.body.len(),
        forall|i: int, j: int|
            #![trigger listing(problem.body)[i], listing(problem.body)[j]]
            0 <= i < j < listing(problem.body).len() ==> precedes(
                listing(problem.body)[i].0,
                listing(problem.body)[j].0,
            ),
        forall|key: Seq<char>| #[trigger]
            problem.body.contains_key(key) <==> has_key(listing(problem.body), key),
        forall|i: int|
            #![trigger listing(problem.body)[i]]
            0 <= i < listing(problem.body).len() ==> problem.body.contains_key(
                listing(problem.body)[i].0,
            ) && problem.body[listing(problem.body)[i].0] == listing(problem.body)[i].1,
{
    let s = listing(problem.body);
    lemma_listing_exists(problem.body);
    lemma_as_map_keys(s);
    lemma_as_map_values(s);
    lemma_as_map_len(s);
}

/// Setting a key to a value twice is the same as setting it once.
pub proof fn law_with_value_idempotent(problem: ProblemView, key: Seq<char>, value: Value)
    ensures
        problem.with_value(key, value).with_value(key, value) == problem.with_value(key, value),
{
    assert(problem.body.insert(key, value).insert(key, value) =~= problem.body.insert(key, value));
}

/// Of two values set under one key the later one stays, and the earlier one
/// leaves no trace.
pub proof fn law_last_write_wins(problem: ProblemView, key: Seq<char>, first: Value, second: Value)
    ensures
        problem.with_value(key, first).with_value(key, second).body[key] == second,
        problem.with_value(key, first).with_value(key, second) == problem.with_value(key, second),
{
    assert(problem.body.insert(key, first).insert(key, second) =~= problem.body.insert(
        key,
        second,
    ));
}

/// Values set under two different keys can be set in either order.
pub proof fn law_distinct_keys_commute(
    problem: ProblemView,
    key: Seq<char>,
    value: Value,
    other_key: Seq<char>,
    other_value: Value,
)
    requires
        key != other_key,
    ensures
        problem.with_value(key, value).with_value(other_key, other_value) == problem.with_value(
            other_key,
            other_value,
        ).with_value(key, value),
{
    assert(problem.body.insert(key, value).insert(other_key, other_value)
        =~= problem.body.insert(other_key, other_value).insert(key, value));
}

/// The title and the detail can be set in either order: the problem is the
/// same, and so is the response it is rendered to.
pub proof fn law_title_and_detail_commute(problem: ProblemView, title: Seq<char>, detail: Seq<char>)
    ensures
        problem.with_title(title).with_detail(detail) == problem.with_detail(detail).with_title(
            title,
        ),
        rendered(problem.with_title(title).with_detail(detail)) == rendered(
            problem.with_detail(detail).with_title(title),
        ),
{
    reveal_strlit("title");
    reveal_strlit("detail");
    assert("title"@.len() != "detail"@.len());
    law_distinct_keys_commute(
        problem,
        "title"@,
        string_value(title),
        "detail"@,
        string_value(detail),
    );
}

/// A handler that does not fill in the detail answers every failure alike,
/// with its configured problem as it stands: nothing of the failure's
/// message reaches the client.
pub proof fn law_hidden_message_leaves_no_trace(
    handler: PanicHandlerView,
    message: Option<Seq<char>>,
    other_message: Option<Seq<char>>,
)
    requires
        !handler.fill_detail,
    ensures
        handler.response_for(message) == rendered(handler.problem),
        handler.response_for(message) == handler.response_for(other_message),
{
}

/// A handler that fills in the detail answers with its configured problem's
/// status code and members, but for `detail`, which is the failure's
/// message, or the generic text where the failure carried none.
pub proof fn law_shown_message_is_the_detail(handler: PanicHandlerView, message: Option<Seq<char>>)
    requires
        handler.fill_detail,
    ensures
        handler.reported(message).status_code == handler.problem.status_code,
        handler.reported(message).body.dom() == handler.problem.body.dom().insert("detail"@),
        handler.reported(message).body["detail"@] == string_value(failure_text(message)),
        forall|key: Seq<char>|
            key != "detail"@ && #[trigger] handler.problem.body.contains_key(key)
                ==> handler.reported(message).body[key] == handler.problem.body[key],
        handler.response_for(message).content_type == Some("application/problem+json"@),
{
    assert(handler.reported(message).body.contains_key("detail"@));
}

} // verus!
