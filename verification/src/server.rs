//! What the HTTP surface answers, given what the registry and the metrics
//! store hold.

use vstd::prelude::*;
use vstd::string::*;

verus! {

/// Status of an answer that carries what was asked for.
pub const STATUS_OK: u16 = 200;

/// Status of an answer that has nothing to carry.
pub const STATUS_INTERNAL_SERVER_ERROR: u16 = 500;

/// Content type of a metrics answer.
pub const CONTENT_TYPE_TEXT: &'static str = "text/plain; charset=utf-8";

/// Content type of the sandbox listing.
pub const CONTENT_TYPE_JSON: &'static str = "application/json; charset=utf-8";

/// Query parameters of a metrics request.
#[derive(Debug)]
pub struct SandboxQuery {
    sandbox: Option<String>,
}

impl SandboxQuery {
    /// A query for the metrics of one sandbox, or of all where `sandbox` is
    /// `None`.
    pub fn new(sandbox: Option<String>) -> (query: Self)
        ensures
            query.requested() == sandbox,
    {
        SandboxQuery { sandbox }
    }

    /// The sandbox that is asked for, if one is.
    pub closed spec fn requested(&self) -> Option<String> {
        self.sandbox
    }

    /// The sandbox that is asked for, if one is.
    pub fn sandbox(&self) -> (sandbox: &Option<String>)
        ensures
            *sandbox == self.requested(),
    {
        &self.sandbox
    }
}

/// An answer of the HTTP surface.
#[derive(Debug)]
pub struct Reply {
    pub status: u16,
    pub content_type: &'static str,
    pub body: String,
}

/// The answer to a request for the metrics of one sandbox. `rendered` is the
/// text of its metrics, or `None` where the store's current generation holds
/// none for it.
pub fn single_sandbox_reply(rendered: Option<String>) -> (reply: Reply)
    ensures
        reply.content_type@ == CONTENT_TYPE_TEXT@,
        match rendered {
            Some(text) => reply.status == STATUS_OK && reply.body == text,
            None => reply.status == STATUS_INTERNAL_SERVER_ERROR && reply.body@
                == "No cached metrics available for this sandbox"@,
        },
{
    match rendered {
        Some(body) => Reply { status: STATUS_OK, content_type: CONTENT_TYPE_TEXT, body },
        None => Reply {
            status: STATUS_INTERNAL_SERVER_ERROR,
            content_type: CONTENT_TYPE_TEXT,
            body: "No cached metrics available for this sandbox".to_owned(),
        },
    }
}

/// The texts of the sandboxes that have metrics, each followed by a line
/// feed, in order.
pub open spec fn aggregate_text(rendered: Seq<Option<String>>) -> Seq<char>
    decreases rendered.len(),
{
    if rendered.len() == 0 {
        Seq::empty()
    } else {
        match rendered.last() {
            Some(text) => aggregate_text(rendered.drop_last()) + text@ + seq!['\n'],
            None => aggregate_text(rendered.drop_last()),
        }
    }
}

/// The answer to a request for the metrics of all sandboxes. `rendered`
/// holds, for each sandbox of the registry, the text of its metrics, or
/// `None` where the store's current generation holds none for it. A sandbox
/// without metrics is left out; the request fails only where no sandbox has
/// any.
pub fn aggregate_reply(rendered: &Vec<Option<String>>) -> (reply: Reply)
    ensures
        reply.content_type@ == CONTENT_TYPE_TEXT@,
        if aggregate_text(rendered@).len() == 0 {
            reply.status == STATUS_INTERNAL_SERVER_ERROR && reply.body@
                == "No cached metrics available"@
        } else {
            reply.status == STATUS_OK && reply.body@ == aggregate_text(rendered@)
        },
{
    let mut output = String::new();
    let mut i: usize = 0;
    while i < rendered.len()
        invariant
            i <= rendered@.len(),
            output@ == aggregate_text(rendered@.take(i as int)),
        decreases rendered@.len() - i,
    {
        proof {
            assert(rendered@.take(i + 1).drop_last() =~= rendered@.take(i as int));
            assert(rendered@.take(i + 1).last() == rendered@[i as int]);
        }
        match &rendered[i] {
            Some(text) => {
                output.append(text.as_str());
                output.push('\n');
            },
            None => {},
        }
        i += 1;
    }
    proof {
        assert(rendered@.take(rendered@.len() as int) =~= rendered@);
    }
    if output.as_str().is_empty() {
        Reply {
            status: STATUS_INTERNAL_SERVER_ERROR,
            content_type: CONTENT_TYPE_TEXT,
            body: "No cached metrics available".to_owned(),
        }
    } else {
        Reply { status: STATUS_OK, content_type: CONTENT_TYPE_TEXT, body: output }
    }
}

/// The answer to a request for the list of sandboxes. `json` is the list as
/// JSON, or `None` where it could not be written as JSON, in which case an
/// empty list is answered.
pub fn sandboxes_reply(json: Option<String>) -> (reply: Reply)
    ensures
        reply.status == STATUS_OK,
        reply.content_type@ == CONTENT_TYPE_JSON@,
        match json {
            Some(text) => reply.body == text,
            None => reply.body@ == "[]"@,
        },
{
    let body = match json {
        Some(text) => text,
        None => "[]".to_owned(),
    };
    Reply { status: STATUS_OK, content_type: CONTENT_TYPE_JSON, body }
}

} // verus!
