//! What the bridge answers.
use vstd::prelude::*;
use crate::error::Error;
use crate::json::{members_view, no_members, Json, JsonView};
use crate::text::{copy, opt_view};

verus! {

/// What an operation reports: a text, the page it comes from, and details for programs.
pub struct OperationResult {
    pub text: String,
    pub source_url: Option<String>,
    pub details: Vec<(String, Json)>,
}

/// What the result of an operation holds.
#[verifier::ext_equal]
pub struct ResultView {
    pub text: Seq<char>,
    pub source_url: Option<Seq<char>>,
    pub details: Seq<(Seq<char>, JsonView)>,
}

impl View for OperationResult {
    type V = ResultView;

    open spec fn view(&self) -> ResultView {
        ResultView {
            text: self.text@,
            source_url: opt_view(self.source_url),
            details: members_view(self.details@),
        }
    }
}

impl OperationResult {
    /// A result with a text alone.
    pub fn new(text: String) -> (r: OperationResult)
        ensures
            r@ == (ResultView { text: text@, source_url: None, details: Seq::empty() }),
    {
        OperationResult { text, source_url: None, details: no_members() }
    }

    /// The result with another page that it comes from.
    pub fn with_source_url(self, source_url: Option<String>) -> (r: OperationResult)
        ensures
            r@ == (ResultView { source_url: opt_view(source_url), ..self@ }),
    {
        OperationResult { source_url, ..self }
    }

    /// The result with other details. Details that are no object leave it as it is.
    pub fn with_details(self, details: Json) -> (r: OperationResult)
        ensures
            r@ == (match details@ {
                JsonView::Object(members) => ResultView { details: members, ..self@ },
                _ => self@,
            }),
    {
        match details {
            Json::Object(details) => OperationResult { details, ..self },
            _ => self,
        }
    }
}

/// An answer of the bridge.
pub enum BridgeResponse {
    Success {
        ok: bool,
        text: String,
        source_url: Option<String>,
        details: Vec<(String, Json)>,
    },
    Failure { ok: bool, error: String, code: Option<String> },
}

/// What an answer holds.
#[verifier::ext_equal]
pub enum ResponseView {
    Success { ok: bool, result: ResultView },
    Failure { ok: bool, error: Seq<char>, code: Option<Seq<char>> },
}

impl View for BridgeResponse {
    type V = ResponseView;

    open spec fn view(&self) -> ResponseView {
        match *self {
            BridgeResponse::Success { ok, text, source_url, details } => ResponseView::Success {
                ok,
                result: ResultView {
                    text: text@,
                    source_url: opt_view(source_url),
                    details: members_view(details@),
                },
            },
            BridgeResponse::Failure { ok, error, code } => ResponseView::Failure {
                ok,
                error: error@,
                code: opt_view(code),
            },
        }
    }
}

impl BridgeResponse {
    /// The answer to a request that succeeded.
    pub fn success(result: OperationResult) -> (r: BridgeResponse)
        ensures
            r@ == (ResponseView::Success { ok: true, result: result@ }),
    {
        BridgeResponse::Success {
            ok: true,
            text: result.text,
            source_url: result.source_url,
            details: result.details,
        }
    }

    /// The answer to a request that failed with a message.
    pub fn failure(error: &str) -> (r: BridgeResponse)
        ensures
            r@ == (ResponseView::Failure { ok: false, error: error@, code: None }),
    {
        BridgeResponse::Failure { ok: false, error: copy(error), code: None }
    }

    /// The answer to a request that failed with an error.
    pub fn failure_error(error: &Error) -> (r: BridgeResponse)
        ensures
            r@ == (ResponseView::Failure {
                ok: false,
                error: error@.bridge_message(),
                code: error@.code(),
            }),
    {
        let code = match error.code() {
            Some(code) => Some(copy(code)),
            None => None,
        };
        BridgeResponse::Failure { ok: false, error: error.bridge_message(), code }
    }
}

} // verus!
