//! How answers of the broker are handed to the model that asked.
use vstd::prelude::*;

use crate::model::{ErrorCode, Fault, Observation, ObservationView, Response};

verus! {

/// The text of an answer.
#[derive(Debug)]
pub enum Body {
    Fault(Fault),
    Observation(Observation),
    Response(Response),
}

/// An answer: its text, and a picture in base64.
#[derive(Debug)]
pub struct ToolReply {
    pub failed: bool,
    pub body: Body,
    pub picture: Option<String>,
}

/// Shapes an answer of the broker. The picture of an observation is handed over as a picture
/// and not as text; a broken connection is a fault like others.
pub fn shape(outcome: Result<Response, String>) -> (r: ToolReply)
    ensures
        match outcome {
            Ok(Response::Error(f)) => {
                &&& r.failed
                &&& r.body matches Body::Fault(e)
                &&& e@ == f@
                &&& r.picture is None
            },
            Ok(Response::Observation(o)) => {
                &&& !r.failed
                &&& r.body matches Body::Observation(p)
                &&& p@ == (ObservationView { png_base64: None, ..o@ })
                &&& crate::model::optional(r.picture) == o@.png_base64
            },
            Ok(other) => {
                &&& !r.failed
                &&& r.body == Body::Response(other)
                &&& r.picture is None
            },
            Err(message) => {
                &&& r.failed
                &&& r.body matches Body::Fault(e)
                &&& e.says(ErrorCode::BackendUnavailable, message@)
                &&& r.picture is None
            },
        },
{
    match outcome {
        Ok(Response::Error(e)) => ToolReply { failed: true, body: Body::Fault(e), picture: None },
        Ok(Response::Observation(o)) => {
            let mut text = o;
            let picture = text.png_base64.take();
            ToolReply { failed: false, body: Body::Observation(text), picture }
        },
        Ok(other) => ToolReply { failed: false, body: Body::Response(other), picture: None },
        Err(message) => ToolReply {
            failed: true,
            body: Body::Fault(Fault::unavailable(message.as_str())),
            picture: None,
        },
    }
}

/// Whether the model's input is over: reading failed, or gave nothing. The connection to the
/// broker then ends, and with it all authority.
pub fn input_over(ready: bool, failed: bool, before: usize, after: usize) -> (r: bool)
    ensures
        r == (ready && (failed || before == after)),
{
    ready && (failed || before == after)
}

} // verus!
