//! What the reply to a request means for the operation that sent it.

use vstd::prelude::*;

verus! {

/// What a transport reports of one request.
#[derive(Debug, PartialEq, Eq)]
pub enum Reply {
    /// No answer arrived: the connection, its security or its timing failed.
    Unreachable { detail: String },
    /// The service answered with a status code and a body.
    Answered { status: u16, body: Vec<u8> },
}

/// Why an operation did not yield its value.
#[derive(Debug, PartialEq, Eq)]
pub enum Failure {
    /// No answer arrived; `detail` is what the transport reported.
    Transport { detail: String },
    /// The service answered with a status other than success.
    Status { code: u16, body: Vec<u8> },
    /// The service answered with success, and its body is not a value of the
    /// expected kind.
    Decode { detail: String },
}

/// A reply as a mathematical value.
pub enum ReplyView {
    Unreachable { detail: Seq<char> },
    Answered { status: u16, body: Seq<u8> },
}

/// A failure as a mathematical value.
pub enum FailureView {
    Transport { detail: Seq<char> },
    Status { code: u16, body: Seq<u8> },
    Decode { detail: Seq<char> },
}

impl View for Reply {
    type V = ReplyView;

    open spec fn view(&self) -> ReplyView {
        match *self {
            Reply::Unreachable { detail } => ReplyView::Unreachable { detail: detail@ },
            Reply::Answered { status, body } => ReplyView::Answered { status, body: body@ },
        }
    }
}

impl View for Failure {
    type V = FailureView;

    open spec fn view(&self) -> FailureView {
        match *self {
            Failure::Transport { detail } => FailureView::Transport { detail: detail@ },
            Failure::Status { code, body } => FailureView::Status { code, body: body@ },
            Failure::Decode { detail } => FailureView::Decode { detail: detail@ },
        }
    }
}

/// The status codes that report success: 200 to 299.
pub open spec fn is_success_status(status: u16) -> bool {
    200 <= status <= 299
}

/// What a reply yields to an operation that expects a value: the body of an
/// answer that reports success, to be decoded; otherwise the failure.
pub open spec fn settled(reply: ReplyView) -> Result<Seq<u8>, FailureView> {
    match reply {
        ReplyView::Unreachable { detail } => Err(FailureView::Transport { detail }),
        ReplyView::Answered { status, body } => if is_success_status(status) {
            Ok(body)
        } else {
            Err(FailureView::Status { code: status, body })
        },
    }
}

/// What a reply yields to an operation that expects no value: nothing if the
/// answer reports success, whatever its body; otherwise the failure.
pub open spec fn acknowledged(reply: ReplyView) -> Result<(), FailureView> {
    match settled(reply) {
        Ok(_) => Ok(()),
        Err(failure) => Err(failure),
    }
}

/// The view of the outcome of an operation that expects a value.
pub open spec fn payload_view(outcome: Result<Vec<u8>, Failure>) -> Result<Seq<u8>, FailureView> {
    match outcome {
        Ok(body) => Ok(body@),
        Err(failure) => Err(failure@),
    }
}

/// The view of the outcome of an operation that expects no value.
pub open spec fn acknowledgement_view(outcome: Result<(), Failure>) -> Result<(), FailureView> {
    match outcome {
        Ok(_) => Ok(()),
        Err(failure) => Err(failure@),
    }
}

/// An operation that expects a value gets one exactly from an answer that
/// reports success, and then it is the body of that answer. An answer with
/// another status, such as 400 for a value that the service does not accept
/// or 404 for one that it does not hold, fails with that status and the
/// service's body. Only a request that got no answer fails as a transport
/// failure, and no reply settles as a failure to decode.
pub proof fn lemma_settled(reply: ReplyView)
    ensures
        settled(reply) is Ok <==> (reply matches ReplyView::Answered { status, .. }
            && is_success_status(status)),
        reply matches ReplyView::Answered { status, body } ==> settled(reply) == (
        if is_success_status(status) {
            Ok::<Seq<u8>, FailureView>(body)
        } else {
            Err::<Seq<u8>, FailureView>(FailureView::Status { code: status, body })
        }),
        settled(reply) matches Err(FailureView::Transport { .. }) <==> reply is Unreachable,
        !(settled(reply) matches Err(FailureView::Decode { .. })),
{
}

/// An operation that expects no value, such as a removal, yields neither a
/// value nor a failure exactly when the answer reports success, whatever its
/// body. An answer with another status, such as 404 for an organizational
/// unit that does not exist, fails with that status and the service's body,
/// which is never the failure of a request that got no answer.
pub proof fn lemma_acknowledged(reply: ReplyView)
    ensures
        acknowledged(reply) is Ok <==> (reply matches ReplyView::Answered { status, .. }
            && is_success_status(status)),
        reply matches ReplyView::Answered { status, body } ==> acknowledged(reply) == (
        if is_success_status(status) {
            Ok::<(), FailureView>(())
        } else {
            Err::<(), FailureView>(FailureView::Status { code: status, body })
        }),
        acknowledged(reply) matches Err(FailureView::Transport { .. }) <==> reply is Unreachable,
        !(acknowledged(reply) matches Err(FailureView::Decode { .. })),
{
}

/// Tells whether a status code reports success.
pub fn is_success(status: u16) -> (r: bool)
    ensures
        r == is_success_status(status),
{
    200 <= status && status <= 299
}

/// Settles the last step of an operation that expects a value, once the
/// payload has gone through a decoder: the value that the decoder found, or
/// a failure to decode with what the decoder reported.
pub fn decoded<T>(parsed: Result<T, String>) -> (outcome: Result<T, Failure>)
    ensures
        match parsed {
            Ok(value) => outcome == Ok::<T, Failure>(value),
            Err(detail) => outcome matches Err(failure) && failure@ == (FailureView::Decode {
                detail: detail@,
            }),
        },
{
    match parsed {
        Ok(value) => Ok(value),
        Err(detail) => Err(Failure::Decode { detail }),
    }
}

impl Reply {
    /// Settles an operation that expects a value, such as a listing, a
    /// retrieval or an update: the bytes to decode, or the failure.
    pub fn payload(self) -> (outcome: Result<Vec<u8>, Failure>)
        ensures
            payload_view(outcome) == settled(self@),
    {
        match self {
            Reply::Unreachable { detail } => Err(Failure::Transport { detail }),
            Reply::Answered { status, body } => {
                if is_success(status) {
                    Ok(body)
                } else {
                    Err(Failure::Status { code: status, body })
                }
            },
        }
    }

    /// Settles an operation that expects no value, such as a removal.
    pub fn acknowledgement(self) -> (outcome: Result<(), Failure>)
        ensures
            acknowledgement_view(outcome) == acknowledged(self@),
    {
        match self.payload() {
            Ok(_) => Ok(()),
            Err(failure) => Err(failure),
        }
    }
}

} // verus!
