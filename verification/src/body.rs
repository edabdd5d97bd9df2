//! Bodies of responses.
use vstd::prelude::*;

verus! {

/// The body of a response.
#[derive(Clone, Debug, PartialEq)]
pub enum Body {
    /// No body.
    Empty,
    /// One chunk.
    Full(Vec<u8>),
}

/// The value of a `Body`.
pub ghost enum BodyView {
    Empty,
    Full(Seq<u8>),
}

impl View for Body {
    type V = BodyView;

    open spec fn view(&self) -> BodyView {
        match self {
            Body::Empty => BodyView::Empty,
            Body::Full(chunk) => BodyView::Full(chunk@),
        }
    }
}

/// A response without a body.
pub fn empty() -> (body: Body)
    ensures
        body@ == BodyView::Empty,
        body is Empty,
{
    Body::Empty
}

/// A body of one chunk.
pub fn bytes(chunk: Vec<u8>) -> (body: Body)
    ensures
        body@ == BodyView::Full(chunk@),
        body matches Body::Full(kept) && kept@ == chunk@,
{
    Body::Full(chunk)
}

/// The value of a body is all of its chunk.
pub proof fn law_body_is_its_chunk(chunk: Vec<u8>)
    ensures
        Body::Empty@ == BodyView::Empty,
        Body::Full(chunk)@ == BodyView::Full(chunk@),
{
}

} // verus!
