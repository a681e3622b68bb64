//! The body value a request or response carries: nothing, or owned text.

use vstd::prelude::*;

verus! {

/// The body shapes the server supports.
#[derive(Debug, Clone)]
pub enum SupportedBodies {
    Empty,
    String(String),
}

/// A body as carried by requests and responses.
#[derive(Debug, Clone)]
pub struct Body {
    inner: SupportedBodies,
}

impl View for Body {
    type V = SupportedBodies;

    closed spec fn view(&self) -> SupportedBodies {
        self.inner
    }
}

impl From<SupportedBodies> for Body {
    fn from(value: SupportedBodies) -> (r: Self) {
        Self { inner: value }
    }
}

impl vstd::std_specs::convert::FromSpecImpl<SupportedBodies> for Body {
    open spec fn obeys_from_spec() -> bool {
        true
    }

    closed spec fn from_spec(value: SupportedBodies) -> Self {
        Body { inner: value }
    }
}

/// What conversion from `SupportedBodies` produces: a body carrying exactly
/// that content.
pub proof fn lemma_body_from(value: SupportedBodies)
    ensures
        (<Body as vstd::std_specs::convert::FromSpec<SupportedBodies>>::from_spec(value))@
            == value,
{
}

impl Body {
    /// The body's content.
    pub fn inner(&self) -> (r: &SupportedBodies)
        ensures
            *r == self@,
    {
        &self.inner
    }

    /// A body with no content.
    pub fn empty() -> (r: Self)
        ensures
            r@ == SupportedBodies::Empty,
    {
        Self { inner: SupportedBodies::Empty }
    }

    /// A body holding the given text.
    pub fn string(body: String) -> (r: Self)
        ensures
            r@ == SupportedBodies::String(body),
    {
        Self { inner: SupportedBodies::String(body) }
    }
}

} // verus!
