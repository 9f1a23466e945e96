//! Request-tracing middleware state, as plain data.
//!
//! The layer pairs a tracer with the service it wraps. Hooking the pair into
//! an HTTP stack means implementing that stack's service traits, which is
//! unverified plumbing and lives outside this library; here the layer is
//! just the data those impls carry.

use vstd::prelude::*;

verus! {

/// A middleware layer that will attach `tracer` to every service it wraps.
pub struct OtelLayer<T> {
    pub tracer: T,
}

/// A service wrapped by [`OtelLayer`]: the inner service plus the tracer
/// that observes its calls.
pub struct OtelService<S, T> {
    pub inner: S,
    pub tracer: T,
}

impl<T> OtelLayer<T> {
    /// A layer carrying the given tracer.
    pub fn new(tracer: T) -> (r: OtelLayer<T>)
        ensures
            r.tracer == tracer,
    {
        OtelLayer { tracer }
    }

    /// Wrap one service, consuming the layer.
    pub fn layer<S>(self, inner: S) -> (r: OtelService<S, T>)
        ensures
            r.inner == inner,
            r.tracer == self.tracer,
    {
        OtelService { inner, tracer: self.tracer }
    }
}

} // verus!
