//! A middleware layer that logs each message before passing it on.
use std::marker::PhantomData;

use vstd::prelude::*;

verus! {

/// Wraps services so that each message is logged with a prefix.
pub struct MessageLoggingLayer<R> {
    prefix_msg: String,
    _r: PhantomData<R>,
}

impl<R> MessageLoggingLayer<R> {
    /// The prefix put before each logged message.
    pub closed spec fn spec_prefix(&self) -> Seq<char> {
        self.prefix_msg@
    }

    /// A layer that logs with `prefix_msg`.
    pub fn new(prefix_msg: String) -> (r: MessageLoggingLayer<R>)
        ensures
            r.spec_prefix() == prefix_msg@,
    {
        MessageLoggingLayer { prefix_msg, _r: PhantomData }
    }

    /// Wraps `service` in a logging service with this layer's prefix.
    pub fn layer<S>(&self, service: S) -> (r: MessageLoggingService<S>)
        ensures
            r.spec_prefix() == self.spec_prefix(),
            r.spec_inner() == service,
    {
        MessageLoggingService::new(self.prefix_msg.clone(), service)
    }
}

/// A service that logs each message with a prefix, then hands it to the
/// service it wraps.
#[derive(Clone)]
pub struct MessageLoggingService<S> {
    prefix_msg: String,
    inner: S,
}

impl<S> MessageLoggingService<S> {
    /// The prefix put before each logged message.
    pub closed spec fn spec_prefix(&self) -> Seq<char> {
        self.prefix_msg@
    }

    /// The wrapped service.
    pub closed spec fn spec_inner(&self) -> S {
        self.inner
    }

    /// A service that logs with `prefix_msg` and passes messages to
    /// `service`.
    pub fn new(prefix_msg: String, service: S) -> (r: MessageLoggingService<S>)
        ensures
            r.spec_prefix() == prefix_msg@,
            r.spec_inner() == service,
    {
        MessageLoggingService { inner: service, prefix_msg }
    }

    /// The prefix put before each logged message.
    pub fn prefix_msg(&self) -> (r: &String)
        ensures
            r@ == self.spec_prefix(),
    {
        &self.prefix_msg
    }

    /// The wrapped service, to pass messages on to.
    pub fn inner_mut(&mut self) -> (r: &mut S)
        ensures
            *r == old(self).spec_inner(),
            final(self).spec_inner() == *final(r),
            final(self).spec_prefix() == old(self).spec_prefix(),
    {
        &mut self.inner
    }
}

} // verus!
