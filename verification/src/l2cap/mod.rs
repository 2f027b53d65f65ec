//! L2CAP connection-oriented channels.
use vstd::prelude::*;

pub mod types;

pub use types::Psm;

verus! {

/// A byte stream that a channel carries its bytes over.
pub struct StreamTransport<T> {
    inner: T,
}

impl<T> StreamTransport<T> {
    /// The byte stream.
    pub closed spec fn stream(self) -> T {
        self.inner
    }

    /// Carry bytes over `inner`.
    pub fn new(inner: T) -> (transport: Self)
        ensures
            transport.stream() == inner,
    {
        StreamTransport { inner }
    }

    /// Hand the byte stream out.
    pub fn into_inner(self) -> (inner: T)
        ensures
            inner == self.stream(),
    {
        self.inner
    }
}

/// What is to be done when a channel closes, by a close or by being dropped,
/// whichever comes first. It is done once.
pub struct CloseHook<F: FnOnce()> {
    hook: Option<F>,
}

impl<F: FnOnce()> CloseHook<F> {
    /// What is still to be done.
    pub closed spec fn hook(self) -> Option<F> {
        self.hook
    }

    /// Do `hook`, if there is one, when the channel closes.
    pub fn new(hook: Option<F>) -> (close: Self)
        ensures
            close.hook() == hook,
    {
        CloseHook { hook }
    }

    /// The channel closes. `true` where the hook ran.
    pub fn trigger_close(&mut self) -> (ran: bool)
        requires
            old(self).hook() matches Some(f) ==> f.requires(()),
        ensures
            ran == (old(self).hook() is Some),
            ran ==> old(self).hook().unwrap().ensures((), ()),
            final(self).hook() is None,
    {
        match self.hook.take() {
            Some(hook) => {
                hook();
                true
            },
            None => false,
        }
    }
}

} // verus!
