//! The handler capability: given a request's [`Client`], produce the
//! response bytes.

use vstd::prelude::*;
use crate::client::Client;
use crate::gem_bytes::GemBytes;

verus! {

/// A route handler: one capability, "respond to this request".
///
/// `response_view` is the byte sequence the handler stands for on a given
/// request; `gem_call` produces exactly those bytes.
pub trait GemCall<S>: Sized {
    /// The wire bytes this handler answers the request with.
    spec fn response_view(&self, client: Client<S>) -> Seq<u8>;

    /// Answer the request.
    fn gem_call(&self, client: Client<S>) -> (r: Vec<u8>)
        ensures
            r@ == self.response_view(client),
    ;
}

/// A fixed response value served as a route, without a handler function:
/// every request gets the value's own encoding.
///
/// The value must be `Copy` so that serving it repeatedly provably
/// yields the same bytes each time; borrowed text (`&'static str`),
/// numbers, booleans and tuples of them qualify. Owned text is served by
/// a handler returning a fresh `String` instead.
pub struct Static<T: GemBytes + Copy>(pub T);

impl<T: GemBytes + Copy, S> GemCall<S> for Static<T> {
    open spec fn response_view(&self, client: Client<S>) -> Seq<u8> {
        self.0.gem_view()
    }

    fn gem_call(&self, client: Client<S>) -> (r: Vec<u8>) {
        self.0.gem_bytes()
    }
}

} // verus!
