//! The per-connection service: one shared routing table, one shared
//! application context, and the step that turns a request into wire bytes.

use vstd::prelude::*;
use vstd::string::StringSliceAdditionalSpecFns;
use std::sync::Arc;
use bytes::BytesMut;
use crate::buffer::buf_bytes;
use crate::response::{
    Response, ResponseView, encode, encode_error, encoded_len, error_encoded_len, error_view, wire,
};
use crate::router::{
    Handler, Router, RouteView, any_match, canned_view, first_match, has_method, route_params,
    route_response,
};

verus! {

/// The body of the fallback response when a response cannot be buffered.
pub const TOO_LARGE: &'static str = "response too large";

/// Whether the wire form of `v` stamped with `date` fits after `len` bytes.
pub open spec fn fits_after(len: nat, v: ResponseView, date: Seq<u8>) -> bool {
    len + wire(v, date).len() <= isize::MAX
}

/// Serves the requests of one connection.
pub struct ApiService<H, C> {
    router: Arc<Router<H>>,
    context: Arc<C>,
}

impl<H, C> ApiService<H, C> {
    /// The routes of the shared table.
    pub closed spec fn routes(&self) -> Seq<RouteView<H>> {
        (*self.router)@
    }

    /// The shared application context.
    pub closed spec fn context(&self) -> C {
        *self.context
    }

    /// A service over `router` with `context` as its application state.
    pub fn with_context(router: Arc<Router<H>>, context: Arc<C>) -> (r: Self)
        ensures
            r.routes() == (*router)@,
            r.context() == *context,
    {
        ApiService { router, context }
    }

    /// Another handle on the shared application context.
    pub fn get_context(&self) -> (r: Arc<C>)
        ensures
            *r == self.context(),
    {
        Arc::clone(&self.context)
    }
}

impl<H> ApiService<H, ()> {
    /// A service over `router` with no application state.
    pub fn new(router: Arc<Router<H>>) -> (r: Self)
        ensures
            r.routes() == (*router)@,
    {
        ApiService { router, context: Arc::new(()) }
    }
}

/// Whether `after` is `before` followed by the wire form of `v` stamped with
/// `date`; or, when that would pass `isize::MAX` bytes, by the fallback 500
/// response; or, when that would not fit either, `before` itself.
pub open spec fn written(before: Seq<u8>, v: ResponseView, date: Seq<u8>, after: Seq<u8>) -> bool {
    if fits_after(before.len(), v, date) {
        after == before + wire(v, date)
    } else if fits_after(before.len(), error_view(TOO_LARGE.spec_bytes()), date) {
        after == before + wire(error_view(TOO_LARGE.spec_bytes()), date)
    } else {
        after == before
    }
}

/// Appends `rsp` to `buf` when it fits, else the fallback 500 response when
/// that fits, else nothing.
fn write_response(rsp: &Response, date: &[u8], buf: &mut BytesMut)
    ensures
        written(buf_bytes(*old(buf)), rsp@, date@, buf_bytes(*final(buf))),
{
    let used = buf.len();
    match encoded_len(rsp, date) {
        Some(n) => if used <= isize::MAX as usize && n <= (isize::MAX as usize) - used {
            encode(rsp, date, buf);
            return ;
        },
        None => {},
    }
    match error_encoded_len(TOO_LARGE, date) {
        Some(n) => if used <= isize::MAX as usize && n <= (isize::MAX as usize) - used {
            encode_error(TOO_LARGE, date, buf);
        },
        None => {},
    }
}

impl<H: Handler, C> ApiService<H, C> {
    /// Handles one request: routes `method` and `path`, calls the matched
    /// handler with the captured parameters or takes the canned error
    /// response, and appends the wire form stamped with `date` to `buf`. A
    /// response too large to buffer is replaced by a 500 response.
    ///
    /// The handler's response is written as it is, reason phrase and header
    /// lines included: the service adds no headers of its own (the encoder
    /// writes the `Server` line) and does not rewrite `Content-Type`, so what
    /// a handler builds is exactly what goes out.
    pub fn call(&mut self, method: &str, path: &str, date: &[u8], buf: &mut BytesMut)
        ensures
            *final(self) == *old(self),
            buf_bytes(*final(buf)).len() >= buf_bytes(*old(buf)).len(),
            buf_bytes(*final(buf)).subrange(0, buf_bytes(*old(buf)).len() as int) == buf_bytes(
                *old(buf),
            ),
            path@.len() == 0 ==> written(
                buf_bytes(*old(buf)),
                canned_view(400),
                date@,
                buf_bytes(*final(buf)),
            ),
            path@.len() > 0 && !has_method(old(self).routes(), method@) ==> written(
                buf_bytes(*old(buf)),
                canned_view(405),
                date@,
                buf_bytes(*final(buf)),
            ),
            path@.len() > 0 && has_method(old(self).routes(), method@) && !any_match(
                old(self).routes(),
                method@,
                path@,
            ) ==> written(buf_bytes(*old(buf)), canned_view(404), date@, buf_bytes(*final(buf))),
            forall|i: int|
                path@.len() > 0 && #[trigger] first_match(old(self).routes(), method@, path@, i)
                    ==> exists|v: ResponseView|
                    #[trigger] route_response(
                        old(self).routes()[i],
                        route_params(old(self).routes(), i, path@),
                        v,
                    ) && written(buf_bytes(*old(buf)), v, date@, buf_bytes(*final(buf))),
    {
        let rsp = match self.router.handle(method, path) {
            Ok(rsp) => rsp,
            Err(_) => Response::new(BytesMut::new()),
        };
        let ghost before = buf_bytes(*buf);
        write_response(&rsp, date, buf);
        assert(buf_bytes(*buf).subrange(0, before.len() as int) =~= before);
        proof {
            assert forall|i: int|
                path@.len() > 0 && #[trigger] first_match(self.routes(), method@, path@, i)
                implies exists|v: ResponseView|
                #[trigger] route_response(self.routes()[i], route_params(self.routes(), i, path@), v)
                    && written(before, v, date@, buf_bytes(*buf)) by {
                assert(route_response(self.routes()[i], route_params(self.routes(), i, path@), rsp@));
            }
        }
    }
}


/// Hands each connection its own service over one shared routing table and
/// one shared application context.
pub struct ServiceFactory<H, C> {
    router: Arc<Router<H>>,
    context: Arc<C>,
}

impl<H, C> ServiceFactory<H, C> {
    /// The routes every service gets.
    pub closed spec fn routes(&self) -> Seq<RouteView<H>> {
        (*self.router)@
    }

    /// The context every service gets.
    pub closed spec fn context(&self) -> C {
        *self.context
    }

    /// A factory sharing `router` and `context`.
    pub fn new(router: Arc<Router<H>>, context: Arc<C>) -> (r: Self)
        ensures
            r.routes() == (*router)@,
            r.context() == *context,
    {
        ServiceFactory { router, context }
    }

    /// The service for a connection: it shares the factory's routes and
    /// context, whatever the connection.
    pub fn new_service(&self, _id: usize) -> (r: ApiService<H, C>)
        ensures
            r.routes() == self.routes(),
            r.context() == self.context(),
    {
        ApiService::with_context(Arc::clone(&self.router), Arc::clone(&self.context))
    }
}

} // verus!
