//! Routing: the canonical handler path, the handler interface, the
//! registry keyed by `(method, path)`, and the dispatch rules.

use vstd::prelude::*;
use vstd::string::StringExecFns;
use crate::request::{HTTPMethod, HTTPVersion, Path, PathV, Request};
use crate::response::{Response, ResponseBuilder};
use crate::status::ResponseStatus;
use crate::strutil::{find_idx, lemma_find_idx, str_eq, substr};

verus! {

/// What the canonical form makes of a path: exactly one trailing `/`
/// stripped, unless the path is the root alone.
pub open spec fn canonical_path(p: Seq<char>) -> Seq<char> {
    if p.len() > 1 && p.last() == '/' {
        p.drop_last()
    } else {
        p
    }
}

/// Canonical handler-path: for every non-empty path starting with `/`,
/// the canonical form strips exactly one trailing `/`, except for the
/// root `/` itself, which stays.
pub proof fn lemma_canonical_path(p: Seq<char>)
    requires
        p.len() > 0,
        p[0] == '/',
    ensures
        p.len() == 1 ==> canonical_path(p) == p,
        p.len() > 1 && p.last() == '/' ==> canonical_path(p) == p.drop_last(),
        !(p.len() > 1 && p.last() == '/') ==> canonical_path(p) == p,
{
}

/// The canonical routing key: a leading `/`, no trailing `/` except for
/// the root.
#[derive(Debug, PartialEq)]
pub struct HandlerPath(String);

impl View for HandlerPath {
    type V = Seq<char>;

    closed spec fn view(&self) -> Seq<char> {
        self.0@
    }
}

impl Clone for HandlerPath {
    /// An equal path.
    fn clone(&self) -> (r: Self)
        ensures
            r@ == self@,
    {
        HandlerPath(self.0.clone())
    }
}

/// The canonical form of `s`, computed.
fn canonicalize(s: &str) -> (r: String)
    ensures
        r@ == canonical_path(s@),
{
    let n = s.unicode_len();
    if n > 1 && s.get_char(n - 1) == '/' {
        proof {
            assert(s@.subrange(0, n - 1) =~= s@.drop_last());
        }
        substr(s, 0, n - 1)
    } else {
        s.to_owned()
    }
}

impl HandlerPath {
    /// The canonical path for a relative route, which must start with
    /// `/`.
    pub fn new(path: &str) -> (r: Self)
        requires
            path@.len() > 0,
            path@[0] == '/',
        ensures
            r@ == canonical_path(path@),
    {
        HandlerPath(canonicalize(path))
    }
}

/// What dispatch routes a request-target to: the canonical path of an
/// origin form; of an absolute form, its part after scheme and host, an
/// empty remainder becoming the root. Authority and asterisk forms are
/// not routable.
pub open spec fn route_of(p: PathV) -> Option<Seq<char>> {
    match p {
        PathV::Origin(s) => Some(canonical_path(s)),
        PathV::Absolute(s) => Some(canonical_path(absolute_remainder(s))),
        PathV::Authority(_, _) => None,
        PathV::Ast => None,
    }
}

/// The path part of an absolute-form target: everything from the first
/// `/` after the scheme's `//`, or the root when there is none.
pub open spec fn absolute_remainder(s: Seq<char>) -> Seq<char> {
    if s.len() < 7 {
        seq!['/']
    } else {
        let after = s.subrange(7, s.len() as int);
        let i = find_idx(after, '/');
        if i == after.len() {
            seq!['/']
        } else {
            after.subrange(i, after.len() as int)
        }
    }
}

impl HandlerPath {
    /// Converts a request-target to the canonical routing key; the
    /// authority and asterisk forms are refused.
    pub fn from_path(value: &Path) -> (r: Result<HandlerPath, &'static str>)
        ensures
            match r {
                Ok(hp) => route_of(value@) == Some(hp@),
                Err(_) => route_of(value@) is None,
            },
    {
        match value {
            Path::Asterisk => Err("Can't convert from asterisk form: it's only used for OPTIONS"),
            Path::AuthorityForm(_, _) => Err(
                "Can't convert from authority form: it's only used for CONNECT",
            ),
            Path::OriginForm(path) => Ok(HandlerPath(canonicalize(path.as_str()))),
            Path::AbsoluteForm(path) => {
                proof {
                    reveal_strlit("/");
                    assert("/"@ =~= seq!['/']);
                }
                let n = path.as_str().unicode_len();
                if n < 7 {
                    return Ok(HandlerPath(String::from_str("/")));
                }
                let after = substr(path.as_str(), 7, n);
                proof {
                    lemma_find_idx(after@, '/');
                }
                let i = crate::strutil::find_char(after.as_str(), '/');
                let m = after.as_str().unicode_len();
                if i == m {
                    Ok(HandlerPath(String::from_str("/")))
                } else {
                    let rest = substr(after.as_str(), i, m);
                    Ok(HandlerPath(canonicalize(rest.as_str())))
                }
            },
        }
    }
}

/// What a handler hands back: a finished response, or the request
/// passed on for a later middleware stage.
pub enum HandlerResult {
    Done(Response),
    Continue(Request),
}

/// A route endpoint: a fixed path and method, and the work itself.
pub trait Handler: Send + Sync {
    /// The fixed route path, as a ghost value.
    spec fn spec_path(&self) -> Seq<char>;

    /// The fixed method, as a ghost value.
    spec fn spec_method(&self) -> HTTPMethod;

    /// The route path this handler serves.
    fn get_path(&self) -> (r: &HandlerPath)
        ensures
            r@ == self.spec_path(),
    ;

    /// The method this handler serves.
    fn get_method(&self) -> (r: &HTTPMethod)
        ensures
            *r == self.spec_method(),
    ;

    /// Handles one request: `Done` with the response, or `Continue`
    /// with the request for a later stage.
    fn on_request(&self, req: Request) -> HandlerResult
        requires
            req.head.headers.wf(),
    ;
}

/// Why the registry refused to add a handler.
#[derive(Debug)]
pub enum HandlerRegistryAddError {
    DuplicateKey(HTTPMethod, HandlerPath),
    UnhandlableMethod(HTTPMethod),
}

/// A method no handler may be registered for.
pub open spec fn unhandlable(m: HTTPMethod) -> bool {
    m == HTTPMethod::Trace || m == HTTPMethod::Connect || m == HTTPMethod::Options
}

/// One registry entry: a handler behind its route key. The key is the
/// handler's own `(method, path)`, fixed at wrapping.
pub struct HandlerEntry {
    method: HTTPMethod,
    path: HandlerPath,
    handler: Box<dyn Handler>,
}

impl HandlerEntry {
    /// The stored method.
    pub closed spec fn spec_method(&self) -> HTTPMethod {
        self.method
    }

    /// The stored path.
    pub closed spec fn spec_path(&self) -> Seq<char> {
        self.path@
    }

    /// Wraps a handler behind its own `(method, path)` key.
    pub fn new(handler: Box<dyn Handler>) -> (r: HandlerEntry)
        ensures
            r.spec_method() == handler.spec_method(),
            r.spec_path() == handler.spec_path(),
    {
        let method = *handler.get_method();
        let path = handler.get_path().clone();
        HandlerEntry { method, path, handler }
    }
}

/// The route keys of a sequence of entries, in order.
pub open spec fn entry_keys(entries: Seq<HandlerEntry>) -> Seq<(HTTPMethod, Seq<char>)> {
    entries.map_values(|e: HandlerEntry| (e.spec_method(), e.spec_path()))
}

/// Some entry carries the route `(m, p)`.
pub open spec fn keys_contain(keys: Seq<(HTTPMethod, Seq<char>)>, m: HTTPMethod, p: Seq<char>) -> bool {
    exists|i: int| 0 <= i < keys.len() && keys[i] == (m, p)
}

/// No two entries carry the same route.
pub open spec fn keys_unique(keys: Seq<(HTTPMethod, Seq<char>)>) -> bool {
    forall|i: int, j: int| 0 <= i < j < keys.len() ==> #[trigger] keys[i] != #[trigger] keys[j]
}

/// The given entries can all be registered: no unhandlable method, no
/// two entries sharing a route.
pub open spec fn entries_registrable(entries: Seq<HandlerEntry>) -> bool {
    &&& forall|j: int|
        0 <= j < entries.len() ==> !unhandlable((#[trigger] entries[j]).spec_method())
    &&& keys_unique(entry_keys(entries))
}

/// The registry: handlers found by their `(method, canonical path)`
/// route.
pub struct HandlerRegistry {
    handlers: Vec<HandlerEntry>,
}

impl HandlerRegistry {
    /// The stored entries, in insertion order.
    pub closed spec fn entries(&self) -> Seq<HandlerEntry> {
        self.handlers@
    }

    /// The stored route keys, in insertion order.
    pub open spec fn keys(&self) -> Seq<(HTTPMethod, Seq<char>)> {
        entry_keys(self.entries())
    }

    /// Routes are unique.
    pub open spec fn wf(&self) -> bool {
        keys_unique(self.keys())
    }

    /// Some entry carries the route `(m, p)`.
    pub open spec fn contains_route(&self, m: HTTPMethod, p: Seq<char>) -> bool {
        keys_contain(self.keys(), m, p)
    }

    /// A registry from the given entries, refused as `add` refuses: an
    /// entry with an unhandlable method or a route another entry
    /// already took fails the whole construction.
    pub fn new(handlers: Vec<HandlerEntry>) -> (r: Result<HandlerRegistry, HandlerRegistryAddError>)
        ensures
            r is Ok <==> entries_registrable(handlers@),
            r matches Ok(reg) ==> reg.wf() && reg.keys() == entry_keys(handlers@),
            r matches Err(e) ==> {
                &&& (e is UnhandlableMethod ==> exists|j: int|
                    0 <= j < handlers@.len() && unhandlable(
                        (#[trigger] handlers@[j]).spec_method(),
                    ))
                &&& (e is DuplicateKey ==> !keys_unique(entry_keys(handlers@)))
            },
    {
        let mut hs = handlers;
        let mut registry = HandlerRegistry { handlers: Vec::new() };
        proof {
            assert(hs@ =~= handlers@.subrange(
                handlers@.len() - hs@.len(),
                handlers@.len() as int,
            ));
            assert(registry.keys() =~= entry_keys(handlers@.subrange(0, 0)));
        }
        while hs.len() > 0
            invariant
                hs@.len() <= handlers@.len(),
                hs@ =~= handlers@.subrange(handlers@.len() - hs@.len(), handlers@.len() as int),
                registry.wf(),
                registry.keys() == entry_keys(
                    handlers@.subrange(0, handlers@.len() - hs@.len()),
                ),
                forall|j: int|
                    0 <= j < handlers@.len() - hs@.len() ==> !unhandlable(
                        (#[trigger] handlers@[j]).spec_method(),
                    ),
            decreases hs@.len(),
        {
            let ghost i = handlers@.len() - hs@.len();
            let ghost prevhs = hs@;
            let h = hs.remove(0);
            proof {
                assert(prevhs[0] == handlers@[i as int]);
                assert(hs@ =~= handlers@.subrange(
                    handlers@.len() - hs@.len(),
                    handlers@.len() as int,
                ));
            }
            let ghost oldkeys = registry.keys();
            match registry.add(h) {
                Ok(_) => {
                    proof {
                        assert(entry_keys(handlers@.subrange(0, i + 1)) =~= entry_keys(
                            handlers@.subrange(0, i as int),
                        ).push(
                            (
                                handlers@[i as int].spec_method(),
                                handlers@[i as int].spec_path(),
                            ),
                        ));
                    }
                },
                Err(e) => {
                    proof {
                        if e is UnhandlableMethod {
                            assert(unhandlable((handlers@[i as int]).spec_method()));
                        }
                        if e is DuplicateKey {
                            let w = choose|w: int|
                                0 <= w < oldkeys.len() && oldkeys[w] == (
                                    handlers@[i as int].spec_method(),
                                    handlers@[i as int].spec_path(),
                                );
                            assert(entry_keys(handlers@)[w] == oldkeys[w]);
                            assert(entry_keys(handlers@)[i as int] == (
                                handlers@[i as int].spec_method(),
                                handlers@[i as int].spec_path(),
                            ));
                            assert(!keys_unique(entry_keys(handlers@)));
                        }
                        assert(!entries_registrable(handlers@));
                    }
                    return Err(e);
                },
            }
        }
        proof {
            assert(handlers@.subrange(0, handlers@.len() as int) =~= handlers@);
            assert(entry_keys(handlers@.subrange(0, handlers@.len() as int)) =~= entry_keys(
                handlers@,
            ));
            assert forall|a: int, b: int|
                0 <= a < b < entry_keys(handlers@).len() implies #[trigger] entry_keys(
                handlers@,
            )[a] != #[trigger] entry_keys(handlers@)[b] by {
                assert(registry.keys()[a] == entry_keys(handlers@)[a]);
                assert(registry.keys()[b] == entry_keys(handlers@)[b]);
                assert(registry.keys()[a] != registry.keys()[b]);
            }
            assert(entries_registrable(handlers@));
        }
        Ok(registry)
    }

    /// The position of the route `(m, p)`, if some entry carries it.
    fn find_index(&self, method: &HTTPMethod, path: &str) -> (r: Option<usize>)
        requires
            self.wf(),
        ensures
            match r {
                Some(i) => i < self.keys().len() && self.keys()[i as int] == (*method, path@),
                None => !self.contains_route(*method, path@),
            },
    {
        let n = self.handlers.len();
        for i in 0..n
            invariant
                n == self.entries().len(),
                self.wf(),
                forall|j: int| 0 <= j < i ==> #[trigger] self.keys()[j] != (*method, path@),
        {
            let e = &self.handlers[i];
            if e.method == *method && str_eq(e.path.0.as_str(), path) {
                proof {
                    assert(self.keys()[i as int] == (*method, path@));
                }
                return Some(i);
            }
        }
        proof {
            if self.contains_route(*method, path@) {
                let w = choose|w: int|
                    0 <= w < self.keys().len() && self.keys()[w] == (*method, path@);
                assert(self.keys()[w] != (*method, path@));
            }
        }
        None
    }

    /// The handler registered under `(method, path)`, if any.
    pub fn get(&self, method: HTTPMethod, path: HandlerPath) -> (r: Option<&Box<dyn Handler>>)
        requires
            self.wf(),
        ensures
            match r {
                Some(_) => self.contains_route(method, path@),
                None => !self.contains_route(method, path@),
            },
    {
        match self.find_index(&method, path.0.as_str()) {
            Some(i) => Some(&self.handlers[i].handler),
            None => None,
        }
    }

    /// Registers a handler entry: refused for the unhandlable methods
    /// TRACE, CONNECT and OPTIONS, and refused when its `(method, path)`
    /// route is already taken; otherwise appended under its route.
    pub fn add(&mut self, entry: HandlerEntry) -> (r: Result<(), HandlerRegistryAddError>)
        requires
            old(self).wf(),
        ensures
            final(self).wf(),
            match r {
                Ok(_) => {
                    &&& !unhandlable(entry.spec_method())
                    &&& !old(self).contains_route(entry.spec_method(), entry.spec_path())
                    &&& final(self).keys() == old(self).keys().push(
                        (entry.spec_method(), entry.spec_path()),
                    )
                },
                Err(e) => {
                    &&& *final(self) == *old(self)
                    &&& (e matches HandlerRegistryAddError::UnhandlableMethod(m) ==> unhandlable(
                        entry.spec_method(),
                    ) && m == entry.spec_method())
                    &&& (e is DuplicateKey ==> !unhandlable(entry.spec_method()) && old(
                        self,
                    ).contains_route(entry.spec_method(), entry.spec_path()))
                    &&& (unhandlable(entry.spec_method()) ==> e is UnhandlableMethod)
                    &&& (!unhandlable(entry.spec_method()) ==> e is DuplicateKey)
                },
            },
    {
        let m = entry.method;
        if matches!(m, HTTPMethod::Trace | HTTPMethod::Connect | HTTPMethod::Options) {
            return Err(HandlerRegistryAddError::UnhandlableMethod(m));
        }
        if self.find_index(&m, entry.path.0.as_str()).is_some() {
            let taken = entry.path.clone();
            return Err(HandlerRegistryAddError::DuplicateKey(m, taken));
        }
        let ghost oldkeys = self.keys();
        self.handlers.push(entry);
        proof {
            assert(self.keys() =~= oldkeys.push((entry.spec_method(), entry.spec_path())));
            assert forall|a: int, b: int|
                0 <= a < b < self.keys().len() implies #[trigger] self.keys()[a]
                != #[trigger] self.keys()[b] by {
                if b == self.keys().len() - 1 {
                    assert(!keys_contain(oldkeys, entry.spec_method(), entry.spec_path()));
                    assert(oldkeys[a] == self.keys()[a]);
                }
            }
        }
        Ok(())
    }
}

/// A handler that answers every request at its route with one fixed
/// status and body: the simplest endpoint.
pub struct FixedResponseHandler {
    path: HandlerPath,
    method: HTTPMethod,
    status: ResponseStatus,
    body: String,
}

impl FixedResponseHandler {
    /// An endpoint at `(method, path)` answering with `status` and
    /// `body`.
    pub fn new(method: HTTPMethod, path: HandlerPath, status: ResponseStatus, body: String) -> (r:
        Self)
        ensures
            r.spec_method() == method,
            r.spec_path() == path@,
    {
        FixedResponseHandler { path, method, status, body }
    }
}

impl Handler for FixedResponseHandler {
    closed spec fn spec_path(&self) -> Seq<char> {
        self.path@
    }

    closed spec fn spec_method(&self) -> HTTPMethod {
        self.method
    }

    fn get_path(&self) -> (r: &HandlerPath) {
        &self.path
    }

    fn get_method(&self) -> (r: &HTTPMethod) {
        &self.method
    }

    fn on_request(&self, req: Request) -> HandlerResult {
        let built = ResponseBuilder::from_request(&req).status(self.status.clone()).body(
            self.body.clone(),
        ).build();
        match built {
            Ok(res) => HandlerResult::Done(res),
            Err(_) => {
                proof {
                    assert(false);
                }
                HandlerResult::Continue(req)
            },
        }
    }
}

/// Why a request could not be dispatched to a handler.
#[derive(Debug)]
pub enum HandlerCallErrorReason {
    /// The request-target has no routable form: asterisk and authority
    /// targets never reach a handler.
    UnhandlablePath(Path),
    /// No handler is registered under the `(method, path)` route.
    NoCompatibleHandler(HTTPMethod, Path),
    /// The handler passed the request on, and no middleware stage
    /// exists yet to take it.
    MiddlewareUnsupported,
}

/// A dispatch failure, with what an error response needs: the request's
/// version and its path.
#[derive(Debug)]
pub struct HandlerCallError {
    pub reason: HandlerCallErrorReason,
    pub http_version: HTTPVersion,
    pub path: Path,
}

impl HandlerCallError {
    /// A dispatch failure carrying the failed request's version and
    /// path.
    pub fn new(reason: HandlerCallErrorReason, req: Request) -> (r: Self)
        ensures
            r.reason == reason,
            r.http_version == req.head.version,
            r.path@ == req.head.path@,
    {
        Self { reason, http_version: req.head.version, path: req.head.path }
    }

    /// The status an error response will carry: 400 for an unroutable
    /// path, 404 for a missing handler, 500 for the missing middleware
    /// stage.
    pub fn as_status_code(&self) -> (r: ResponseStatus)
        ensures
            self.reason is UnhandlablePath ==> r == ResponseStatus::BadRequest,
            self.reason is NoCompatibleHandler ==> r == ResponseStatus::NotFound,
            self.reason is MiddlewareUnsupported ==> r == ResponseStatus::InternalServerError,
    {
        match self.reason {
            HandlerCallErrorReason::UnhandlablePath(_) => ResponseStatus::BadRequest,
            HandlerCallErrorReason::NoCompatibleHandler(_, _) => ResponseStatus::NotFound,
            HandlerCallErrorReason::MiddlewareUnsupported => ResponseStatus::InternalServerError,
        }
    }

    /// A response builder for the failure: the request's version, a 400
    /// for an unroutable path, a 404 for a missing handler, a 500 for
    /// the missing middleware stage, each with a body naming the
    /// reason.
    pub fn into_response(self) -> (r: ResponseBuilder)
        ensures
            r.wf(),
            r.spec_version() == Some(self.http_version),
            self.reason is UnhandlablePath ==> r.spec_status() == Some(
                ResponseStatus::BadRequest,
            ) && r.built_body() == "Malformed URL path "@ + crate::request::path_render(
                self.path@,
            ),
            self.reason matches HandlerCallErrorReason::NoCompatibleHandler(m, _) ==> r.spec_status()
                == Some(ResponseStatus::NotFound) && r.built_body()
                == "No matching handler found for "@ + crate::request::method_name(m) + seq![' ']
                + crate::request::path_render(self.path@),
            self.reason is MiddlewareUnsupported ==> r.spec_status() == Some(
                ResponseStatus::InternalServerError,
            ) && r.built_body() == "Middleware is not yet implemented"@,
    {
        let builder = ResponseBuilder::default().version(self.http_version);
        match self.reason {
            HandlerCallErrorReason::UnhandlablePath(_) => {
                let mut body = String::from_str("Malformed URL path ");
                let rendered = self.path.render();
                body.append(rendered.as_str());
                builder.bad_request().body(body)
            },
            HandlerCallErrorReason::NoCompatibleHandler(httpmethod, _) => {
                let mut body = String::from_str("No matching handler found for ");
                let mname = httpmethod.render();
                body.append(mname.as_str());
                crate::strutil::push_char(&mut body, ' ');
                let rendered = self.path.render();
                body.append(rendered.as_str());
                builder.not_found().body(body)
            },
            HandlerCallErrorReason::MiddlewareUnsupported => builder.internal_error().body(
                String::from_str("Middleware is not yet implemented"),
            ),
        }
    }
}

/// What a dispatch failure can always yield: a status and an error
/// response.
pub trait DispatcherError {
    /// The status code the failure maps to.
    fn as_status_code(&self) -> ResponseStatus;

    /// A builder for the error response.
    fn into_response(self) -> ResponseBuilder;
}

impl DispatcherError for HandlerCallError {
    fn as_status_code(&self) -> ResponseStatus {
        HandlerCallError::as_status_code(self)
    }

    fn into_response(self) -> ResponseBuilder {
        HandlerCallError::into_response(self)
    }
}

impl HandlerRegistry {
    /// Dispatches a request: converts its target to the canonical
    /// route, looks the handler up, and runs it. Fails with
    /// `UnhandlablePath` exactly on unroutable targets, with
    /// `NoCompatibleHandler` exactly on routable targets nobody serves,
    /// and with `MiddlewareUnsupported` where the handler passed the
    /// request on.
    pub fn dispatch(&self, req: Request) -> (r: Result<Response, HandlerCallError>)
        requires
            self.wf(),
            req.head.headers.wf(),
        ensures
            match r {
                Ok(_) => route_of(req.head.path@) is Some && self.contains_route(
                    req.head.method,
                    route_of(req.head.path@).unwrap(),
                ),
                Err(e) => {
                    &&& (e.reason is UnhandlablePath ==> route_of(req.head.path@) is None
                        && e.http_version == req.head.version && e.path@ == req.head.path@)
                    &&& (e.reason is NoCompatibleHandler ==> route_of(req.head.path@) is Some
                        && !self.contains_route(req.head.method, route_of(req.head.path@).unwrap())
                        && e.http_version == req.head.version && e.path@ == req.head.path@)
                    &&& (e.reason matches HandlerCallErrorReason::NoCompatibleHandler(m, p) ==> m
                        == req.head.method && p@ == req.head.path@)
                    &&& (e.reason matches HandlerCallErrorReason::UnhandlablePath(p) ==> p@
                        == req.head.path@)
                    &&& (e.reason is MiddlewareUnsupported ==> route_of(req.head.path@) is Some
                        && self.contains_route(
                        req.head.method,
                        route_of(req.head.path@).unwrap(),
                    ))
                    &&& (route_of(req.head.path@) is None ==> e.reason is UnhandlablePath)
                    &&& (route_of(req.head.path@) is Some && !self.contains_route(
                        req.head.method,
                        route_of(req.head.path@).unwrap(),
                    ) ==> e.reason is NoCompatibleHandler)
                },
            },
    {
        let method = req.head.method;
        let handler_path = match HandlerPath::from_path(&req.head.path) {
            Ok(hp) => hp,
            Err(_) => {
                let owned_path = req.head.path.clone();
                return Err(
                    HandlerCallError::new(
                        HandlerCallErrorReason::UnhandlablePath(owned_path),
                        req,
                    ),
                );
            },
        };
        let handler = match self.get(method, handler_path) {
            Some(h) => h,
            None => {
                let owned_path = req.head.path.clone();
                return Err(
                    HandlerCallError::new(
                        HandlerCallErrorReason::NoCompatibleHandler(method, owned_path),
                        req,
                    ),
                );
            },
        };
        match handler.on_request(req) {
            HandlerResult::Done(res) => Ok(res),
            HandlerResult::Continue(leftover) => Err(
                HandlerCallError::new(HandlerCallErrorReason::MiddlewareUnsupported, leftover),
            ),
        }
    }
}

impl Default for HandlerRegistry {
    /// An empty registry.
    fn default() -> (r: Self)
        ensures
            r.wf(),
            r.keys() == Seq::<(HTTPMethod, Seq<char>)>::empty(),
    {
        let r = HandlerRegistry { handlers: Vec::new() };
        proof {
            assert(r.keys() =~= Seq::<(HTTPMethod, Seq<char>)>::empty());
        }
        r
    }
}

} // verus!
