//! The descriptor model: what one route looks like, and the builder chain
//! that constructs it.
//!
//! Attaching a schema to an already-populated slot, attaching a streaming
//! response kind to a non-GET method, or marking a route deprecated twice is
//! a construction-time error: the builder returns it at once and never
//! silently overwrites the first attachment.

use vstd::prelude::*;

use crate::deprecated::Deprecated;
use crate::deprecated::DeprecatedView;
use crate::deprecated::dep_is;
use crate::method::Method;

verus! {

/// How one payload slot (params, body, or response) is typed.
///
/// A schema is carried as the JSON text of its JSON-Schema object; the
/// external transpiler consumes that text.
#[derive(Debug, Clone)]
pub enum Kind {
    /// The slot is absent.
    Absent,
    /// The slot is present but untyped.
    Any,
    /// The slot carries a JSON-Schema definition.
    Schema(String),
    /// A bidirectional stream with distinct message shapes per direction.
    /// Response slot only, GET only.
    Websocket { client_msg: String, server_msg: String },
    /// A unidirectional server-push stream. Response slot only, GET only.
    SSE(String),
}

/// The mathematical shape of a [`Kind`].
#[verifier::ext_equal]
pub enum KindView {
    Absent,
    Any,
    Schema(Seq<char>),
    Websocket { client_msg: Seq<char>, server_msg: Seq<char> },
    SSE(Seq<char>),
}

impl View for Kind {
    type V = KindView;

    open spec fn view(&self) -> KindView {
        match self {
            Kind::Absent => KindView::Absent,
            Kind::Any => KindView::Any,
            Kind::Schema(s) => KindView::Schema(s@),
            Kind::Websocket { client_msg, server_msg } => KindView::Websocket {
                client_msg: client_msg@,
                server_msg: server_msg@,
            },
            Kind::SSE(s) => KindView::SSE(s@),
        }
    }
}

/// Whether the slot is populated at all; streaming response kinds aside,
/// a populated slot is `Any` or `Schema`.
pub open spec fn kind_is_some(k: KindView) -> bool {
    match k {
        KindView::Any => true,
        KindView::Schema(_) => true,
        KindView::Websocket { .. } => true,
        _ => false,
    }
}

/// A request-direction slot may only be absent, untyped, or schema-typed.
pub open spec fn kind_wf_request(k: KindView) -> bool {
    match k {
        KindView::Absent => true,
        KindView::Any => true,
        KindView::Schema(_) => true,
        _ => false,
    }
}

impl Kind {
    /// Whether the slot is absent.
    pub fn is_none(&self) -> (r: bool)
        ensures
            r == (self@ is Absent),
    {
        match self {
            Kind::Absent => true,
            _ => false,
        }
    }

    /// Whether the slot is populated (untyped, schema-typed, or a channel).
    pub fn is_some(&self) -> (r: bool)
        ensures
            r == kind_is_some(self@),
    {
        match self {
            Kind::Any => true,
            Kind::Schema(_) => true,
            Kind::Websocket { .. } => true,
            _ => false,
        }
    }

    /// Whether the slot carries a plain schema.
    pub fn is_schema(&self) -> (r: bool)
        ensures
            r == (self@ is Schema),
    {
        match self {
            Kind::Schema(_) => true,
            _ => false,
        }
    }

    /// Whether the slot is a bidirectional channel.
    pub fn is_websocket(&self) -> (r: bool)
        ensures
            r == (self@ is Websocket),
    {
        match self {
            Kind::Websocket { .. } => true,
            _ => false,
        }
    }

    /// Whether the slot is a server-push stream.
    pub fn is_sse(&self) -> (r: bool)
        ensures
            r == (self@ is SSE),
    {
        match self {
            Kind::SSE(_) => true,
            _ => false,
        }
    }

    /// A short word describing the kind of this slot.
    pub fn label(&self) -> (r: &'static str)
        ensures
            r@ == kind_label(self@),
    {
        match self {
            Kind::Absent => "none",
            Kind::Any => "any",
            Kind::Schema(_) => "defined",
            Kind::Websocket { .. } => "websocket",
            Kind::SSE(_) => "server side events",
        }
    }
}

/// The word [`Kind::label`] returns for each variant.
pub open spec fn kind_label(k: KindView) -> Seq<char> {
    match k {
        KindView::Absent => "none"@,
        KindView::Any => "any"@,
        KindView::Schema(_) => "defined"@,
        KindView::Websocket { .. } => "websocket"@,
        KindView::SSE(_) => "server side events"@,
    }
}

/// Which payload slot of a route is meant, both in construction errors and
/// in transpilation jobs. A channel response transpiles two message shapes,
/// named by the last two variants.
#[derive(Debug, Copy, Clone, PartialEq, Eq, Structural)]
pub enum Slot {
    Params,
    Body,
    Response,
    ClientMessage,
    ServerMessage,
}

/// Why a builder call was rejected.
#[derive(Debug, Copy, Clone, PartialEq, Eq, Structural)]
pub enum BuildError {
    /// The named slot was already populated.
    DuplicateSlot(Slot),
    /// A channel or stream response was attached to a non-GET route.
    StreamingOnNonGet,
    /// The route already carries a deprecation note.
    DuplicateDeprecation,
}

/// Something that can serve as a route's namespace tag.
pub trait Tag {
    /// The tag text, as a specification-level character sequence.
    spec fn spec_tag_name(&self) -> Seq<char>;

    /// The tag text.
    fn tag_name(&self) -> (r: &'static str)
        ensures
            r@ == self.spec_tag_name(),
    ;
}

impl Tag for &'static str {
    open spec fn spec_tag_name(&self) -> Seq<char> {
        (*self)@
    }

    fn tag_name(&self) -> (r: &'static str) {
        *self
    }
}

/// One route of the service: where it lives, how it is called, and how each
/// payload slot is typed.
#[derive(Debug, Clone)]
pub struct RequestInfo {
    pub path: String,
    pub method: Method,
    pub tag: String,
    pub req_body: Kind,
    pub req_params: Kind,
    pub res_body: Kind,
    pub deprecated: Deprecated,
    pub error_codes: Vec<(u16, String)>,
}

/// The mathematical shape of a [`RequestInfo`].
#[verifier::ext_equal]
pub struct RouteView {
    pub path: Seq<char>,
    pub method: Method,
    pub tag: Seq<char>,
    pub req_body: KindView,
    pub req_params: KindView,
    pub res_body: KindView,
    pub deprecated: DeprecatedView,
    pub error_codes: Seq<(u16, Seq<char>)>,
}

impl View for RequestInfo {
    type V = RouteView;

    open spec fn view(&self) -> RouteView {
        RouteView {
            path: self.path@,
            method: self.method,
            tag: self.tag@,
            req_body: self.req_body@,
            req_params: self.req_params@,
            res_body: self.res_body@,
            deprecated: self.deprecated@,
            error_codes: self.error_codes@.map_values(|p: (u16, String)| (p.0, p.1@)),
        }
    }
}

/// A route as freshly constructed: every slot absent, not deprecated, no
/// documented error codes.
pub open spec fn route_new(path: Seq<char>, method: Method, tag: Seq<char>) -> RouteView {
    RouteView {
        path: path,
        method: method,
        tag: tag,
        req_body: KindView::Absent,
        req_params: KindView::Absent,
        res_body: KindView::Absent,
        deprecated: DeprecatedView::Simple(false),
        error_codes: Seq::empty(),
    }
}

/// GET-like methods carry their request data in the query string rather
/// than in a body.
pub open spec fn method_defaults_to_params(m: Method) -> bool {
    m == Method::Get || m == Method::Head || m == Method::Delete
}

/// What attaching a schema to the params slot yields.
pub open spec fn with_req_params_spec(r: RouteView, schema: Seq<char>) -> Result<
    RouteView,
    BuildError,
> {
    if r.req_params is Absent {
        Ok(RouteView { req_params: KindView::Schema(schema), ..r })
    } else {
        Err(BuildError::DuplicateSlot(Slot::Params))
    }
}

/// What attaching a schema to the body slot yields.
pub open spec fn with_req_body_spec(r: RouteView, schema: Seq<char>) -> Result<
    RouteView,
    BuildError,
> {
    if r.req_body is Absent {
        Ok(RouteView { req_body: KindView::Schema(schema), ..r })
    } else {
        Err(BuildError::DuplicateSlot(Slot::Body))
    }
}

/// What attaching a request schema yields: it lands in the params slot for
/// GET-like methods and in the body slot otherwise.
pub open spec fn with_req_schema_spec(r: RouteView, schema: Seq<char>) -> Result<
    RouteView,
    BuildError,
> {
    if method_defaults_to_params(r.method) {
        with_req_params_spec(r, schema)
    } else {
        with_req_body_spec(r, schema)
    }
}

/// What attaching a schema to the response slot yields.
pub open spec fn with_res_schema_spec(r: RouteView, schema: Seq<char>) -> Result<
    RouteView,
    BuildError,
> {
    if r.res_body is Absent {
        Ok(RouteView { res_body: KindView::Schema(schema), ..r })
    } else {
        Err(BuildError::DuplicateSlot(Slot::Response))
    }
}

/// What marking the body slot untyped yields.
pub open spec fn with_any_req_body_spec(r: RouteView) -> Result<RouteView, BuildError> {
    if r.req_body is Absent {
        Ok(RouteView { req_body: KindView::Any, ..r })
    } else {
        Err(BuildError::DuplicateSlot(Slot::Body))
    }
}

/// What marking the params slot untyped yields.
pub open spec fn with_any_req_params_spec(r: RouteView) -> Result<RouteView, BuildError> {
    if r.req_params is Absent {
        Ok(RouteView { req_params: KindView::Any, ..r })
    } else {
        Err(BuildError::DuplicateSlot(Slot::Params))
    }
}

/// What marking the request untyped yields: params slot for GET-like
/// methods, body slot otherwise.
pub open spec fn with_any_req_spec(r: RouteView) -> Result<RouteView, BuildError> {
    if method_defaults_to_params(r.method) {
        with_any_req_params_spec(r)
    } else {
        with_any_req_body_spec(r)
    }
}

/// What marking the response untyped yields.
pub open spec fn with_any_res_spec(r: RouteView) -> Result<RouteView, BuildError> {
    if r.res_body is Absent {
        Ok(RouteView { res_body: KindView::Any, ..r })
    } else {
        Err(BuildError::DuplicateSlot(Slot::Response))
    }
}

/// What attaching a server-push stream response yields: only GET routes may
/// stream, and the response slot must still be empty.
pub open spec fn with_sse_spec(r: RouteView, schema: Seq<char>) -> Result<
    RouteView,
    BuildError,
> {
    if r.method != Method::Get {
        Err(BuildError::StreamingOnNonGet)
    } else if r.res_body is Absent {
        Ok(RouteView { res_body: KindView::SSE(schema), ..r })
    } else {
        Err(BuildError::DuplicateSlot(Slot::Response))
    }
}

/// What attaching a bidirectional channel response yields: only GET routes
/// may stream, and the response slot must still be empty.
pub open spec fn with_websocket_spec(
    r: RouteView,
    client_msg: Seq<char>,
    server_msg: Seq<char>,
) -> Result<RouteView, BuildError> {
    if r.method != Method::Get {
        Err(BuildError::StreamingOnNonGet)
    } else if r.res_body is Absent {
        Ok(
            RouteView {
                res_body: KindView::Websocket { client_msg: client_msg, server_msg: server_msg },
                ..r
            },
        )
    } else {
        Err(BuildError::DuplicateSlot(Slot::Response))
    }
}

/// What marking a route as superseded by `new_route` yields: the full
/// (path, method, namespace) reference is stored, never the resolved name.
pub open spec fn with_deprecation_note_spec(r: RouteView, new_route: RouteView) -> Result<
    RouteView,
    BuildError,
> {
    if dep_is(r.deprecated) {
        Err(BuildError::DuplicateDeprecation)
    } else {
        Ok(
            RouteView {
                deprecated: DeprecatedView::WithInfo(new_route.path, new_route.method, new_route.tag),
                ..r
            },
        )
    }
}

/// What documenting one more error code yields.
pub open spec fn with_error_spec(r: RouteView, code: u16, desc: Seq<char>) -> RouteView {
    RouteView { error_codes: r.error_codes.push((code, desc)), ..r }
}

impl RequestInfo {
    /// A fresh descriptor for `path`, reached with `method`, grouped under
    /// `tag`; every payload slot starts absent.
    pub fn new<T: Tag>(path: &'static str, method: Method, tag: T) -> (r: RequestInfo)
        ensures
            r@ == route_new(path@, method, tag.spec_tag_name()),
    {
        let r = RequestInfo {
            path: path.to_owned(),
            method: method,
            tag: tag.tag_name().to_owned(),
            req_body: Kind::Absent,
            req_params: Kind::Absent,
            res_body: Kind::Absent,
            deprecated: Deprecated::Simple(false),
            error_codes: Vec::new(),
        };
        proof {
            assert(r@ =~= route_new(path@, method, tag.spec_tag_name()));
        }
        r
    }

    /// Document one more error response; insertion order is preserved in the
    /// emitted documentation block.
    pub fn with_error(self, code: u16, desc: &'static str) -> (r: RequestInfo)
        ensures
            r@ == with_error_spec(self@, code, desc@),
    {
        let mut s = self;
        s.error_codes.push((code, desc.to_owned()));
        proof {
            assert(s@ =~= with_error_spec(self@, code, desc@));
        }
        s
    }

    /// Attach a schema to the params slot; input-mode transpilation will be
    /// selected for it.
    pub fn with_req_params(self, schema: String) -> (r: Result<RequestInfo, BuildError>)
        ensures
            (match r {
                Ok(out) => with_req_params_spec(self@, schema@) == Ok::<RouteView, BuildError>(
                    out@,
                ),
                Err(e) => with_req_params_spec(self@, schema@) == Err::<RouteView, BuildError>(e),
            }),
    {
        let mut s = self;
        match s.req_params {
            Kind::Absent => {
                s.req_params = Kind::Schema(schema);
                proof {
                    assert(Ok::<RouteView, BuildError>(s@) =~= with_req_params_spec(
                        self@,
                        schema@,
                    ));
                }
                Ok(s)
            },
            _ => Err(BuildError::DuplicateSlot(Slot::Params)),
        }
    }

    /// Attach a schema to the body slot; input-mode transpilation will be
    /// selected for it.
    pub fn with_req_body(self, schema: String) -> (r: Result<RequestInfo, BuildError>)
        ensures
            (match r {
                Ok(out) => with_req_body_spec(self@, schema@) == Ok::<RouteView, BuildError>(out@),
                Err(e) => with_req_body_spec(self@, schema@) == Err::<RouteView, BuildError>(e),
            }),
    {
        let mut s = self;
        match s.req_body {
            Kind::Absent => {
                s.req_body = Kind::Schema(schema);
                proof {
                    assert(Ok::<RouteView, BuildError>(s@) =~= with_req_body_spec(self@, schema@));
                }
                Ok(s)
            },
            _ => Err(BuildError::DuplicateSlot(Slot::Body)),
        }
    }

    /// Attach a request schema where this route's method conventionally
    /// carries it: the query string for GET-like methods, the body otherwise.
    pub fn with_req_schema(self, schema: String) -> (r: Result<RequestInfo, BuildError>)
        ensures
            (match r {
                Ok(out) => with_req_schema_spec(self@, schema@) == Ok::<RouteView, BuildError>(
                    out@,
                ),
                Err(e) => with_req_schema_spec(self@, schema@) == Err::<RouteView, BuildError>(e),
            }),
    {
        if self.request_default_params() {
            self.with_req_params(schema)
        } else {
            self.with_req_body(schema)
        }
    }

    /// Attach a schema to the response slot; output-mode transpilation will
    /// be selected for it.
    pub fn with_res_schema(self, schema: String) -> (r: Result<RequestInfo, BuildError>)
        ensures
            (match r {
                Ok(out) => with_res_schema_spec(self@, schema@) == Ok::<RouteView, BuildError>(
                    out@,
                ),
                Err(e) => with_res_schema_spec(self@, schema@) == Err::<RouteView, BuildError>(e),
            }),
    {
        let mut s = self;
        match s.res_body {
            Kind::Absent => {
                s.res_body = Kind::Schema(schema);
                proof {
                    assert(Ok::<RouteView, BuildError>(s@) =~= with_res_schema_spec(
                        self@,
                        schema@,
                    ));
                }
                Ok(s)
            },
            _ => Err(BuildError::DuplicateSlot(Slot::Response)),
        }
    }

    /// Mark the body slot populated but untyped.
    pub fn with_any_req_body(self) -> (r: Result<RequestInfo, BuildError>)
        ensures
            (match r {
                Ok(out) => with_any_req_body_spec(self@) == Ok::<RouteView, BuildError>(out@),
                Err(e) => with_any_req_body_spec(self@) == Err::<RouteView, BuildError>(e),
            }),
    {
        let mut s = self;
        match s.req_body {
            Kind::Absent => {
                s.req_body = Kind::Any;
                proof {
                    assert(Ok::<RouteView, BuildError>(s@) =~= with_any_req_body_spec(self@));
                }
                Ok(s)
            },
            _ => Err(BuildError::DuplicateSlot(Slot::Body)),
        }
    }

    /// Mark the params slot populated but untyped.
    pub fn with_any_req_params(self) -> (r: Result<RequestInfo, BuildError>)
        ensures
            (match r {
                Ok(out) => with_any_req_params_spec(self@) == Ok::<RouteView, BuildError>(out@),
                Err(e) => with_any_req_params_spec(self@) == Err::<RouteView, BuildError>(e),
            }),
    {
        let mut s = self;
        match s.req_params {
            Kind::Absent => {
                s.req_params = Kind::Any;
                proof {
                    assert(Ok::<RouteView, BuildError>(s@) =~= with_any_req_params_spec(self@));
                }
                Ok(s)
            },
            _ => Err(BuildError::DuplicateSlot(Slot::Params)),
        }
    }

    /// Mark the request untyped where this route's method conventionally
    /// carries it.
    pub fn with_any_req(self) -> (r: Result<RequestInfo, BuildError>)
        ensures
            (match r {
                Ok(out) => with_any_req_spec(self@) == Ok::<RouteView, BuildError>(out@),
                Err(e) => with_any_req_spec(self@) == Err::<RouteView, BuildError>(e),
            }),
    {
        if self.request_default_params() {
            self.with_any_req_params()
        } else {
            self.with_any_req_body()
        }
    }

    /// Mark the response populated but untyped.
    pub fn with_any_res(self) -> (r: Result<RequestInfo, BuildError>)
        ensures
            (match r {
                Ok(out) => with_any_res_spec(self@) == Ok::<RouteView, BuildError>(out@),
                Err(e) => with_any_res_spec(self@) == Err::<RouteView, BuildError>(e),
            }),
    {
        let mut s = self;
        match s.res_body {
            Kind::Absent => {
                s.res_body = Kind::Any;
                proof {
                    assert(Ok::<RouteView, BuildError>(s@) =~= with_any_res_spec(self@));
                }
                Ok(s)
            },
            _ => Err(BuildError::DuplicateSlot(Slot::Response)),
        }
    }

    /// Attach a server-push stream response; only GET routes may stream.
    pub fn with_sse(self, schema: String) -> (r: Result<RequestInfo, BuildError>)
        ensures
            (match r {
                Ok(out) => with_sse_spec(self@, schema@) == Ok::<RouteView, BuildError>(out@),
                Err(e) => with_sse_spec(self@, schema@) == Err::<RouteView, BuildError>(e),
            }),
    {
        let mut s = self;
        if !matches!(s.method, Method::Get) {
            return Err(BuildError::StreamingOnNonGet);
        }
        match s.res_body {
            Kind::Absent => {
                s.res_body = Kind::SSE(schema);
                proof {
                    assert(Ok::<RouteView, BuildError>(s@) =~= with_sse_spec(self@, schema@));
                }
                Ok(s)
            },
            _ => Err(BuildError::DuplicateSlot(Slot::Response)),
        }
    }

    /// Attach a bidirectional channel response; only GET routes may stream.
    pub fn with_websocket(self, client_msg: String, server_msg: String) -> (r: Result<
        RequestInfo,
        BuildError,
    >)
        ensures
            (match r {
                Ok(out) => with_websocket_spec(self@, client_msg@, server_msg@) == Ok::<
                    RouteView,
                    BuildError,
                >(out@),
                Err(e) => with_websocket_spec(self@, client_msg@, server_msg@) == Err::<
                    RouteView,
                    BuildError,
                >(e),
            }),
    {
        let mut s = self;
        if !matches!(s.method, Method::Get) {
            return Err(BuildError::StreamingOnNonGet);
        }
        match s.res_body {
            Kind::Absent => {
                s.res_body = Kind::Websocket { client_msg: client_msg, server_msg: server_msg };
                proof {
                    assert(Ok::<RouteView, BuildError>(s@) =~= with_websocket_spec(
                        self@,
                        client_msg@,
                        server_msg@,
                    ));
                }
                Ok(s)
            },
            _ => Err(BuildError::DuplicateSlot(Slot::Response)),
        }
    }

    /// Mark this route as superseded by `new_route`; the replacement's
    /// identifier is resolved only when the module is emitted.
    pub fn with_deprecation_note(self, new_route: &RequestInfo) -> (r: Result<
        RequestInfo,
        BuildError,
    >)
        ensures
            (match r {
                Ok(out) => with_deprecation_note_spec(self@, new_route@) == Ok::<
                    RouteView,
                    BuildError,
                >(out@),
                Err(e) => with_deprecation_note_spec(self@, new_route@) == Err::<
                    RouteView,
                    BuildError,
                >(e),
            }),
    {
        let mut s = self;
        if s.deprecated.is() {
            return Err(BuildError::DuplicateDeprecation);
        }
        s.deprecated = Deprecated::WithInfo(
            new_route.path.clone(),
            new_route.method,
            new_route.tag.clone(),
        );
        proof {
            assert(Ok::<RouteView, BuildError>(s@) =~= with_deprecation_note_spec(
                self@,
                new_route@,
            ));
        }
        Ok(s)
    }

    /// GET-like methods default their request data to the query string.
    fn request_default_params(&self) -> (r: bool)
        ensures
            r == method_defaults_to_params(self.method),
    {
        matches!(self.method, Method::Get | Method::Head | Method::Delete)
    }
}

/// Slot exclusivity: once a schema is attached to the body slot, attaching
/// another fails with the duplicate-slot error instead of overwriting the
/// first attachment, whose schema stays exactly as attached.
pub proof fn lemma_slot_exclusive(r: RouteView, s1: Seq<char>, s2: Seq<char>, r1: RouteView)
    requires
        with_req_body_spec(r, s1) == Ok::<RouteView, BuildError>(r1),
    ensures
        r1.req_body == KindView::Schema(s1),
        with_req_body_spec(r1, s2) == Err::<RouteView, BuildError>(
            BuildError::DuplicateSlot(Slot::Body),
        ),
{
}

/// Streaming method restriction: attaching a channel or stream response
/// kind to a route whose method is not GET fails construction, whatever
/// the schemas and whatever else the route holds.
pub proof fn lemma_streaming_restriction(
    r: RouteView,
    stream_schema: Seq<char>,
    client_msg: Seq<char>,
    server_msg: Seq<char>,
)
    requires
        r.method != Method::Get,
    ensures
        with_sse_spec(r, stream_schema) == Err::<RouteView, BuildError>(
            BuildError::StreamingOnNonGet,
        ),
        with_websocket_spec(r, client_msg, server_msg) == Err::<RouteView, BuildError>(
            BuildError::StreamingOnNonGet,
        ),
{
}

/// The ordered route set handed whole to the generator; insertion order is
/// the emission order within each namespace.
#[derive(Debug, Clone)]
pub struct Requests {
    pub requests: Vec<RequestInfo>,
}

impl View for Requests {
    type V = Seq<RouteView>;

    open spec fn view(&self) -> Seq<RouteView> {
        self.requests@.map_values(|r: RequestInfo| r@)
    }
}

impl Default for Requests {
    /// An empty route set.
    fn default() -> (r: Requests)
        ensures
            r@ == Seq::<RouteView>::empty(),
    {
        let r = Requests { requests: Vec::new() };
        proof {
            assert(r@ =~= Seq::<RouteView>::empty());
        }
        r
    }
}

impl Requests {
    /// Append the route the given closure builds.
    pub fn with<F: FnOnce() -> RequestInfo>(self, info_fn: F) -> (r: Requests)
        requires
            call_requires(info_fn, ()),
        ensures
            exists|info: RequestInfo| #[trigger] call_ensures(info_fn, (), info) && r@ == self@.push(
                info@,
            ),
    {
        let mut s = self;
        let info = info_fn();
        s.requests.push(info);
        proof {
            assert(s@ =~= self@.push(info@));
        }
        s
    }
}

} // verus!
