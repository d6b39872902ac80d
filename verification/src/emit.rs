//! The per-route emitters: given a route, its resolved names and the
//! transpiled validator sources for its populated slots, produce the source
//! fragment of that route — validator declarations, type aliases, doc
//! comment, and the callable binding for its transport shape.

use vstd::prelude::*;

use crate::deprecated::Deprecated;
use crate::deprecated::DeprecatedView;
use crate::method::method_str;
use crate::name::make_name_raw;
use crate::name::name_raw_of;
use crate::name::route_name;
use crate::name::route_type_name;
use crate::strutil::dec_str;
use crate::strutil::push_chars;
use crate::strutil::push_str_chars;
use crate::strutil::push_u16_dec;
use crate::types::Kind;
use crate::types::KindView;
use crate::types::RequestInfo;
use crate::types::RouteView;
use crate::types::kind_is_some;

verus! {

/// The parts joined with the separator between consecutive parts.
pub open spec fn joined(parts: Seq<Seq<char>>, sep: Seq<char>) -> Seq<char>
    decreases parts.len(),
{
    if parts.len() == 0 {
        Seq::empty()
    } else if parts.len() == 1 {
        parts[0]
    } else {
        parts[0] + sep + joined(parts.drop_first(), sep)
    }
}

/// One documented error response, rendered as `code: description`.
pub open spec fn error_entry(e: (u16, Seq<char>)) -> Seq<char> {
    dec_str(e.0 as nat) + ": "@ + e.1
}

/// The doc block listing a route's documented error responses in insertion
/// order; an empty list emits no block.
pub open spec fn comment_section(errors: Seq<(u16, Seq<char>)>) -> Seq<char> {
    if errors.len() == 0 {
        Seq::empty()
    } else {
        "    /**\n     * Error responses:\n     *\n     * "@ + joined(
            errors.map_values(|e: (u16, Seq<char>)| error_entry(e)),
            "\n     *\n     * "@,
        ) + "\n     */\n"@
    }
}

/// The deprecation marker of a route: a superseded route references its
/// replacement by resolved identifier, a flagged route carries a bare
/// marker, and an undeprecated route emits nothing.
pub open spec fn dep_section(d: DeprecatedView) -> Seq<char> {
    match d {
        DeprecatedView::WithInfo(path, method, tag) => "    /** @deprecated Please use {@link "@
            + name_raw_of(method_str(method), path, tag) + "} instead */\n"@,
        DeprecatedView::Simple(b) => if b {
            "    /** @deprecated */\n"@
        } else {
            Seq::empty()
        },
    }
}

/// Joining one more part appends one separator and the part.
pub proof fn lemma_joined_push(parts: Seq<Seq<char>>, sep: Seq<char>, e: Seq<char>)
    requires
        parts.len() >= 1,
    ensures
        joined(parts.push(e), sep) == joined(parts, sep) + sep + e,
    decreases parts.len(),
{
    if parts.len() == 1 {
        assert(parts.push(e).drop_first() =~= seq![e]);
        assert(joined(seq![e], sep) == e);
        assert(joined(parts.push(e), sep) =~= joined(parts, sep) + sep + e);
    } else {
        assert(parts.push(e).drop_first() =~= parts.drop_first().push(e));
        lemma_joined_push(parts.drop_first(), sep, e);
        assert(joined(parts.push(e), sep) =~= joined(parts, sep) + sep + e);
    }
}

/// Append the error-code doc block of `errors` to `out`.
pub fn push_comment_section(out: &mut Vec<char>, errors: &Vec<(u16, String)>)
    ensures
        final(out)@ == old(out)@ + comment_section(
            errors@.map_values(|p: (u16, String)| (p.0, p.1@)),
        ),
{
    let ghost errs = errors@.map_values(|p: (u16, String)| (p.0, p.1@));
    let ghost entries = errs.map_values(|e: (u16, Seq<char>)| error_entry(e));
    let ghost sep = "\n     *\n     * "@;
    let n: usize = errors.len();
    if n == 0 {
        return ;
    }
    push_str_chars(out, "    /**\n     * Error responses:\n     *\n     * ");
    let ghost head = out@;
    let code0: u16 = errors[0].0;
    push_u16_dec(out, code0);
    push_str_chars(out, ": ");
    push_str_chars(out, errors[0].1.as_str());
    proof {
        assert(entries.take(1) =~= seq![entries[0]]);
        assert(joined(entries.take(1), sep) == entries[0]);
        assert(out@ =~= head + joined(entries.take(1), sep));
    }
    let mut i: usize = 1;
    while i < n
        invariant
            1 <= i <= n,
            n == errors@.len(),
            errs == errors@.map_values(|p: (u16, String)| (p.0, p.1@)),
            entries == errs.map_values(|e: (u16, Seq<char>)| error_entry(e)),
            sep == "\n     *\n     * "@,
            out@ == head + joined(entries.take(i as int), sep),
        decreases n - i,
    {
        push_str_chars(out, "\n     *\n     * ");
        let code: u16 = errors[i].0;
        push_u16_dec(out, code);
        push_str_chars(out, ": ");
        push_str_chars(out, errors[i].1.as_str());
        proof {
            lemma_joined_push(entries.take(i as int), sep, entries[i as int]);
            assert(entries.take(i + 1 as int) =~= entries.take(i as int).push(entries[i as int]));
            assert(out@ =~= head + joined(entries.take(i + 1 as int), sep));
        }
        i += 1;
    }
    push_str_chars(out, "\n     */\n");
    proof {
        assert(entries.take(n as int) =~= entries);
        assert(final(out)@ =~= old(out)@ + comment_section(errs));
    }
}

/// The params section of a route's fragment: an untyped slot only aliases
/// a string record; a schema-typed slot declares the transpiled validator
/// `pv` and derives the static type from the validator's input side.
pub open spec fn params_section(
    k: KindView,
    name: Seq<char>,
    sname: Seq<char>,
    pv: Seq<char>,
) -> Seq<char> {
    match k {
        KindView::Any => "    export type "@ + sname + "Params = Record<string, string>;\n\n"@,
        KindView::Schema(_) => "    const "@ + name + "ParamsSchema = "@ + pv
            + ";\n    export type "@ + sname + "Params = z.input<typeof "@ + name
            + "ParamsSchema>;\n\n"@,
        _ => Seq::empty(),
    }
}

/// The body section of a route's fragment; as with params, the static type
/// of a schema-typed body is the validator's input side.
pub open spec fn body_section(
    k: KindView,
    name: Seq<char>,
    sname: Seq<char>,
    bv: Seq<char>,
) -> Seq<char> {
    match k {
        KindView::Any => "    type "@ + sname + "Req = Blob | FormData | string;\n\n"@,
        KindView::Schema(_) => "    const "@ + name + "ReqSchema = "@ + bv + ";\n    export type "@
            + sname + "Req = z.input<typeof "@ + name + "ReqSchema>;\n\n"@,
        _ => Seq::empty(),
    }
}

/// The response section of a route's fragment. Response-direction static
/// types come from the validator's output side; a channel declares both
/// message validators and a wrapper alias, a stream declares its message
/// validator and a wrapper alias.
pub open spec fn res_section(
    k: KindView,
    name: Seq<char>,
    sname: Seq<char>,
    rv1: Seq<char>,
    rv2: Seq<char>,
) -> Seq<char> {
    match k {
        KindView::Any => "    export type "@ + sname + "Res = unknown;\n\n"@,
        KindView::Schema(_) => "    const "@ + name + "ResSchema = "@ + rv1
            + ";\n    export type "@ + sname + "Res = z.output<typeof "@ + name
            + "ResSchema>;\n\n"@,
        KindView::Websocket { .. } => "    const "@ + name + "ClientMsgSchema = "@ + rv1
            + ";\n    export type "@ + sname + "ClientMsg = z.output<typeof "@ + name
            + "ClientMsgSchema>;\n    const "@ + name + "ServerMsgSchema = "@ + rv2
            + ";\n    export type "@ + sname + "ServerMsg = z.output<typeof "@ + name
            + "ServerMsgSchema>;\n    export type "@ + sname + "Websocket = WebsocketWrapper<"@
            + sname + "ClientMsg, "@ + sname + "ServerMsg>;\n\n"@,
        KindView::SSE(_) => "    const "@ + name + "Msg = "@ + rv1 + ";\n    export type "@ + sname
            + "Msg = z.output<typeof "@ + name + "Msg>;\n\n    export type "@ + sname + "SSE = SSE<"@
            + sname + "Msg>;\n\n"@,
        _ => Seq::empty(),
    }
}

/// Append the params section to `out`.
pub fn push_params_section(
    out: &mut Vec<char>,
    k: &Kind,
    name: &Vec<char>,
    sname: &Vec<char>,
    pv: &Vec<char>,
)
    ensures
        final(out)@ == old(out)@ + params_section(k@, name@, sname@, pv@),
{
    match k {
        Kind::Any => {
            push_str_chars(out, "    export type ");
            push_chars(out, sname);
            push_str_chars(out, "Params = Record<string, string>;\n\n");
            proof {
                assert(final(out)@ =~= old(out)@ + params_section(k@, name@, sname@, pv@));
            }
        },
        Kind::Schema(_) => {
            push_str_chars(out, "    const ");
            push_chars(out, name);
            push_str_chars(out, "ParamsSchema = ");
            push_chars(out, pv);
            push_str_chars(out, ";\n    export type ");
            push_chars(out, sname);
            push_str_chars(out, "Params = z.input<typeof ");
            push_chars(out, name);
            push_str_chars(out, "ParamsSchema>;\n\n");
            proof {
                assert(final(out)@ =~= old(out)@ + params_section(k@, name@, sname@, pv@));
            }
        },
        _ => {},
    }
}

/// Append the body section to `out`.
pub fn push_body_section(
    out: &mut Vec<char>,
    k: &Kind,
    name: &Vec<char>,
    sname: &Vec<char>,
    bv: &Vec<char>,
)
    ensures
        final(out)@ == old(out)@ + body_section(k@, name@, sname@, bv@),
{
    match k {
        Kind::Any => {
            push_str_chars(out, "    type ");
            push_chars(out, sname);
            push_str_chars(out, "Req = Blob | FormData | string;\n\n");
            proof {
                assert(final(out)@ =~= old(out)@ + body_section(k@, name@, sname@, bv@));
            }
        },
        Kind::Schema(_) => {
            push_str_chars(out, "    const ");
            push_chars(out, name);
            push_str_chars(out, "ReqSchema = ");
            push_chars(out, bv);
            push_str_chars(out, ";\n    export type ");
            push_chars(out, sname);
            push_str_chars(out, "Req = z.input<typeof ");
            push_chars(out, name);
            push_str_chars(out, "ReqSchema>;\n\n");
            proof {
                assert(final(out)@ =~= old(out)@ + body_section(k@, name@, sname@, bv@));
            }
        },
        _ => {},
    }
}

/// Append the response section to `out`.
#[verifier::rlimit(60)]
pub fn push_res_section(
    out: &mut Vec<char>,
    k: &Kind,
    name: &Vec<char>,
    sname: &Vec<char>,
    rv1: &Vec<char>,
    rv2: &Vec<char>,
)
    ensures
        final(out)@ == old(out)@ + res_section(k@, name@, sname@, rv1@, rv2@),
{
    match k {
        Kind::Any => {
            push_str_chars(out, "    export type ");
            push_chars(out, sname);
            push_str_chars(out, "Res = unknown;\n\n");
            proof {
                assert(final(out)@ =~= old(out)@ + res_section(k@, name@, sname@, rv1@, rv2@));
            }
        },
        Kind::Schema(_) => {
            push_str_chars(out, "    const ");
            push_chars(out, name);
            push_str_chars(out, "ResSchema = ");
            push_chars(out, rv1);
            push_str_chars(out, ";\n    export type ");
            push_chars(out, sname);
            push_str_chars(out, "Res = z.output<typeof ");
            push_chars(out, name);
            push_str_chars(out, "ResSchema>;\n\n");
            proof {
                assert(final(out)@ =~= old(out)@ + res_section(k@, name@, sname@, rv1@, rv2@));
            }
        },
        Kind::Websocket { .. } => {
            push_str_chars(out, "    const ");
            push_chars(out, name);
            push_str_chars(out, "ClientMsgSchema = ");
            push_chars(out, rv1);
            push_str_chars(out, ";\n    export type ");
            push_chars(out, sname);
            push_str_chars(out, "ClientMsg = z.output<typeof ");
            push_chars(out, name);
            push_str_chars(out, "ClientMsgSchema>;\n    const ");
            push_chars(out, name);
            push_str_chars(out, "ServerMsgSchema = ");
            push_chars(out, rv2);
            push_str_chars(out, ";\n    export type ");
            push_chars(out, sname);
            push_str_chars(out, "ServerMsg = z.output<typeof ");
            push_chars(out, name);
            push_str_chars(out, "ServerMsgSchema>;\n    export type ");
            push_chars(out, sname);
            push_str_chars(out, "Websocket = WebsocketWrapper<");
            push_chars(out, sname);
            push_str_chars(out, "ClientMsg, ");
            push_chars(out, sname);
            push_str_chars(out, "ServerMsg>;\n\n");
            proof {
                assert(final(out)@ =~= old(out)@ + res_section(k@, name@, sname@, rv1@, rv2@));
            }
        },
        Kind::SSE(_) => {
            push_str_chars(out, "    const ");
            push_chars(out, name);
            push_str_chars(out, "Msg = ");
            push_chars(out, rv1);
            push_str_chars(out, ";\n    export type ");
            push_chars(out, sname);
            push_str_chars(out, "Msg = z.output<typeof ");
            push_chars(out, name);
            push_str_chars(out, "Msg>;\n\n    export type ");
            push_chars(out, sname);
            push_str_chars(out, "SSE = SSE<");
            push_chars(out, sname);
            push_str_chars(out, "Msg>;\n\n");
            proof {
                assert(final(out)@ =~= old(out)@ + res_section(k@, name@, sname@, rv1@, rv2@));
            }
        },
        _ => {},
    }
}

/// Append the deprecation marker of `d` to `out`.
pub fn push_dep_section(out: &mut Vec<char>, d: &Deprecated)
    ensures
        final(out)@ == old(out)@ + dep_section(d@),
{
    match d {
        Deprecated::WithInfo(path, method, tag) => {
            let new_name = make_name_raw(method.as_str().to_owned(), path.clone(), tag.clone());
            push_str_chars(out, "    /** @deprecated Please use {@link ");
            push_str_chars(out, new_name.as_str());
            push_str_chars(out, "} instead */\n");
            proof {
                assert(final(out)@ =~= old(out)@ + dep_section(d@));
            }
        },
        Deprecated::Simple(b) => {
            if *b {
                push_str_chars(out, "    /** @deprecated */\n");
            }
        },
    }
}

/// The `params:` argument of a binding, present only when the params slot
/// is populated.
pub open spec fn params_arg(r: RouteView, sname: Seq<char>) -> Seq<char> {
    if kind_is_some(r.req_params) {
        "params: "@ + sname + "Params, "@
    } else {
        Seq::empty()
    }
}

/// The query-string interpolation of a stream or channel address, present
/// only when the params slot is populated.
pub open spec fn stream_params_suffix(r: RouteView, name: Seq<char>, sname: Seq<char>) -> Seq<
    char,
> {
    if kind_is_some(r.req_params) {
        "${makeQuery(options.unsafe ? params as "@ + sname + "Params : "@ + name
            + "ParamsSchema.parse(params))}"@
    } else {
        Seq::empty()
    }
}

/// The query-string expression appended to a plain request address.
pub open spec fn http_params_suffix(r: RouteView, name: Seq<char>, sname: Seq<char>) -> Seq<char> {
    if kind_is_some(r.req_params) {
        " + makeQuery(options.unsafe ? params as "@ + sname + "Params : "@ + name
            + "ParamsSchema.parse(params))"@
    } else {
        Seq::empty()
    }
}

/// The `req:` argument of a plain binding, present only when the body slot
/// is populated.
pub open spec fn body_arg(r: RouteView, sname: Seq<char>) -> Seq<char> {
    if kind_is_some(r.req_body) {
        "req: "@ + sname + "Req, "@
    } else {
        Seq::empty()
    }
}

/// The result type of a plain binding: the typed response alias when the
/// response slot is populated, the raw transport response otherwise.
pub open spec fn http_res_name(r: RouteView, sname: Seq<char>) -> Seq<char> {
    if kind_is_some(r.res_body) {
        sname + "Res"@
    } else {
        "Response"@
    }
}

/// The request-body expression of a plain binding: no body, the raw value,
/// or validate-then-serialize through the bound request validator.
pub open spec fn http_body_expr(r: RouteView, name: Seq<char>) -> Seq<char> {
    match r.req_body {
        KindView::Absent => "null"@,
        KindView::Any => "req"@,
        KindView::Schema(_) => "JSON.stringify("@ + name + "ReqSchema.parse(req))"@,
        _ => Seq::empty(),
    }
}

/// The content-type header line, attached only when the body slot is
/// schema-typed.
pub open spec fn http_headers(r: RouteView) -> Seq<char> {
    if r.req_body is Schema {
        "\nheaders: jsonContentTypeHeader(init.headers as RepresentsHeader, options.globalInit.headers as RepresentsHeader),"@
    } else {
        Seq::empty()
    }
}

/// The response handler chained onto the transport call: a raw ok/err
/// result, text, or parse-validate-wrap through the bound response
/// validator.
pub open spec fn http_res_handler(r: RouteView, name: Seq<char>, sname: Seq<char>) -> Seq<char> {
    match r.res_body {
        KindView::Absent => ".then(res => res.ok ? ok(res) : err(res))"@,
        KindView::Any => ".then(res => res.ok ? res.text().then(ok) : err(res))"@,
        KindView::Schema(_) => ".then(res => res.ok ? res.json().then(options.unsafe ? (data) => (data as "@
            + sname + "Res) : "@ + name + "ResSchema.parse).then(ok) : err(res))"@,
        _ => Seq::empty(),
    }
}

/// The callable binding of a server-push stream route.
pub open spec fn sse_fn(r: RouteView, name: Seq<char>, sname: Seq<char>) -> Seq<char> {
    "    export function "@ + name + "("@ + params_arg(r, sname) + "): "@ + sname
        + "SSE {\n        const url = (!options.baseUrl || options.baseUrl.startsWith('/'))\n            && 'location' in global\n            ? `https://${(global.location as any).host}${options.baseUrl}`\n            : options.baseUrl;\n\n        return new SSE(\n            () => new EventSource(\n                `${url}"@
        + r.path + stream_params_suffix(r, name, sname)
        + "`,\n                { ...options.globalInit, withCredentials: true }\n            ),\n            (data) => options.unsafe ? data as "@
        + sname + "Msg : "@ + name + "Msg.parse(data),\n        )\n    }\n"@
}

/// The callable binding of a channel route.
pub open spec fn ws_fn(r: RouteView, name: Seq<char>, sname: Seq<char>) -> Seq<char> {
    "    export function "@ + name + "("@ + params_arg(r, sname) + "): "@ + sname
        + "Websocket {\n        const protocol = location.protocol === 'https:' ? 'wss://' : 'ws://'\n\n        const wsBaseUrl = (!options.baseUrl || options.baseUrl.startsWith('/'))\n            ? `${protocol}${location.host}${options.baseUrl}`\n            : (protocol + options.baseUrl.replace(/^https:\\/\\//, '').replace(/^http:\\/\\//, ''))\n\n        return new WebsocketWrapper(\n            () => new WebSocket(\n                `${wsBaseUrl}"@
        + r.path + stream_params_suffix(r, name, sname)
        + "`\n            ),\n            (data) => options.unsafe ? data as "@ + sname
        + "ClientMsg : "@ + name
        + "ClientMsgSchema.parse(data),\n            (data) => options.unsafe ? data as "@ + sname
        + "ServerMsg : "@ + name + "ServerMsgSchema.parse(data)\n        )\n    }\n"@
}

/// The callable binding of a plain request/response route.
pub open spec fn http_fn(r: RouteView, name: Seq<char>, sname: Seq<char>) -> Seq<char> {
    "    export function "@ + name + "("@ + body_arg(r, sname) + params_arg(r, sname)
        + "init: RequestInit = {}): PromiseWrapper<"@ + http_res_name(r, sname)
        + "> {\n        return new PromiseWrapper(\n            options.fetch(\n                new Request(\n                    options.baseUrl + '"@
        + r.path + "'"@ + http_params_suffix(r, name, sname)
        + ",\n                    {\n                        method: '"@ + method_str(r.method)
        + "',\n                        body: "@ + http_body_expr(r, name)
        + ",\n                        credentials: 'include',\n                        ...options.globalInit,\n                        ...init,"@
        + http_headers(r)
        + "\n                    }\n                )\n            )"@ + http_res_handler(
        r,
        name,
        sname,
    ) + "\n        )\n    }\n"@
}

/// Append the `params:` argument, if any.
fn push_params_arg(out: &mut Vec<char>, v: &RequestInfo, sname: &Vec<char>)
    ensures
        final(out)@ == old(out)@ + params_arg(v@, sname@),
{
    if v.req_params.is_some() {
        push_str_chars(out, "params: ");
        push_chars(out, sname);
        push_str_chars(out, "Params, ");
        proof {
            assert(final(out)@ =~= old(out)@ + params_arg(v@, sname@));
        }
    }
}

/// Append the stream query-string interpolation, if any.
fn push_stream_params_suffix(out: &mut Vec<char>, v: &RequestInfo, name: &Vec<char>, sname: &Vec<
    char,
>)
    ensures
        final(out)@ == old(out)@ + stream_params_suffix(v@, name@, sname@),
{
    if v.req_params.is_some() {
        push_str_chars(out, "${makeQuery(options.unsafe ? params as ");
        push_chars(out, sname);
        push_str_chars(out, "Params : ");
        push_chars(out, name);
        push_str_chars(out, "ParamsSchema.parse(params))}");
        proof {
            assert(final(out)@ =~= old(out)@ + stream_params_suffix(v@, name@, sname@));
        }
    }
}

/// Append the callable binding of a server-push stream route.
#[verifier::rlimit(60)]
pub fn push_sse_fn(out: &mut Vec<char>, v: &RequestInfo, name: &Vec<char>, sname: &Vec<char>)
    ensures
        final(out)@ == old(out)@ + sse_fn(v@, name@, sname@),
{
    push_str_chars(out, "    export function ");
    push_chars(out, name);
    push_str_chars(out, "(");
    push_params_arg(out, v, sname);
    push_str_chars(out, "): ");
    push_chars(out, sname);
    push_str_chars(
        out,
        "SSE {\n        const url = (!options.baseUrl || options.baseUrl.startsWith('/'))\n            && 'location' in global\n            ? `https://${(global.location as any).host}${options.baseUrl}`\n            : options.baseUrl;\n\n        return new SSE(\n            () => new EventSource(\n                `${url}",
    );
    push_str_chars(out, v.path.as_str());
    push_stream_params_suffix(out, v, name, sname);
    push_str_chars(
        out,
        "`,\n                { ...options.globalInit, withCredentials: true }\n            ),\n            (data) => options.unsafe ? data as ",
    );
    push_chars(out, sname);
    push_str_chars(out, "Msg : ");
    push_chars(out, name);
    push_str_chars(out, "Msg.parse(data),\n        )\n    }\n");
    proof {
        assert(final(out)@ =~= old(out)@ + sse_fn(v@, name@, sname@));
    }
}

/// Append the callable binding of a channel route.
#[verifier::rlimit(60)]
pub fn push_ws_fn(out: &mut Vec<char>, v: &RequestInfo, name: &Vec<char>, sname: &Vec<char>)
    ensures
        final(out)@ == old(out)@ + ws_fn(v@, name@, sname@),
{
    push_str_chars(out, "    export function ");
    push_chars(out, name);
    push_str_chars(out, "(");
    push_params_arg(out, v, sname);
    push_str_chars(out, "): ");
    push_chars(out, sname);
    push_str_chars(
        out,
        "Websocket {\n        const protocol = location.protocol === 'https:' ? 'wss://' : 'ws://'\n\n        const wsBaseUrl = (!options.baseUrl || options.baseUrl.startsWith('/'))\n            ? `${protocol}${location.host}${options.baseUrl}`\n            : (protocol + options.baseUrl.replace(/^https:\\/\\//, '').replace(/^http:\\/\\//, ''))\n\n        return new WebsocketWrapper(\n            () => new WebSocket(\n                `${wsBaseUrl}",
    );
    push_str_chars(out, v.path.as_str());
    push_stream_params_suffix(out, v, name, sname);
    push_str_chars(out, "`\n            ),\n            (data) => options.unsafe ? data as ");
    push_chars(out, sname);
    push_str_chars(out, "ClientMsg : ");
    push_chars(out, name);
    push_str_chars(
        out,
        "ClientMsgSchema.parse(data),\n            (data) => options.unsafe ? data as ",
    );
    push_chars(out, sname);
    push_str_chars(out, "ServerMsg : ");
    push_chars(out, name);
    push_str_chars(out, "ServerMsgSchema.parse(data)\n        )\n    }\n");
    proof {
        assert(final(out)@ =~= old(out)@ + ws_fn(v@, name@, sname@));
    }
}

/// Append the `req:` argument, if any.
fn push_body_arg(out: &mut Vec<char>, v: &RequestInfo, sname: &Vec<char>)
    ensures
        final(out)@ == old(out)@ + body_arg(v@, sname@),
{
    if v.req_body.is_some() {
        push_str_chars(out, "req: ");
        push_chars(out, sname);
        push_str_chars(out, "Req, ");
        proof {
            assert(final(out)@ =~= old(out)@ + body_arg(v@, sname@));
        }
    }
}

/// Append the result type of a plain binding.
fn push_http_res_name(out: &mut Vec<char>, v: &RequestInfo, sname: &Vec<char>)
    ensures
        final(out)@ == old(out)@ + http_res_name(v@, sname@),
{
    if v.res_body.is_some() {
        push_chars(out, sname);
        push_str_chars(out, "Res");
        proof {
            assert(final(out)@ =~= old(out)@ + http_res_name(v@, sname@));
        }
    } else {
        push_str_chars(out, "Response");
    }
}

/// Append the query-string expression of a plain request address, if any.
fn push_http_params_suffix(out: &mut Vec<char>, v: &RequestInfo, name: &Vec<char>, sname: &Vec<
    char,
>)
    ensures
        final(out)@ == old(out)@ + http_params_suffix(v@, name@, sname@),
{
    if v.req_params.is_some() {
        push_str_chars(out, " + makeQuery(options.unsafe ? params as ");
        push_chars(out, sname);
        push_str_chars(out, "Params : ");
        push_chars(out, name);
        push_str_chars(out, "ParamsSchema.parse(params))");
        proof {
            assert(final(out)@ =~= old(out)@ + http_params_suffix(v@, name@, sname@));
        }
    }
}

/// Append the request-body expression of a plain binding.
fn push_http_body_expr(out: &mut Vec<char>, v: &RequestInfo, name: &Vec<char>)
    ensures
        final(out)@ == old(out)@ + http_body_expr(v@, name@),
{
    match &v.req_body {
        Kind::Absent => push_str_chars(out, "null"),
        Kind::Any => push_str_chars(out, "req"),
        Kind::Schema(_) => {
            push_str_chars(out, "JSON.stringify(");
            push_chars(out, name);
            push_str_chars(out, "ReqSchema.parse(req))");
            proof {
                assert(final(out)@ =~= old(out)@ + http_body_expr(v@, name@));
            }
        },
        _ => {},
    }
}

/// Append the response handler of a plain binding.
fn push_http_res_handler(out: &mut Vec<char>, v: &RequestInfo, name: &Vec<char>, sname: &Vec<char>)
    ensures
        final(out)@ == old(out)@ + http_res_handler(v@, name@, sname@),
{
    match &v.res_body {
        Kind::Absent => push_str_chars(out, ".then(res => res.ok ? ok(res) : err(res))"),
        Kind::Any => push_str_chars(out, ".then(res => res.ok ? res.text().then(ok) : err(res))"),
        Kind::Schema(_) => {
            push_str_chars(
                out,
                ".then(res => res.ok ? res.json().then(options.unsafe ? (data) => (data as ",
            );
            push_chars(out, sname);
            push_str_chars(out, "Res) : ");
            push_chars(out, name);
            push_str_chars(out, "ResSchema.parse).then(ok) : err(res))");
            proof {
                assert(final(out)@ =~= old(out)@ + http_res_handler(v@, name@, sname@));
            }
        },
        _ => {},
    }
}

/// Append the content-type header line, if any.
fn push_http_headers(out: &mut Vec<char>, v: &RequestInfo)
    ensures
        final(out)@ == old(out)@ + http_headers(v@),
{
    if v.req_body.is_schema() {
        push_str_chars(
            out,
            "\nheaders: jsonContentTypeHeader(init.headers as RepresentsHeader, options.globalInit.headers as RepresentsHeader),",
        );
    }
}

/// Append the callable binding of a plain request/response route.
#[verifier::rlimit(100)]
pub fn push_http_fn(out: &mut Vec<char>, v: &RequestInfo, name: &Vec<char>, sname: &Vec<char>)
    ensures
        final(out)@ == old(out)@ + http_fn(v@, name@, sname@),
{
    push_str_chars(out, "    export function ");
    push_chars(out, name);
    push_str_chars(out, "(");
    push_body_arg(out, v, sname);
    push_params_arg(out, v, sname);
    push_str_chars(out, "init: RequestInit = {}): PromiseWrapper<");
    push_http_res_name(out, v, sname);
    push_str_chars(
        out,
        "> {\n        return new PromiseWrapper(\n            options.fetch(\n                new Request(\n                    options.baseUrl + '",
    );
    push_str_chars(out, v.path.as_str());
    push_str_chars(out, "'");
    push_http_params_suffix(out, v, name, sname);
    proof {
        assert(out@ =~= old(out)@ + "    export function "@ + name@ + "("@ + body_arg(v@, sname@)
            + params_arg(v@, sname@) + "init: RequestInit = {}): PromiseWrapper<"@ + http_res_name(
            v@,
            sname@,
        )
            + "> {\n        return new PromiseWrapper(\n            options.fetch(\n                new Request(\n                    options.baseUrl + '"@
            + v.path@ + "'"@ + http_params_suffix(v@, name@, sname@));
    }
    push_str_chars(out, ",\n                    {\n                        method: '");
    push_str_chars(out, v.method.as_str());
    push_str_chars(out, "',\n                        body: ");
    push_http_body_expr(out, v, name);
    push_str_chars(
        out,
        ",\n                        credentials: 'include',\n                        ...options.globalInit,\n                        ...init,",
    );
    push_http_headers(out, v);
    push_str_chars(out, "\n                    }\n                )\n            )");
    push_http_res_handler(out, v, name, sname);
    push_str_chars(out, "\n        )\n    }\n");
    proof {
        assert(final(out)@ =~= old(out)@ + http_fn(v@, name@, sname@));
    }
}

/// The whole source fragment of one route: slot sections, deprecation
/// marker, error-code doc block, then the callable binding of its
/// transport shape. `pv`, `bv`, `rv1` and `rv2` are the transpiled
/// validator sources of the populated schema slots (params, body, and the
/// one or two response shapes); unused ones are ignored.
pub open spec fn fragment_of(
    r: RouteView,
    pv: Seq<char>,
    bv: Seq<char>,
    rv1: Seq<char>,
    rv2: Seq<char>,
) -> Seq<char> {
    let name = route_name(r);
    let sname = route_type_name(r);
    params_section(r.req_params, name, sname, pv) + body_section(r.req_body, name, sname, bv)
        + res_section(r.res_body, name, sname, rv1, rv2) + dep_section(r.deprecated)
        + comment_section(r.error_codes) + (if r.res_body is SSE {
        sse_fn(r, name, sname)
    } else if r.res_body is Websocket {
        ws_fn(r, name, sname)
    } else {
        http_fn(r, name, sname)
    })
}

/// Emit the whole source fragment of one route.
pub fn emit_fragment(
    v: &RequestInfo,
    name: &Vec<char>,
    sname: &Vec<char>,
    pv: &Vec<char>,
    bv: &Vec<char>,
    rv1: &Vec<char>,
    rv2: &Vec<char>,
) -> (r: Vec<char>)
    requires
        name@ == route_name(v@),
        sname@ == route_type_name(v@),
    ensures
        r@ == fragment_of(v@, pv@, bv@, rv1@, rv2@),
{
    let mut out: Vec<char> = Vec::new();
    push_params_section(&mut out, &v.req_params, name, sname, pv);
    push_body_section(&mut out, &v.req_body, name, sname, bv);
    push_res_section(&mut out, &v.res_body, name, sname, rv1, rv2);
    push_dep_section(&mut out, &v.deprecated);
    push_comment_section(&mut out, &v.error_codes);
    if v.res_body.is_sse() {
        push_sse_fn(&mut out, v, name, sname);
    } else if v.res_body.is_websocket() {
        push_ws_fn(&mut out, v, name, sname);
    } else {
        push_http_fn(&mut out, v, name, sname);
    }
    proof {
        assert(out@ =~= fragment_of(v@, pv@, bv@, rv1@, rv2@));
    }
    out
}

/// A superseded route's deprecation marker embeds the replacement's
/// resolved identifier — not its raw path: the marker is the fixed prefix,
/// then the identifier resolved from the stored (path, method, namespace)
/// reference, then the closing text, and the identifier stands verbatim at
/// the prefix's end.
pub proof fn lemma_superseded_reference(
    path: Seq<char>,
    method: crate::method::Method,
    tag: Seq<char>,
)
    ensures
        ({
            let marker = dep_section(DeprecatedView::WithInfo(path, method, tag));
            let pre = "    /** @deprecated Please use {@link "@;
            let nm = name_raw_of(method_str(method), path, tag);
            marker == pre + nm + "} instead */\n"@ && marker.subrange(
                pre.len() as int,
                pre.len() + nm.len() as int,
            ) == nm
        }),
{
    let marker = dep_section(DeprecatedView::WithInfo(path, method, tag));
    let pre = "    /** @deprecated Please use {@link "@;
    let nm = name_raw_of(method_str(method), path, tag);
    assert(marker.subrange(pre.len() as int, pre.len() + nm.len() as int) =~= nm);
}

/// Error-code rendering: a route with documented error codes emits one doc
/// block listing a `code: description` entry per code, in insertion order;
/// a route without any emits no block at all.
pub proof fn lemma_error_codes(errors: Seq<(u16, Seq<char>)>)
    ensures
        errors.len() == 0 ==> comment_section(errors) == Seq::<char>::empty(),
        errors.len() > 0 ==> comment_section(errors)
            == "    /**\n     * Error responses:\n     *\n     * "@ + joined(
            errors.map_values(|e: (u16, Seq<char>)| error_entry(e)),
            "\n     *\n     * "@,
        ) + "\n     */\n"@,
        forall|i: int|
            0 <= i < errors.len() ==> errors.map_values(|e: (u16, Seq<char>)| error_entry(e))[i]
                == dec_str(errors[i].0 as nat) + ": "@ + errors[i].1,
{
}

} // verus!
