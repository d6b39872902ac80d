//! The namespace assembler and the generator entry point.
//!
//! Emitted route fragments are grouped by namespace tag — group keys in
//! lexicographic order, fragments inside a group in route-set insertion
//! order — each group is wrapped in a namespace block (reserved tags
//! escaped), and the blocks follow a fixed preamble plus the channel- and
//! stream-support blocks, included only when some route needs them.

use vstd::prelude::*;

use crate::emit::fragment_of;
use crate::jobs::jobs_from;
use crate::jobs::jobs_of;
use crate::jobs::jobs_offset;
use crate::keywords::escaped_tag;
use crate::strutil::chars_to_string;
use crate::strutil::lex_lt;
use crate::strutil::push_chars;
use crate::strutil::push_str_chars;
use crate::types::Kind;
use crate::types::KindView;
use crate::types::Requests;
use crate::types::RouteView;
use crate::types::Slot;
use crate::types::kind_wf_request;

verus! {

/// The fixed base block of the generated module: runtime options, header
/// and query-string helpers, and the ok/err result wrapper every plain
/// binding returns.
pub const BASE_CLIENT: &'static str = "export const options = {\n    baseUrl: '',\n    fetch: (req: Request) => fetch(req),\n    globalInit: {} as RequestInit,\n    unsafe: false,\n}\n\nexport type RepresentsHeader = Headers | string[][] | Record<string, string> | undefined\n\nexport function jsonContentTypeHeader(init: RepresentsHeader, global: RepresentsHeader) {\n    const headers = new Headers(global)\n    new Headers(init).forEach((value, key) => headers.set(key, value))\n    headers.set('Content-Type', 'application/json')\n    return headers\n}\n\nexport function makeQuery(params: Record<string, unknown>) {\n    const query = new URLSearchParams()\n    for (const [key, value] of Object.entries(params)) {\n        if (value !== undefined && value !== null) query.append(key, String(value))\n    }\n    const text = query.toString()\n    return text === '' ? '' : '?' + text\n}\n\nexport function ok<T>(data: T) {\n    return { ok: true as const, data }\n}\n\nexport function err(response: Response) {\n    return { ok: false as const, response }\n}\n\nexport class PromiseWrapper<T> {\n    constructor(public promise: Promise<unknown>) {}\n\n    async unwrap(): Promise<T> {\n        const res = await this.promise as { ok: boolean, data: T, response: Response }\n        if (res.ok) return res.data\n        throw res.response\n    }\n}\n";

/// The channel-support block, included only when some route declares a
/// channel response.
pub const BASE_WEBSOCKET: &'static str = "\nexport class WebsocketWrapper<ClientMsg, ServerMsg> {\n    private socket: WebSocket\n\n    constructor(\n        connect: () => WebSocket,\n        private encode: (data: ClientMsg) => ClientMsg,\n        private decode: (data: unknown) => ServerMsg,\n    ) {\n        this.socket = connect()\n    }\n\n    send(message: ClientMsg) {\n        this.socket.send(JSON.stringify(this.encode(message)))\n    }\n\n    onMessage(handler: (message: ServerMsg) => void) {\n        this.socket.addEventListener('message', (event) => handler(this.decode(JSON.parse(event.data))))\n    }\n\n    close() {\n        this.socket.close()\n    }\n}\n";

/// The stream-support block, included only when some route declares a
/// server-push stream response.
pub const BASE_SSE: &'static str = "\nexport class SSE<Msg> {\n    private source: EventSource\n\n    constructor(connect: () => EventSource, private decode: (data: unknown) => Msg) {\n        this.source = connect()\n    }\n\n    onMessage(handler: (message: Msg) => void) {\n        this.source.addEventListener('message', (event) => handler(this.decode(JSON.parse(event.data))))\n    }\n\n    close() {\n        this.source.close()\n    }\n}\n";

/// One namespace group under construction: its tag and the fragments of
/// its routes, in insertion order.
pub open spec fn insert_group(
    gs: Seq<(Seq<char>, Seq<Seq<char>>)>,
    tag: Seq<char>,
    frag: Seq<char>,
) -> Seq<(Seq<char>, Seq<Seq<char>>)>
    decreases gs.len(),
{
    if gs.len() == 0 {
        seq![(tag, seq![frag])]
    } else if gs[0].0 == tag {
        seq![(gs[0].0, gs[0].1.push(frag))] + gs.drop_first()
    } else if lex_lt(tag, gs[0].0) {
        seq![(tag, seq![frag])] + gs
    } else {
        seq![gs[0]] + insert_group(gs.drop_first(), tag, frag)
    }
}

/// The group keys, in order.
pub open spec fn group_keys(gs: Seq<(Seq<char>, Seq<Seq<char>>)>) -> Seq<Seq<char>> {
    gs.map_values(|g: (Seq<char>, Seq<Seq<char>>)| g.0)
}

/// Group keys strictly ascend in lexicographic order.
pub open spec fn keys_sorted(gs: Seq<(Seq<char>, Seq<Seq<char>>)>) -> bool {
    forall|i: int, j: int| 0 <= i < j < gs.len() ==> lex_lt(gs[i].0, gs[j].0)
}

/// The fragments filed under `tag`, or the empty sequence if no group
/// carries it.
pub open spec fn frags_of(gs: Seq<(Seq<char>, Seq<Seq<char>>)>, tag: Seq<char>) -> Seq<Seq<char>>
    decreases gs.len(),
{
    if gs.len() == 0 {
        Seq::empty()
    } else if gs[0].0 == tag {
        gs[0].1
    } else {
        frags_of(gs.drop_first(), tag)
    }
}

/// Inserting keeps the keys strictly sorted.
pub proof fn lemma_insert_sorted(
    gs: Seq<(Seq<char>, Seq<Seq<char>>)>,
    tag: Seq<char>,
    frag: Seq<char>,
)
    requires
        keys_sorted(gs),
    ensures
        keys_sorted(insert_group(gs, tag, frag)),
    decreases gs.len(),
{
    let r = insert_group(gs, tag, frag);
    if gs.len() == 0 {
    } else if gs[0].0 == tag {
        assert forall|i: int, j: int| 0 <= i < j < r.len() implies lex_lt(r[i].0, r[j].0) by {
            assert(r[i].0 == gs[i].0);
            assert(r[j].0 == gs[j].0);
        }
    } else if lex_lt(tag, gs[0].0) {
        assert forall|i: int, j: int| 0 <= i < j < r.len() implies lex_lt(r[i].0, r[j].0) by {
            if i == 0 {
                assert(r[j].0 == gs[j - 1].0);
                if j > 1 {
                    crate::strutil::lemma_lex_transitive(tag, gs[0].0, gs[j - 1].0);
                }
            } else {
                assert(r[i].0 == gs[i - 1].0);
                assert(r[j].0 == gs[j - 1].0);
            }
        }
    } else {
        crate::strutil::lemma_lex_total(tag, gs[0].0);
        assert(lex_lt(gs[0].0, tag));
        lemma_insert_sorted(gs.drop_first(), tag, frag);
        let rest = insert_group(gs.drop_first(), tag, frag);
        lemma_insert_first_key(gs.drop_first(), tag, frag);
        assert forall|i: int, j: int| 0 <= i < j < r.len() implies lex_lt(r[i].0, r[j].0) by {
            if i == 0 {
                assert(r[j].0 == rest[j - 1].0);
                if rest[j - 1].0 == tag {
                } else {
                    lemma_insert_old_key(gs.drop_first(), tag, frag, j - 1);
                }
            } else {
                assert(r[i].0 == rest[i - 1].0);
                assert(r[j].0 == rest[j - 1].0);
            }
        }
    }
}

/// Every key of the inserted list is the new tag or one of the old keys.
proof fn lemma_insert_old_key(
    gs: Seq<(Seq<char>, Seq<Seq<char>>)>,
    tag: Seq<char>,
    frag: Seq<char>,
    i: int,
)
    requires
        0 <= i < insert_group(gs, tag, frag).len(),
        insert_group(gs, tag, frag)[i].0 != tag,
    ensures
        group_keys(gs).contains(insert_group(gs, tag, frag)[i].0),
    decreases gs.len(),
{
    let r = insert_group(gs, tag, frag);
    if gs.len() == 0 {
    } else if gs[0].0 == tag {
        if i == 0 {
        } else {
            assert(r[i].0 == gs[i].0);
            assert(group_keys(gs)[i] == gs[i].0);
        }
    } else if lex_lt(tag, gs[0].0) {
        assert(r[i].0 == gs[i - 1].0);
        assert(group_keys(gs)[i - 1] == gs[i - 1].0);
    } else {
        if i == 0 {
            assert(group_keys(gs)[0] == gs[0].0);
        } else {
            lemma_insert_old_key(gs.drop_first(), tag, frag, i - 1);
            let k = choose|k: int|
                0 <= k < group_keys(gs.drop_first()).len() && group_keys(gs.drop_first())[k]
                    == insert_group(gs.drop_first(), tag, frag)[i - 1].0;
            assert(group_keys(gs)[k + 1] == group_keys(gs.drop_first())[k]);
        }
    }
}

/// The first key after insertion is the new tag or the old first key.
proof fn lemma_insert_first_key(
    gs: Seq<(Seq<char>, Seq<Seq<char>>)>,
    tag: Seq<char>,
    frag: Seq<char>,
)
    ensures
        insert_group(gs, tag, frag).len() > 0,
        insert_group(gs, tag, frag)[0].0 == tag || (gs.len() > 0 && insert_group(gs, tag, frag)[0].0
            == gs[0].0),
{
}

/// Inserting a fragment appends it to its tag's group and leaves every
/// other group unchanged.
pub proof fn lemma_insert_frags(
    gs: Seq<(Seq<char>, Seq<Seq<char>>)>,
    tag: Seq<char>,
    frag: Seq<char>,
    t: Seq<char>,
)
    requires
        keys_sorted(gs),
    ensures
        t == tag ==> frags_of(insert_group(gs, tag, frag), t) == frags_of(gs, t).push(frag),
        t != tag ==> frags_of(insert_group(gs, tag, frag), t) == frags_of(gs, t),
    decreases gs.len(),
{
    let r = insert_group(gs, tag, frag);
    if gs.len() == 0 {
        if t == tag {
            assert(frags_of(gs, t) =~= Seq::<Seq<char>>::empty());
            assert(frags_of(r, t) == seq![frag]);
            assert(frags_of(gs, t).push(frag) =~= seq![frag]);
        } else {
            assert(r.drop_first() =~= Seq::<(Seq<char>, Seq<Seq<char>>)>::empty());
            assert(r[0].0 == tag);
            assert(frags_of(r, t) == frags_of(r.drop_first(), t));
            assert(frags_of(r.drop_first(), t) =~~= Seq::<Seq<char>>::empty());
            assert(frags_of(gs, t) =~~= Seq::<Seq<char>>::empty());
        }
    } else if gs[0].0 == tag {
        assert(r.drop_first() =~= gs.drop_first());
        if t == tag {
            assert(frags_of(r, t) == r[0].1);
            assert(frags_of(gs, t) == gs[0].1);
        } else {
            assert(frags_of(r, t) == frags_of(r.drop_first(), t));
            assert(frags_of(gs, t) == frags_of(gs.drop_first(), t));
        }
    } else if lex_lt(tag, gs[0].0) {
        assert(r.drop_first() =~= gs);
        if t == tag {
            crate::strutil::lemma_lex_irrefl(tag);
            lemma_sorted_frags_absent(gs, tag);
            assert(frags_of(gs, t) =~= Seq::<Seq<char>>::empty());
            assert(frags_of(r, t) == r[0].1);
            assert(r[0].1 =~= frags_of(gs, t).push(frag));
        } else {
            assert(frags_of(r, t) == frags_of(r.drop_first(), t));
        }
    } else {
        assert(r.drop_first() =~= insert_group(gs.drop_first(), tag, frag));
        assert(keys_sorted(gs.drop_first())) by {
            assert forall|i: int, j: int|
                0 <= i < j < gs.drop_first().len() implies lex_lt(
                gs.drop_first()[i].0,
                gs.drop_first()[j].0,
            ) by {
                assert(gs.drop_first()[i].0 == gs[i + 1].0);
                assert(gs.drop_first()[j].0 == gs[j + 1].0);
            }
        }
        lemma_insert_frags(gs.drop_first(), tag, frag, t);
        crate::strutil::lemma_lex_total(tag, gs[0].0);
        assert(r[0] == gs[0]);
        if gs[0].0 == t {
            assert(frags_of(r, t) == r[0].1);
            assert(frags_of(gs, t) == gs[0].1);
        } else {
            assert(frags_of(r, t) == frags_of(r.drop_first(), t));
            assert(frags_of(gs, t) == frags_of(gs.drop_first(), t));
            assert(frags_of(r.drop_first(), t) =~~= frags_of(insert_group(gs.drop_first(), tag, frag), t));
        }
    }
    if t == tag {
        assert(frags_of(insert_group(gs, tag, frag), t) =~~= frags_of(gs, t).push(frag));
    } else {
        assert(frags_of(insert_group(gs, tag, frag), t) =~~= frags_of(gs, t));
    }
}

/// A tag lexicographically below every key has no group: in a sorted list,
/// a tag below the first key is absent.
proof fn lemma_sorted_frags_absent(gs: Seq<(Seq<char>, Seq<Seq<char>>)>, tag: Seq<char>)
    requires
        keys_sorted(gs),
        gs.len() > 0,
        lex_lt(tag, gs[0].0),
    ensures
        frags_of(gs, tag) == Seq::<Seq<char>>::empty(),
    decreases gs.len(),
{
    if gs[0].0 == tag {
        crate::strutil::lemma_lex_irrefl(tag);
    }
    assert(gs[0].0 != tag);
    assert(frags_of(gs, tag) == frags_of(gs.drop_first(), tag));
    if gs.len() > 1 {
        assert(keys_sorted(gs.drop_first())) by {
            assert forall|i: int, j: int|
                0 <= i < j < gs.drop_first().len() implies lex_lt(
                gs.drop_first()[i].0,
                gs.drop_first()[j].0,
            ) by {
                assert(gs.drop_first()[i].0 == gs[i + 1].0);
                assert(gs.drop_first()[j].0 == gs[j + 1].0);
            }
        }
        crate::strutil::lemma_lex_transitive(tag, gs[0].0, gs[1].0);
        lemma_sorted_frags_absent(gs.drop_first(), tag);
    } else {
        assert(gs.drop_first().len() == 0);
    }
}

/// The views of the groups under construction.
pub open spec fn groups_view(gs: Seq<(Vec<char>, Vec<Vec<char>>)>) -> Seq<
    (Seq<char>, Seq<Seq<char>>),
> {
    gs.map_values(
        |g: (Vec<char>, Vec<Vec<char>>)| (g.0@, g.1@.map_values(|f: Vec<char>| f@)),
    )
}

/// File `frag` under `tag`, keeping group keys sorted and fragments in
/// arrival order.
fn insert_group_exec(gs: Vec<(Vec<char>, Vec<Vec<char>>)>, tag: Vec<char>, frag: Vec<char>) -> (r:
    Vec<(Vec<char>, Vec<Vec<char>>)>)
    ensures
        groups_view(r@) == insert_group(groups_view(gs@), tag@, frag@),
    decreases gs@.len(),
{
    let mut gs = gs;
    if gs.len() == 0 {
        let mut frags: Vec<Vec<char>> = Vec::new();
        frags.push(frag);
        let mut r: Vec<(Vec<char>, Vec<Vec<char>>)> = Vec::new();
        r.push((tag, frags));
        proof {
            assert(groups_view(r@) =~~= insert_group(groups_view(gs@), tag@, frag@));
        }
        r
    } else {
        let ghost gv = groups_view(gs@);
        let mut head = gs.remove(0);
        let ghost tailv = groups_view(gs@);
        proof {
            assert(tailv =~~= gv.drop_first());
            assert(gv[0] == (head.0@, head.1@.map_values(|f: Vec<char>| f@)));
        }
        if crate::strutil::chars_eq(&head.0, &tag) {
            head.1.push(frag);
            gs.insert(0, head);
            proof {
                assert(groups_view(gs@) =~~= insert_group(gv, tag@, frag@));
            }
            gs
        } else if crate::strutil::chars_lt(&tag, &head.0) {
            gs.insert(0, head);
            let mut frags: Vec<Vec<char>> = Vec::new();
            frags.push(frag);
            gs.insert(0, (tag, frags));
            proof {
                assert(groups_view(gs@) =~~= insert_group(gv, tag@, frag@));
            }
            gs
        } else {
            let mut rest = insert_group_exec(gs, tag, frag);
            rest.insert(0, head);
            proof {
                assert(groups_view(rest@) =~~= insert_group(gv, tag@, frag@));
            }
            rest
        }
    }
}

/// Whether some route declares a channel response.
pub open spec fn any_websocket(rs: Seq<RouteView>) -> bool {
    exists|i: int| 0 <= i < rs.len() && rs[i].res_body is Websocket
}

/// Whether some route declares a server-push stream response.
pub open spec fn any_sse_route(rs: Seq<RouteView>) -> bool {
    exists|i: int| 0 <= i < rs.len() && rs[i].res_body is SSE
}

/// The fixed module head: the import, the root namespace, the base block,
/// and the channel- and stream-support blocks when needed.
pub open spec fn header_of(ws: bool, sse: bool) -> Seq<char> {
    "import { z } from 'zod';\n\nexport namespace client {\n\n"@ + BASE_CLIENT@ + (if ws {
        BASE_WEBSOCKET@
    } else {
        Seq::empty()
    }) + (if sse {
        BASE_SSE@
    } else {
        Seq::empty()
    }) + "\n"@
}

/// One namespace block: the escaped tag and the group's fragments joined
/// by blank-line-free separators.
pub open spec fn group_block(tag: Seq<char>, frags: Seq<Seq<char>>) -> Seq<char> {
    "export namespace "@ + escaped_tag(tag) + " {\n"@ + crate::emit::joined(frags, "\n"@) + "\n}"@
}

/// All namespace blocks, in sorted key order, separated by blank lines.
pub open spec fn groups_text(gs: Seq<(Seq<char>, Seq<Seq<char>>)>) -> Seq<char> {
    crate::emit::joined(
        gs.map_values(|g: (Seq<char>, Seq<Seq<char>>)| group_block(g.0, g.1)),
        "\n\n"@,
    )
}

/// The validator sources of one route, picked positionally out of the
/// job-aligned results starting at offset `off`: params, body, and the one
/// or two response shapes; absent slots give empty placeholders.
pub open spec fn route_vals(r: RouteView, vals: Seq<Seq<char>>, off: int) -> (
    Seq<char>,
    Seq<char>,
    Seq<char>,
    Seq<char>,
) {
    let np: int = if r.req_params is Schema {
        1
    } else {
        0
    };
    let nb: int = if r.req_body is Schema {
        1
    } else {
        0
    };
    (
        if r.req_params is Schema {
            vals[off]
        } else {
            Seq::empty()
        },
        if r.req_body is Schema {
            vals[off + np]
        } else {
            Seq::empty()
        },
        match r.res_body {
            KindView::Schema(_) => vals[off + np + nb],
            KindView::Websocket { .. } => vals[off + np + nb],
            KindView::SSE(_) => vals[off + np + nb],
            _ => Seq::empty(),
        },
        if r.res_body is Websocket {
            vals[off + np + nb + 1]
        } else {
            Seq::empty()
        },
    )
}

/// The fragment of route `i`, rendered from its own validator sources.
pub open spec fn fragment_at(rs: Seq<RouteView>, vals: Seq<Seq<char>>, i: int) -> Seq<char> {
    let v4 = route_vals(rs[i], vals, jobs_offset(rs, i));
    fragment_of(rs[i], v4.0, v4.1, v4.2, v4.3)
}

/// The namespace groups after filing the first `i` routes.
pub open spec fn groups_upto(rs: Seq<RouteView>, vals: Seq<Seq<char>>, i: int) -> Seq<
    (Seq<char>, Seq<Seq<char>>),
>
    decreases i,
{
    if i <= 0 {
        Seq::empty()
    } else {
        insert_group(groups_upto(rs, vals, i - 1), rs[i - 1].tag, fragment_at(rs, vals, i - 1))
    }
}

/// The whole generated module: head, namespace blocks, closing brace.
pub open spec fn module_text(rs: Seq<RouteView>, vals: Seq<Seq<char>>) -> Seq<char> {
    header_of(any_websocket(rs), any_sse_route(rs)) + groups_text(
        groups_upto(rs, vals, rs.len() as int),
    ) + "}"@
}

/// A route set the generator accepts: request-direction slots hold no
/// streaming kind (those belong to the response slot alone).
pub open spec fn reqs_wf(rs: Seq<RouteView>) -> bool {
    forall|i: int|
        0 <= i < rs.len() ==> kind_wf_request(#[trigger] rs[i].req_params) && kind_wf_request(
            rs[i].req_body,
        )
}

/// Why a generation run failed.
#[derive(Debug, Clone)]
pub enum GenError {
    /// The external transpiler failed on the named slot of the named
    /// route, identified so the caller can locate the bad schema.
    Transpile { name: String, slot: Slot },
}

/// The mathematical shape of a [`GenError`].
#[verifier::ext_equal]
pub enum GenErrorView {
    Transpile { name: Seq<char>, slot: Slot },
}

impl View for GenError {
    type V = GenErrorView;

    open spec fn view(&self) -> GenErrorView {
        match self {
            GenError::Transpile { name, slot } => GenErrorView::Transpile {
                name: name@,
                slot: *slot,
            },
        }
    }
}

/// The views of the optional transpilation results.
pub open spec fn vals_view(vs: Seq<Option<String>>) -> Seq<Option<Seq<char>>> {
    vs.map_values(
        |o: Option<String>|
            match o {
                Option::Some(s) => Option::Some(s@),
                Option::None => Option::None,
            },
    )
}

/// Whether every transpilation succeeded.
pub open spec fn all_some(vs: Seq<Option<Seq<char>>>) -> bool {
    forall|j: int| 0 <= j < vs.len() ==> (#[trigger] vs[j]) is Some
}

/// Each result's text, with empty placeholders for failures.
pub open spec fn unwrap_all(vs: Seq<Option<Seq<char>>>) -> Seq<Seq<char>> {
    vs.map_values(
        |o: Option<Seq<char>>|
            match o {
                Option::Some(s) => s,
                Option::None => Seq::<char>::empty(),
            },
    )
}

/// The position of the first failed transpilation.
pub open spec fn first_none(vs: Seq<Option<Seq<char>>>) -> int
    decreases vs.len(),
{
    if vs.len() == 0 {
        0
    } else if vs[0] is None {
        0
    } else {
        1 + first_none(vs.drop_first())
    }
}

/// A position whose predecessors all succeeded and which itself failed is
/// the first failure.
pub proof fn lemma_first_none_is(vs: Seq<Option<Seq<char>>>, k: int)
    requires
        0 <= k < vs.len(),
        vs[k] is None,
        forall|j: int| 0 <= j < k ==> (#[trigger] vs[j]) is Some,
    ensures
        first_none(vs) == k,
    decreases k,
{
    if k == 0 {
    } else {
        assert(vs[0] is Some);
        assert(vs.drop_first()[k - 1] is None);
        assert forall|j: int| 0 <= j < k - 1 implies (#[trigger] vs.drop_first()[j]) is Some by {
            assert(vs.drop_first()[j] == vs[j + 1]);
        }
        lemma_first_none_is(vs.drop_first(), k - 1);
    }
}

/// Append one namespace block to `out`.
fn push_group_block(out: &mut Vec<char>, g: &(Vec<char>, Vec<Vec<char>>))
    ensures
        final(out)@ == old(out)@ + group_block(g.0@, g.1@.map_values(|f: Vec<char>| f@)),
{
    let ghost frags = g.1@.map_values(|f: Vec<char>| f@);
    push_str_chars(out, "export namespace ");
    let etag = crate::keywords::escape_tag(&g.0);
    push_chars(out, &etag);
    push_str_chars(out, " {\n");
    let ghost head = out@;
    let n: usize = g.1.len();
    if n > 0 {
        push_chars(out, &g.1[0]);
        proof {
            assert(frags.take(1) =~= seq![frags[0]]);
            assert(crate::emit::joined(frags.take(1), "\n"@) == frags[0]);
            assert(out@ =~= head + crate::emit::joined(frags.take(1), "\n"@));
        }
        let mut i: usize = 1;
        while i < n
            invariant
                1 <= i <= n,
                n == g.1@.len(),
                frags == g.1@.map_values(|f: Vec<char>| f@),
                out@ == head + crate::emit::joined(frags.take(i as int), "\n"@),
            decreases n - i,
        {
            push_str_chars(out, "\n");
            push_chars(out, &g.1[i]);
            proof {
                crate::emit::lemma_joined_push(frags.take(i as int), "\n"@, frags[i as int]);
                assert(frags.take(i + 1 as int) =~= frags.take(i as int).push(frags[i as int]));
                assert(out@ =~= head + crate::emit::joined(frags.take(i + 1 as int), "\n"@));
            }
            i += 1;
        }
    }
    push_str_chars(out, "\n}");
    proof {
        assert(frags.take(n as int) =~= frags);
        if n == 0 {
            assert(crate::emit::joined(frags, "\n"@) == Seq::<char>::empty());
        }
        assert(final(out)@ =~= old(out)@ + group_block(g.0@, frags));
    }
}

/// Append every namespace block, blank lines between them.
fn push_groups_text(out: &mut Vec<char>, gs: &Vec<(Vec<char>, Vec<Vec<char>>)>)
    ensures
        final(out)@ == old(out)@ + groups_text(groups_view(gs@)),
{
    let ghost blocks = groups_view(gs@).map_values(
        |g: (Seq<char>, Seq<Seq<char>>)| group_block(g.0, g.1),
    );
    let ghost head = out@;
    let n: usize = gs.len();
    if n == 0 {
        proof {
            assert(final(out)@ =~= old(out)@ + groups_text(groups_view(gs@)));
        }
        return ;
    }
    push_group_block(out, &gs[0]);
    proof {
        assert(blocks[0] == group_block(groups_view(gs@)[0].0, groups_view(gs@)[0].1));
        assert(blocks.take(1) =~= seq![blocks[0]]);
        assert(crate::emit::joined(blocks.take(1), "\n\n"@) == blocks[0]);
        assert(out@ =~= head + crate::emit::joined(blocks.take(1), "\n\n"@));
    }
    let mut i: usize = 1;
    while i < n
        invariant
            1 <= i <= n,
            n == gs@.len(),
            blocks == groups_view(gs@).map_values(
                |g: (Seq<char>, Seq<Seq<char>>)| group_block(g.0, g.1),
            ),
            out@ == head + crate::emit::joined(blocks.take(i as int), "\n\n"@),
        decreases n - i,
    {
        push_str_chars(out, "\n\n");
        push_group_block(out, &gs[i]);
        proof {
            assert(blocks[i as int] == group_block(
                groups_view(gs@)[i as int].0,
                groups_view(gs@)[i as int].1,
            ));
            crate::emit::lemma_joined_push(blocks.take(i as int), "\n\n"@, blocks[i as int]);
            assert(blocks.take(i + 1 as int) =~= blocks.take(i as int).push(blocks[i as int]));
            assert(out@ =~= head + crate::emit::joined(blocks.take(i + 1 as int), "\n\n"@));
        }
        i += 1;
    }
    proof {
        assert(blocks.take(n as int) =~= blocks);
        assert(final(out)@ =~= old(out)@ + groups_text(groups_view(gs@)));
    }
}

/// A failed transpilation at relative position `k` of route `i`'s jobs,
/// with all earlier jobs succeeded, is the first failure overall, and the
/// job found there is route `i`'s own.
proof fn lemma_err_shape(rs: Seq<RouteView>, vv: Seq<Option<Seq<char>>>, i: int, k: int)
    requires
        0 <= i < rs.len(),
        0 <= k < crate::jobs::route_njobs(rs[i]),
        vv.len() == jobs_of(rs).len(),
        vv[jobs_offset(rs, i) + k] is None,
        forall|j: int| 0 <= j < jobs_offset(rs, i) + k ==> (#[trigger] vv[j]) is Some,
    ensures
        !all_some(vv),
        first_none(vv) == jobs_offset(rs, i) + k,
        jobs_of(rs)[first_none(vv)] == crate::jobs::route_jobs(i, rs[i])[k],
{
    crate::jobs::lemma_jobs_from_len(rs, i);
    crate::jobs::lemma_jobs_of_slice(rs, i, k);
    assert(0 <= jobs_offset(rs, i));
    assert(jobs_offset(rs, i) + k < vv.len());
    lemma_first_none_is(vv, jobs_offset(rs, i) + k);
    assert(vv[first_none(vv)] is None);
    assert(!all_some(vv));
}

/// Generate the whole client module for `reqs`.
///
/// `validators` holds one entry per job of [`crate::jobs::transpile_jobs`],
/// in job order: the transpiled validator source on success, `None` where
/// the external transpiler failed. On success the complete module text is
/// returned (ready to be handed to an external formatter); on the first
/// failed transpilation, generation aborts with an error naming the
/// offending route's resolved identifier and slot. No partial output is
/// ever produced.
#[verifier::rlimit(100)]
pub fn generate(reqs: &Requests, validators: &Vec<Option<String>>) -> (r: Result<String, GenError>)
    requires
        reqs_wf(reqs@),
        validators@.len() == jobs_of(reqs@).len(),
    ensures
        all_some(vals_view(validators@)) ==> (r matches Ok(s) && s@ == module_text(
            reqs@,
            unwrap_all(vals_view(validators@)),
        )),
        !all_some(vals_view(validators@)) ==> (r matches Err(e) && ({
            let k = first_none(vals_view(validators@));
            e@ == (GenErrorView::Transpile {
                name: crate::name::route_name(reqs@[jobs_of(reqs@)[k].route]),
                slot: jobs_of(reqs@)[k].slot,
            })
        })),
{
    let n: usize = reqs.requests.len();
    let mut has_ws: bool = false;
    let mut has_sse: bool = false;
    let mut i: usize = 0;
    while i < n
        invariant
            i <= n,
            n == reqs@.len(),
            n == reqs.requests@.len(),
            has_ws == exists|j: int| 0 <= j < i && (#[trigger] reqs@[j].res_body) is Websocket,
            has_sse == exists|j: int| 0 <= j < i && (#[trigger] reqs@[j].res_body) is SSE,
        decreases n - i,
    {
        proof {
            assert(reqs@[i as int] == reqs.requests@[i as int]@);
        }
        if reqs.requests[i].res_body.is_websocket() {
            has_ws = true;
        }
        if reqs.requests[i].res_body.is_sse() {
            has_sse = true;
        }
        i += 1;
    }
    proof {
        assert(has_ws == any_websocket(reqs@));
        assert(has_sse == any_sse_route(reqs@));
    }

    let mut out: Vec<char> = Vec::new();
    push_str_chars(&mut out, "import { z } from 'zod';\n\nexport namespace client {\n\n");
    push_str_chars(&mut out, BASE_CLIENT);
    if has_ws {
        push_str_chars(&mut out, BASE_WEBSOCKET);
    }
    if has_sse {
        push_str_chars(&mut out, BASE_SSE);
    }
    push_str_chars(&mut out, "\n");
    proof {
        assert(out@ =~= header_of(any_websocket(reqs@), any_sse_route(reqs@)));
    }

    let ghost vv = vals_view(validators@);
    let ghost uvals = unwrap_all(vv);
    let vn: usize = validators.len();
    let mut groups: Vec<(Vec<char>, Vec<Vec<char>>)> = Vec::new();
    let mut c: usize = 0;
    let mut i: usize = 0;
    while i < n
        invariant
            i <= n,
            n == reqs@.len(),
            n == reqs.requests@.len(),
            reqs_wf(reqs@),
            vv == vals_view(validators@),
            uvals == unwrap_all(vv),
            vn == validators@.len(),
            validators@.len() == jobs_of(reqs@).len(),
            c as int == jobs_offset(reqs@, i as int),
            c <= vn,
            forall|j: int| 0 <= j < c ==> (#[trigger] vv[j]) is Some,
            groups_view(groups@) == groups_upto(reqs@, uvals, i as int),
        decreases n - i,
    {
        let v = &reqs.requests[i];
        proof {
            assert(reqs@[i as int] == v@);
        }
        let name_string = crate::name::make_name(v);
        let name = crate::strutil::str_to_chars(name_string.as_str());
        proof {
            reveal_strlit("OPTIONS");
            reveal_strlit("GET");
            reveal_strlit("POST");
            reveal_strlit("PUT");
            reveal_strlit("DELETE");
            reveal_strlit("HEAD");
            reveal_strlit("TRACE");
            reveal_strlit("CONNECT");
            reveal_strlit("PATCH");
            assert(crate::method::method_str(v@.method).len() > 0);
            assert(name@.len() > 0);
        }
        let sname = crate::name::upper_first_vec(&name);

        let ghost off = jobs_offset(reqs@, i as int);
        let ghost rjobs = crate::jobs::route_jobs(i as int, v@);
        let ghost np = crate::jobs::params_jobs(i as int, v@).len() as int;
        let ghost nb = crate::jobs::body_jobs(i as int, v@).len() as int;
        let ghost nr = crate::jobs::res_jobs(i as int, v@).len() as int;
        proof {
            crate::jobs::lemma_jobs_from_len(reqs@, i as int);
            assert(jobs_from(reqs@, i as int) == crate::jobs::route_jobs(i as int, reqs@[i as int])
                + jobs_from(reqs@, i + 1));
            crate::jobs::lemma_jobs_from_len(reqs@, i + 1);
            assert(jobs_offset(reqs@, i + 1) == off + rjobs.len());
            assert(off + rjobs.len() <= validators@.len());
            assert(rjobs.len() == np + nb + nr);
        }

        let mut pv: Vec<char> = Vec::new();
        let mut bv: Vec<char> = Vec::new();
        let mut rv1: Vec<char> = Vec::new();
        let mut rv2: Vec<char> = Vec::new();
        let mut k: usize = 0;

        match &v.req_params {
            Kind::Schema(_) => {
                match &validators[c] {
                    Some(s) => {
                        pv = crate::strutil::str_to_chars(s.as_str());
                        proof {
                            assert(vv[c as int] is Some);
                            assert(uvals[c as int] == s@);
                        }
                        k = 1;
                    },
                    None => {
                        proof {
                            assert(vv[c as int] is None);
                            lemma_err_shape(reqs@, vv, i as int, 0);
                            assert(rjobs[0].slot == Slot::Params);
                            assert(rjobs[0].route == i as int);
                        }
                        return Err(GenError::Transpile { name: name_string, slot: Slot::Params });
                    },
                }
            },
            _ => {},
        }
        proof {
            assert(k as int == np);
        }

        match &v.req_body {
            Kind::Schema(_) => {
                match &validators[c + k] {
                    Some(s) => {
                        bv = crate::strutil::str_to_chars(s.as_str());
                        proof {
                            assert(vv[c + k as int] is Some);
                            assert(uvals[c + k as int] == s@);
                        }
                        k = k + 1;
                    },
                    None => {
                        proof {
                            lemma_err_shape(reqs@, vv, i as int, k as int);
                            assert(rjobs[np].slot == Slot::Body);
                            assert(rjobs[np].route == i as int);
                        }
                        return Err(GenError::Transpile { name: name_string, slot: Slot::Body });
                    },
                }
            },
            _ => {},
        }
        proof {
            assert(k as int == np + nb);
        }

        match &v.res_body {
            Kind::Schema(_) => {
                match &validators[c + k] {
                    Some(s) => {
                        rv1 = crate::strutil::str_to_chars(s.as_str());
                        proof {
                            assert(uvals[c + k as int] == s@);
                        }
                        k = k + 1;
                    },
                    None => {
                        proof {
                            lemma_err_shape(reqs@, vv, i as int, k as int);
                            assert(rjobs[np + nb].slot == Slot::Response);
                            assert(rjobs[np + nb].route == i as int);
                        }
                        return Err(GenError::Transpile { name: name_string, slot: Slot::Response });
                    },
                }
            },
            Kind::SSE(_) => {
                match &validators[c + k] {
                    Some(s) => {
                        rv1 = crate::strutil::str_to_chars(s.as_str());
                        proof {
                            assert(uvals[c + k as int] == s@);
                        }
                        k = k + 1;
                    },
                    None => {
                        proof {
                            lemma_err_shape(reqs@, vv, i as int, k as int);
                            assert(rjobs[np + nb].slot == Slot::Response);
                            assert(rjobs[np + nb].route == i as int);
                        }
                        return Err(GenError::Transpile { name: name_string, slot: Slot::Response });
                    },
                }
            },
            Kind::Websocket { .. } => {
                match &validators[c + k] {
                    Some(s) => {
                        rv1 = crate::strutil::str_to_chars(s.as_str());
                        proof {
                            assert(uvals[c + k as int] == s@);
                        }
                        k = k + 1;
                    },
                    None => {
                        proof {
                            lemma_err_shape(reqs@, vv, i as int, k as int);
                            assert(rjobs[np + nb].slot == Slot::ClientMessage);
                            assert(rjobs[np + nb].route == i as int);
                        }
                        return Err(
                            GenError::Transpile { name: name_string, slot: Slot::ClientMessage },
                        );
                    },
                }
                match &validators[c + k] {
                    Some(s) => {
                        rv2 = crate::strutil::str_to_chars(s.as_str());
                        proof {
                            assert(uvals[c + k as int] == s@);
                        }
                        k = k + 1;
                    },
                    None => {
                        proof {
                            lemma_err_shape(reqs@, vv, i as int, k as int);
                            assert(rjobs[np + nb + 1].slot == Slot::ServerMessage);
                            assert(rjobs[np + nb + 1].route == i as int);
                        }
                        return Err(
                            GenError::Transpile { name: name_string, slot: Slot::ServerMessage },
                        );
                    },
                }
            },
            _ => {},
        }
        proof {
            assert(k as int == np + nb + nr);
            assert(k as int == crate::jobs::route_njobs(v@));
        }

        let frag = crate::emit::emit_fragment(v, &name, &sname, &pv, &bv, &rv1, &rv2);
        proof {
            let v4 = route_vals(v@, uvals, off);
            assert(pv@ == v4.0);
            assert(bv@ == v4.1);
            assert(rv1@ == v4.2);
            assert(rv2@ == v4.3);
            assert(frag@ == fragment_at(reqs@, uvals, i as int));
        }
        let tagc = crate::strutil::str_to_chars(v.tag.as_str());
        groups = insert_group_exec(groups, tagc, frag);
        c = c + k;
        proof {
            assert(groups_view(groups@) =~~= groups_upto(reqs@, uvals, i + 1 as int));
            assert(c as int == jobs_offset(reqs@, i + 1 as int));
        }
        i += 1;
    }
    proof {
        crate::jobs::lemma_jobs_from_len(reqs@, n as int);
        assert(jobs_from(reqs@, n as int).len() == 0);
        assert(c as int == jobs_of(reqs@).len());
        assert(all_some(vv));
    }
    push_groups_text(&mut out, &groups);
    push_str_chars(&mut out, "}");
    let s = chars_to_string(&out);
    proof {
        assert(s@ =~= module_text(reqs@, uvals));
    }
    Ok(s)
}

/// The fragments of routes tagged `t` among the first `i`, in insertion
/// order.
pub open spec fn tag_frags_upto(
    rs: Seq<RouteView>,
    vals: Seq<Seq<char>>,
    i: int,
    t: Seq<char>,
) -> Seq<Seq<char>>
    decreases i,
{
    if i <= 0 {
        Seq::empty()
    } else if rs[i - 1].tag == t {
        tag_frags_upto(rs, vals, i - 1, t).push(fragment_at(rs, vals, i - 1))
    } else {
        tag_frags_upto(rs, vals, i - 1, t)
    }
}

/// Namespace grouping: after filing the first `i` routes, the group keys
/// strictly ascend in lexicographic order — so every namespace appears
/// exactly once, sorted — and the fragments under each tag are exactly the
/// fragments of that tag's routes, in route-set insertion order.
pub proof fn lemma_grouping(rs: Seq<RouteView>, vals: Seq<Seq<char>>, i: int)
    requires
        0 <= i <= rs.len(),
    ensures
        keys_sorted(groups_upto(rs, vals, i)),
        forall|t: Seq<char>| #[trigger] frags_of(groups_upto(rs, vals, i), t) == tag_frags_upto(
            rs,
            vals,
            i,
            t,
        ),
    decreases i,
{
    if i == 0 {
        assert forall|t: Seq<char>| #[trigger] frags_of(groups_upto(rs, vals, 0), t)
            == tag_frags_upto(rs, vals, 0, t) by {
            assert(frags_of(groups_upto(rs, vals, 0), t) =~~= Seq::<Seq<char>>::empty());
        }
    } else {
        lemma_grouping(rs, vals, i - 1);
        let prev = groups_upto(rs, vals, i - 1);
        let tag = rs[i - 1].tag;
        let frag = fragment_at(rs, vals, i - 1);
        lemma_insert_sorted(prev, tag, frag);
        assert forall|t: Seq<char>| #[trigger] frags_of(groups_upto(rs, vals, i), t)
            == tag_frags_upto(rs, vals, i, t) by {
            lemma_insert_frags(prev, tag, frag, t);
        }
    }
}

/// Determinism: the generated module is a pure function of the route set
/// and the transpiled validator sources; the same inputs always yield the
/// same text, byte for byte.
pub proof fn lemma_generate_deterministic(
    rs1: Seq<RouteView>,
    vals1: Seq<Seq<char>>,
    rs2: Seq<RouteView>,
    vals2: Seq<Seq<char>>,
)
    requires
        rs1 == rs2,
        vals1 == vals2,
    ensures
        module_text(rs1, vals1) == module_text(rs2, vals2),
{
}

} // verus!
