//! The validator binding layer: which payload slots of a route set need
//! transpiling, and in which mode.
//!
//! Request-direction slots (params, body) and the client-to-server message
//! of a channel use input mode: the caller controls serialization, so wire
//! types are not coerced. The response direction (plain response schemas,
//! server-to-client channel messages, stream messages) uses output mode:
//! the caller does not control what the server returns, so parsing is
//! permissive and coercive.
//!
//! The external transpiler runs these jobs in order; the generator then
//! consumes one result per job.

use vstd::prelude::*;

use crate::types::KindView;
use crate::types::Requests;
use crate::types::RouteView;
use crate::types::Slot;

verus! {

/// Which coercion/strictness setting the external transpiler is asked for.
#[derive(Debug, Copy, Clone, PartialEq, Eq, Structural)]
pub enum Mode {
    /// No coercion of ambiguous wire types; for data the caller serializes.
    Input,
    /// Permissive, coercive parsing; for data the server returns.
    Output,
}

/// One call the external transpiler is asked to make: transpile `schema`
/// (the JSON text of a JSON-Schema object) in `mode`, for the given slot of
/// the route at index `route` of the set.
#[derive(Debug, Clone)]
pub struct TranspileJob {
    pub route: usize,
    pub slot: Slot,
    pub mode: Mode,
    pub schema: String,
}

/// The mathematical shape of a [`TranspileJob`].
#[verifier::ext_equal]
pub struct JobView {
    pub route: int,
    pub slot: Slot,
    pub mode: Mode,
    pub schema: Seq<char>,
}

impl View for TranspileJob {
    type V = JobView;

    open spec fn view(&self) -> JobView {
        JobView { route: self.route as int, slot: self.slot, mode: self.mode, schema: self.schema@ }
    }
}

/// The job planned for the params slot of route `i`, if any.
pub open spec fn params_jobs(i: int, r: RouteView) -> Seq<JobView> {
    match r.req_params {
        KindView::Schema(s) => seq![
            JobView { route: i, slot: Slot::Params, mode: Mode::Input, schema: s },
        ],
        _ => Seq::empty(),
    }
}

/// The job planned for the body slot of route `i`, if any.
pub open spec fn body_jobs(i: int, r: RouteView) -> Seq<JobView> {
    match r.req_body {
        KindView::Schema(s) => seq![
            JobView { route: i, slot: Slot::Body, mode: Mode::Input, schema: s },
        ],
        _ => Seq::empty(),
    }
}

/// The jobs planned for the response slot of route `i`: one output-mode job
/// for a plain schema or a stream message, an input-mode and an output-mode
/// job for the two directions of a channel.
pub open spec fn res_jobs(i: int, r: RouteView) -> Seq<JobView> {
    match r.res_body {
        KindView::Schema(s) => seq![
            JobView { route: i, slot: Slot::Response, mode: Mode::Output, schema: s },
        ],
        KindView::Websocket { client_msg, server_msg } => seq![
            JobView { route: i, slot: Slot::ClientMessage, mode: Mode::Input, schema: client_msg },
            JobView { route: i, slot: Slot::ServerMessage, mode: Mode::Output, schema: server_msg },
        ],
        KindView::SSE(s) => seq![
            JobView { route: i, slot: Slot::Response, mode: Mode::Output, schema: s },
        ],
        _ => Seq::empty(),
    }
}

/// All jobs of route `i`, in the order the generator consumes them:
/// params, body, then response.
pub open spec fn route_jobs(i: int, r: RouteView) -> Seq<JobView> {
    params_jobs(i, r) + body_jobs(i, r) + res_jobs(i, r)
}

/// How many transpilations route `r` needs.
pub open spec fn route_njobs(r: RouteView) -> int {
    route_jobs(0, r).len() as int
}

/// The jobs of routes `i` onward.
pub open spec fn jobs_from(rs: Seq<RouteView>, i: int) -> Seq<JobView>
    decreases rs.len() - i,
{
    if i < 0 || i >= rs.len() {
        Seq::empty()
    } else {
        route_jobs(i, rs[i]) + jobs_from(rs, i + 1)
    }
}

/// Every transpilation a route set needs, route by route in insertion
/// order.
pub open spec fn jobs_of(rs: Seq<RouteView>) -> Seq<JobView> {
    jobs_from(rs, 0)
}

/// Where route `i`'s jobs start within `jobs_of`.
pub open spec fn jobs_offset(rs: Seq<RouteView>, i: int) -> int
    decreases i,
{
    if i <= 0 {
        0
    } else {
        jobs_offset(rs, i - 1) + route_njobs(rs[i - 1])
    }
}

/// The number of jobs of one route is never negative, and jobs accumulate
/// monotonically.
pub proof fn lemma_jobs_from_len(rs: Seq<RouteView>, i: int)
    requires
        0 <= i <= rs.len(),
    ensures
        jobs_from(rs, i).len() == jobs_of(rs).len() - jobs_offset(rs, i),
        jobs_offset(rs, i) <= jobs_of(rs).len(),
        0 <= jobs_offset(rs, i),
    decreases i,
{
    if i == 0 {
    } else {
        lemma_jobs_from_len(rs, i - 1);
        assert(jobs_from(rs, i - 1) == route_jobs(i - 1, rs[i - 1]) + jobs_from(rs, i));
        assert(route_jobs(i - 1, rs[i - 1]).len() == route_njobs(rs[i - 1]));
    }
}

/// `jobs_of` indexed inside route `i`'s stretch gives route `i`'s own jobs.
pub proof fn lemma_jobs_of_slice(rs: Seq<RouteView>, i: int, k: int)
    requires
        0 <= i < rs.len(),
        0 <= k < route_njobs(rs[i]),
    ensures
        jobs_offset(rs, i) + k < jobs_of(rs).len(),
        jobs_of(rs)[jobs_offset(rs, i) + k] == route_jobs(i, rs[i])[k],
    decreases i,
{
    lemma_jobs_of_slice_from(rs, 0, i, k);
}

proof fn lemma_jobs_of_slice_from(rs: Seq<RouteView>, j: int, i: int, k: int)
    requires
        0 <= j <= i < rs.len(),
        0 <= k < route_njobs(rs[i]),
    ensures
        jobs_offset(rs, i) - jobs_offset(rs, j) + k < jobs_from(rs, j).len(),
        0 <= jobs_offset(rs, i) - jobs_offset(rs, j),
        jobs_from(rs, j)[jobs_offset(rs, i) - jobs_offset(rs, j) + k] == route_jobs(i, rs[i])[k],
    decreases i - j,
{
    if j == i {
        lemma_jobs_offset_mono(rs, j, i);
        assert(jobs_from(rs, j) == route_jobs(j, rs[j]) + jobs_from(rs, j + 1));
    } else {
        lemma_jobs_of_slice_from(rs, j + 1, i, k);
        lemma_jobs_offset_mono(rs, j, i);
        assert(jobs_from(rs, j) == route_jobs(j, rs[j]) + jobs_from(rs, j + 1));
        assert(jobs_offset(rs, j + 1) == jobs_offset(rs, j) + route_njobs(rs[j]));
    }
}

/// Offsets only grow along the route list.
pub proof fn lemma_jobs_offset_mono(rs: Seq<RouteView>, j: int, i: int)
    requires
        0 <= j <= i,
    ensures
        jobs_offset(rs, j) <= jobs_offset(rs, i),
    decreases i - j,
{
    if j < i {
        lemma_jobs_offset_mono(rs, j, i - 1);
        assert(route_jobs(0, rs[i - 1]).len() >= 0);
    }
}

/// The views of a vector of jobs.
pub open spec fn jobs_view(v: Seq<TranspileJob>) -> Seq<JobView> {
    v.map_values(|j: TranspileJob| j@)
}

fn push_route_jobs(out: &mut Vec<TranspileJob>, i: usize, r: &crate::types::RequestInfo)
    ensures
        jobs_view(final(out)@) == jobs_view(old(out)@) + route_jobs(i as int, r@),
{
    match &r.req_params {
        crate::types::Kind::Schema(s) => {
            out.push(
                TranspileJob {
                    route: i,
                    slot: Slot::Params,
                    mode: Mode::Input,
                    schema: s.clone(),
                },
            );
        },
        _ => {},
    }
    match &r.req_body {
        crate::types::Kind::Schema(s) => {
            out.push(
                TranspileJob { route: i, slot: Slot::Body, mode: Mode::Input, schema: s.clone() },
            );
        },
        _ => {},
    }
    match &r.res_body {
        crate::types::Kind::Schema(s) => {
            out.push(
                TranspileJob {
                    route: i,
                    slot: Slot::Response,
                    mode: Mode::Output,
                    schema: s.clone(),
                },
            );
        },
        crate::types::Kind::Websocket { client_msg, server_msg } => {
            out.push(
                TranspileJob {
                    route: i,
                    slot: Slot::ClientMessage,
                    mode: Mode::Input,
                    schema: client_msg.clone(),
                },
            );
            out.push(
                TranspileJob {
                    route: i,
                    slot: Slot::ServerMessage,
                    mode: Mode::Output,
                    schema: server_msg.clone(),
                },
            );
        },
        crate::types::Kind::SSE(s) => {
            out.push(
                TranspileJob {
                    route: i,
                    slot: Slot::Response,
                    mode: Mode::Output,
                    schema: s.clone(),
                },
            );
        },
        _ => {},
    }
    proof {
        assert(jobs_view(out@) =~= jobs_view(old(out)@) + route_jobs(i as int, r@));
    }
}

/// Every transpilation this route set needs, in the order the generator
/// consumes the results.
pub fn transpile_jobs(reqs: &Requests) -> (r: Vec<TranspileJob>)
    ensures
        jobs_view(r@) == jobs_of(reqs@),
{
    let mut out: Vec<TranspileJob> = Vec::new();
    let n: usize = reqs.requests.len();
    let mut i: usize = 0;
    while i < n
        invariant
            i <= n,
            n == reqs.requests@.len(),
            n == reqs@.len(),
            jobs_view(out@) + jobs_from(reqs@, i as int) == jobs_of(reqs@),
        decreases n - i,
    {
        proof {
            assert(reqs@[i as int] == reqs.requests@[i as int]@);
        }
        push_route_jobs(&mut out, i, &reqs.requests[i]);
        proof {
            assert(jobs_from(reqs@, i as int) == route_jobs(i as int, reqs@[i as int]) + jobs_from(
                reqs@,
                i + 1,
            ));
            assert(jobs_view(out@) + jobs_from(reqs@, i + 1 as int) =~= jobs_of(reqs@));
        }
        i += 1;
    }
    proof {
        assert(jobs_from(reqs@, n as int) =~= Seq::<JobView>::empty());
        assert(jobs_view(out@) =~= jobs_of(reqs@));
    }
    out
}

/// The slot-to-mode law of the validator binding layer: a schema-typed body
/// (or params) slot is planned as an input-mode job, a schema-typed
/// response slot as an output-mode job, and a channel plans input mode for
/// the client direction and output mode for the server direction.
pub proof fn lemma_modes(i: int, r: RouteView)
    ensures
        (r.req_body matches KindView::Schema(s) ==> route_jobs(i, r).contains(
            JobView { route: i, slot: Slot::Body, mode: Mode::Input, schema: s },
        )),
        (r.req_params matches KindView::Schema(s) ==> route_jobs(i, r).contains(
            JobView { route: i, slot: Slot::Params, mode: Mode::Input, schema: s },
        )),
        (r.res_body matches KindView::Schema(s) ==> route_jobs(i, r).contains(
            JobView { route: i, slot: Slot::Response, mode: Mode::Output, schema: s },
        )),
        (r.res_body matches KindView::Websocket { client_msg, server_msg } ==> route_jobs(i, r)
            .contains(
            JobView { route: i, slot: Slot::ClientMessage, mode: Mode::Input, schema: client_msg },
        ) && route_jobs(i, r).contains(
            JobView { route: i, slot: Slot::ServerMessage, mode: Mode::Output, schema: server_msg },
        )),
        (r.res_body matches KindView::SSE(s) ==> route_jobs(i, r).contains(
            JobView { route: i, slot: Slot::Response, mode: Mode::Output, schema: s },
        )),
        (forall|j: JobView| route_jobs(i, r).contains(j) && (j.slot == Slot::Params || j.slot
            == Slot::Body || j.slot == Slot::ClientMessage) ==> j.mode == Mode::Input),
        (forall|j: JobView| route_jobs(i, r).contains(j) && (j.slot == Slot::Response || j.slot
            == Slot::ServerMessage) ==> j.mode == Mode::Output),
{
    let jobs = route_jobs(i, r);
    match r.req_params {
        KindView::Schema(s) => {
            assert(jobs[0] == JobView {
                route: i,
                slot: Slot::Params,
                mode: Mode::Input,
                schema: s,
            });
        },
        _ => {},
    }
    match r.req_body {
        KindView::Schema(s) => {
            let o = params_jobs(i, r).len() as int;
            assert(jobs[o] == JobView { route: i, slot: Slot::Body, mode: Mode::Input, schema: s });
        },
        _ => {},
    }
    let ro = (params_jobs(i, r).len() + body_jobs(i, r).len()) as int;
    match r.res_body {
        KindView::Schema(s) => {
            assert(jobs[ro] == JobView {
                route: i,
                slot: Slot::Response,
                mode: Mode::Output,
                schema: s,
            });
        },
        KindView::Websocket { client_msg, server_msg } => {
            assert(jobs[ro] == JobView {
                route: i,
                slot: Slot::ClientMessage,
                mode: Mode::Input,
                schema: client_msg,
            });
            assert(jobs[ro + 1] == JobView {
                route: i,
                slot: Slot::ServerMessage,
                mode: Mode::Output,
                schema: server_msg,
            });
        },
        KindView::SSE(s) => {
            assert(jobs[ro] == JobView {
                route: i,
                slot: Slot::Response,
                mode: Mode::Output,
                schema: s,
            });
        },
        _ => {},
    }
}

} // verus!
