use schemars_client_gen::gen::{GenError, generate};
use schemars_client_gen::jobs::{Mode, transpile_jobs};
use schemars_client_gen::name::{first_upper, make_name, make_name_raw};
use schemars_client_gen::types::{BuildError, Kind, RequestInfo, Requests, Slot};
use schemars_client_gen::{Deprecated, Method};

fn stub_validators(reqs: &Requests) -> Vec<Option<String>> {
    transpile_jobs(reqs)
        .iter()
        .map(|job| {
            let mode = match job.mode {
                Mode::Input => "input",
                Mode::Output => "output",
            };
            Some(format!("z.stub('{}')", mode))
        })
        .collect()
}

#[test]
fn naming_get_profile() {
    let name = make_name_raw(
        "GET".to_owned(),
        "/api/user/profile".to_owned(),
        "user".to_owned(),
    );
    assert_eq!(name, "getProfile");
}

#[test]
fn naming_post_log_in() {
    let name = make_name_raw(
        "POST".to_owned(),
        "/api/auth/log-in".to_owned(),
        "auth".to_owned(),
    );
    assert_eq!(name, "postLogIn");
}

#[test]
fn naming_keeps_unscoped_segments() {
    let name = make_name_raw(
        "PUT".to_owned(),
        "/api/other/snake_case".to_owned(),
        "auth".to_owned(),
    );
    assert_eq!(name, "putOtherSnakeCase");
}

#[test]
fn naming_of_descriptor() {
    let info = RequestInfo::new("/api/user/profile", Method::Get, "user");
    assert_eq!(make_name(&info), "getProfile");
}

#[test]
fn first_upper_basic() {
    assert_eq!(first_upper("getProfile"), "GetProfile");
    assert_eq!(first_upper("x"), "X");
}

#[test]
fn slot_exclusivity_body() {
    let info = RequestInfo::new("/api/user/save", Method::Post, "user")
        .with_req_body("{\"type\":\"object\"}".to_owned())
        .unwrap();
    match info.req_body {
        Kind::Schema(ref s) => assert_eq!(s, "{\"type\":\"object\"}"),
        _ => panic!("body slot should hold the first schema"),
    }
    let again = info.with_req_body("{\"type\":\"string\"}".to_owned());
    match again {
        Err(BuildError::DuplicateSlot(Slot::Body)) => {},
        _ => panic!("second body attachment must fail with the duplicate-slot error"),
    }
}

#[test]
fn slot_exclusivity_response() {
    let info = RequestInfo::new("/api/user/load", Method::Get, "user")
        .with_res_schema("{}".to_owned())
        .unwrap();
    let again = info.with_any_res();
    assert!(matches!(
        again,
        Err(BuildError::DuplicateSlot(Slot::Response))
    ));
}

#[test]
fn streaming_on_post_fails() {
    let sse = RequestInfo::new("/api/feed", Method::Post, "feed").with_sse("{}".to_owned());
    assert!(matches!(sse, Err(BuildError::StreamingOnNonGet)));

    let ws = RequestInfo::new("/api/feed", Method::Post, "feed")
        .with_websocket("{}".to_owned(), "{}".to_owned());
    assert!(matches!(ws, Err(BuildError::StreamingOnNonGet)));
}

#[test]
fn streaming_on_get_succeeds() {
    let sse = RequestInfo::new("/api/feed", Method::Get, "feed").with_sse("{}".to_owned());
    assert!(sse.is_ok());
}

#[test]
fn double_deprecation_fails() {
    let replacement = RequestInfo::new("/api/user/profile", Method::Get, "user");
    let info = RequestInfo::new("/api/user/old-profile", Method::Get, "user")
        .with_deprecation_note(&replacement)
        .unwrap();
    let again = info.with_deprecation_note(&replacement);
    assert!(matches!(again, Err(BuildError::DuplicateDeprecation)));
}

#[test]
fn determinism() {
    let make = || Requests {
        requests: vec![
            RequestInfo::new("/api/user/profile", Method::Get, "user")
                .with_req_schema("{\"a\":1}".to_owned())
                .unwrap()
                .with_error(404, "not found"),
            RequestInfo::new("/api/admin/stats", Method::Post, "admin")
                .with_res_schema("{\"b\":2}".to_owned())
                .unwrap(),
        ],
    };
    let reqs1 = make();
    let reqs2 = make();
    let out1 = generate(&reqs1, &stub_validators(&reqs1)).unwrap();
    let out2 = generate(&reqs2, &stub_validators(&reqs2)).unwrap();
    assert_eq!(out1, out2);
}

#[test]
fn namespace_grouping() {
    let reqs = Requests {
        requests: vec![
            RequestInfo::new("/api/user/profile", Method::Get, "user"),
            RequestInfo::new("/api/user/settings", Method::Get, "user"),
            RequestInfo::new("/api/admin/stats", Method::Get, "admin"),
        ],
    };
    let out = generate(&reqs, &stub_validators(&reqs)).unwrap();

    let admin_at = out
        .find("export namespace admin {")
        .expect("admin block missing");
    let user_at = out
        .find("export namespace user {")
        .expect("user block missing");
    assert!(admin_at < user_at, "admin must come before user");
    assert_eq!(out.matches("export namespace admin {").count(), 1);
    assert_eq!(out.matches("export namespace user {").count(), 1);

    let profile_at = out.find("export function getProfile(").unwrap();
    let settings_at = out.find("export function getSettings(").unwrap();
    let stats_at = out.find("export function getStats(").unwrap();
    assert!(stats_at < profile_at, "admin's route belongs to the first block");
    assert!(profile_at < settings_at, "user routes keep insertion order");
}

#[test]
fn reserved_word_namespace_is_escaped() {
    let make = || Requests {
        requests: vec![RequestInfo::new("/api/class/list", Method::Get, "class")],
    };
    let reqs1 = make();
    let out1 = generate(&reqs1, &stub_validators(&reqs1)).unwrap();
    assert!(out1.contains("export namespace nClass {"));
    assert!(!out1.contains("export namespace class {"));

    let reqs2 = make();
    let out2 = generate(&reqs2, &stub_validators(&reqs2)).unwrap();
    assert_eq!(out1, out2, "the escape must come out identical on every run");
}

#[test]
fn unreserved_namespace_is_kept() {
    let reqs = Requests {
        requests: vec![RequestInfo::new("/api/account/list", Method::Get, "account")],
    };
    let out = generate(&reqs, &stub_validators(&reqs)).unwrap();
    assert!(out.contains("export namespace account {"));
}

#[test]
fn superseded_references_resolved_identifier() {
    let replacement = RequestInfo::new("/api/user/profile", Method::Get, "user");
    let reqs = Requests {
        requests: vec![
            RequestInfo::new("/api/user/old-profile", Method::Get, "user")
                .with_deprecation_note(&replacement)
                .unwrap(),
        ],
    };
    let out = generate(&reqs, &stub_validators(&reqs)).unwrap();
    assert!(out.contains("/** @deprecated Please use {@link getProfile} instead */"));
    assert!(!out.contains("{@link /api/user/profile}"));
}

#[test]
fn flagged_deprecation_emits_bare_marker() {
    let mut info = RequestInfo::new("/api/user/old", Method::Get, "user");
    info.deprecated = Deprecated::Simple(true);
    let reqs = Requests { requests: vec![info] };
    let out = generate(&reqs, &stub_validators(&reqs)).unwrap();
    assert!(out.contains("    /** @deprecated */\n"));
}

#[test]
fn transpile_modes_round_trip() {
    let reqs = Requests {
        requests: vec![
            RequestInfo::new("/api/user/save", Method::Post, "user")
                .with_req_body("{\"req\":true}".to_owned())
                .unwrap()
                .with_res_schema("{\"res\":true}".to_owned())
                .unwrap(),
        ],
    };
    let jobs = transpile_jobs(&reqs);
    assert_eq!(jobs.len(), 2);
    assert_eq!(jobs[0].slot, Slot::Body);
    assert_eq!(jobs[0].mode, Mode::Input);
    assert_eq!(jobs[0].schema, "{\"req\":true}");
    assert_eq!(jobs[1].slot, Slot::Response);
    assert_eq!(jobs[1].mode, Mode::Output);
    assert_eq!(jobs[1].schema, "{\"res\":true}");
}

#[test]
fn transpile_modes_for_channel() {
    let reqs = Requests {
        requests: vec![
            RequestInfo::new("/api/chat", Method::Get, "chat")
                .with_req_params("{\"p\":true}".to_owned())
                .unwrap()
                .with_websocket("{\"c\":true}".to_owned(), "{\"s\":true}".to_owned())
                .unwrap(),
        ],
    };
    let jobs = transpile_jobs(&reqs);
    assert_eq!(jobs.len(), 3);
    assert_eq!(jobs[0].slot, Slot::Params);
    assert_eq!(jobs[0].mode, Mode::Input);
    assert_eq!(jobs[1].slot, Slot::ClientMessage);
    assert_eq!(jobs[1].mode, Mode::Input);
    assert_eq!(jobs[1].schema, "{\"c\":true}");
    assert_eq!(jobs[2].slot, Slot::ServerMessage);
    assert_eq!(jobs[2].mode, Mode::Output);
    assert_eq!(jobs[2].schema, "{\"s\":true}");
}

#[test]
fn error_codes_render_in_order() {
    let reqs = Requests {
        requests: vec![
            RequestInfo::new("/api/user/save", Method::Post, "user")
                .with_error(404, "not found")
                .with_error(409, "conflict"),
        ],
    };
    let out = generate(&reqs, &stub_validators(&reqs)).unwrap();
    let expected = "    /**\n     * Error responses:\n     *\n     * 404: not found\n     *\n     * 409: conflict\n     */\n";
    assert!(out.contains(expected));
}

#[test]
fn no_error_codes_no_block() {
    let reqs = Requests {
        requests: vec![RequestInfo::new("/api/user/save", Method::Post, "user")],
    };
    let out = generate(&reqs, &stub_validators(&reqs)).unwrap();
    assert!(!out.contains("Error responses:"));
}

#[test]
fn failed_transpilation_names_route_and_slot() {
    let reqs = Requests {
        requests: vec![
            RequestInfo::new("/api/user/profile", Method::Get, "user"),
            RequestInfo::new("/api/user/save", Method::Post, "user")
                .with_req_body("{}".to_owned())
                .unwrap(),
        ],
    };
    let validators: Vec<Option<String>> = vec![None];
    let err = generate(&reqs, &validators).unwrap_err();
    match err {
        GenError::Transpile { name, slot } => {
            assert_eq!(name, "postSave");
            assert_eq!(slot, Slot::Body);
        },
    }
}

#[test]
fn sse_route_emits_stream_wrapper() {
    let reqs = Requests {
        requests: vec![
            RequestInfo::new("/api/sse", Method::Get, "main")
                .with_req_schema("{\"q\":true}".to_owned())
                .unwrap()
                .with_sse("{\"msg\":true}".to_owned())
                .unwrap(),
        ],
    };
    let out = generate(&reqs, &stub_validators(&reqs)).unwrap();
    assert!(out.contains("export type GetSseSSE = SSE<GetSseMsg>;"));
    assert!(out.contains("export function getSse(params: GetSseParams, ): GetSseSSE {"));
    assert!(out.contains("new EventSource("));
    assert!(out.contains("export class SSE<Msg>"), "stream support block included");
    assert!(!out.contains("class WebsocketWrapper<ClientMsg"), "no channel block needed");
}

#[test]
fn websocket_route_emits_channel_wrapper() {
    let reqs = Requests {
        requests: vec![
            RequestInfo::new("/api/chat", Method::Get, "chat")
                .with_websocket("{\"c\":1}".to_owned(), "{\"s\":1}".to_owned())
                .unwrap(),
        ],
    };
    let out = generate(&reqs, &stub_validators(&reqs)).unwrap();
    assert!(out.contains("export type GetChatWebsocket = WebsocketWrapper<GetChatClientMsg, GetChatServerMsg>;"));
    assert!(out.contains("export function getChat(): GetChatWebsocket {"));
    assert!(out.contains("export class WebsocketWrapper<ClientMsg, ServerMsg>"));
    assert!(!out.contains("export class SSE<Msg>"));
}

#[test]
fn http_route_emits_fetch_binding() {
    let reqs = Requests {
        requests: vec![
            RequestInfo::new("/api/user/save", Method::Post, "user")
                .with_req_body("{\"b\":1}".to_owned())
                .unwrap()
                .with_res_schema("{\"r\":1}".to_owned())
                .unwrap(),
        ],
    };
    let out = generate(&reqs, &stub_validators(&reqs)).unwrap();
    assert!(out.contains("const postSaveReqSchema = z.stub('input');"));
    assert!(out.contains("const postSaveResSchema = z.stub('output');"));
    assert!(out.contains(
        "export function postSave(req: PostSaveReq, init: RequestInit = {}): PromiseWrapper<PostSaveRes> {"
    ));
    assert!(out.contains("method: 'POST',"));
    assert!(out.contains("body: JSON.stringify(postSaveReqSchema.parse(req)),"));
    assert!(out.contains("headers: jsonContentTypeHeader("));
    assert!(out.contains("postSaveResSchema.parse).then(ok) : err(res))"));
}

#[test]
fn untyped_slots_emit_loose_aliases() {
    let reqs = Requests {
        requests: vec![
            RequestInfo::new("/api/files/upload", Method::Post, "files")
                .with_any_req()
                .unwrap()
                .with_any_res()
                .unwrap(),
        ],
    };
    let out = generate(&reqs, &stub_validators(&reqs)).unwrap();
    assert!(out.contains("    type PostUploadReq = Blob | FormData | string;"));
    assert!(out.contains("export type PostUploadRes = unknown;"));
    assert!(out.contains("body: req,"));
    assert!(out.contains(".then(res => res.ok ? res.text().then(ok) : err(res))"));
    assert!(!out.contains("headers: jsonContentTypeHeader("), "no content type for an untyped body");
}

#[test]
fn untyped_params_emit_string_record() {
    let reqs = Requests {
        requests: vec![
            RequestInfo::new("/api/files/list", Method::Get, "files")
                .with_any_req()
                .unwrap(),
        ],
    };
    let out = generate(&reqs, &stub_validators(&reqs)).unwrap();
    assert!(out.contains("export type GetListParams = Record<string, string>;"));
    assert!(out.contains("export function getList(params: GetListParams, init: RequestInit = {}): PromiseWrapper<Response> {"));
    assert!(out.contains(" + makeQuery(options.unsafe ? params as GetListParams : getListParamsSchema.parse(params)),"));
    assert!(out.contains(".then(res => res.ok ? ok(res) : err(res))"));
}

#[test]
fn empty_route_set_emits_bare_module() {
    let reqs = Requests { requests: Vec::new() };
    let out = generate(&reqs, &Vec::new()).unwrap();
    assert!(out.starts_with("import { z } from 'zod';\n\nexport namespace client {\n\n"));
    assert!(out.ends_with("}"));
    assert!(!out.contains("export namespace admin"));
}

#[test]
fn method_tokens() {
    assert_eq!(Method::Get.as_str(), "GET");
    assert_eq!(Method::Patch.as_str(), "PATCH");
    assert_eq!(Method::parse("DELETE"), Some(Method::Delete));
    assert_eq!(Method::parse("FETCH"), None);
    assert_eq!("TRACE".parse::<Method>().unwrap(), Method::Trace);
    let unknown = "FETCH".parse::<Method>().unwrap_err();
    assert_eq!(unknown.message(), "Method unknown");
}

#[test]
fn deprecated_is() {
    assert!(!Deprecated::Simple(false).is());
    assert!(Deprecated::Simple(true).is());
    assert!(Deprecated::WithInfo("/a".to_owned(), Method::Get, "t".to_owned()).is());
    assert!(!Deprecated::default().is());
}

#[test]
fn kind_predicates() {
    assert!(Kind::Absent.is_none());
    assert!(!Kind::Absent.is_some());
    assert!(Kind::Any.is_some());
    assert!(Kind::Schema("{}".to_owned()).is_schema());
    let ws = Kind::Websocket {
        client_msg: "{}".to_owned(),
        server_msg: "{}".to_owned(),
    };
    assert!(ws.is_websocket());
    assert!(ws.is_some());
    let sse = Kind::SSE("{}".to_owned());
    assert!(sse.is_sse());
    assert!(!sse.is_some());
    assert_eq!(Kind::Absent.label(), "none");
    assert_eq!(sse.label(), "server side events");
}

#[test]
fn req_schema_slot_depends_on_method() {
    let get = RequestInfo::new("/api/user/profile", Method::Get, "user")
        .with_req_schema("{}".to_owned())
        .unwrap();
    assert!(get.req_params.is_schema());
    assert!(get.req_body.is_none());

    let post = RequestInfo::new("/api/user/save", Method::Post, "user")
        .with_req_schema("{}".to_owned())
        .unwrap();
    assert!(post.req_body.is_schema());
    assert!(post.req_params.is_none());
}

#[test]
fn requests_with_closure() {
    let reqs = Requests::default()
        .with(|| RequestInfo::new("/api/user/profile", Method::Get, "user"));
    assert_eq!(reqs.requests.len(), 1);
    assert_eq!(reqs.requests[0].path, "/api/user/profile");
}
