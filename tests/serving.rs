use config_server::config::{parse_json_config, ServerConfig};
use config_server::dispatch::{select_response, Target};
use config_server::json::{Json, JsonArray, JsonNumber, JsonObject};
use config_server::reply::{build_reply, error_response, resource_reply};
use config_server::response::{ResourceResponse, ResponseType};
use config_server::script::{
    script_reply, script_request, script_result, Fetched, ScriptHeaders, ScriptTable, ScriptValue,
};

fn text(x: &str) -> Json {
    Json::Str(x.to_string())
}

fn num(n: u64) -> Json {
    Json::Number(JsonNumber { as_u64: Some(n), text: n.to_string() })
}

fn obj(entries: Vec<(&str, Json)>) -> Json {
    Json::Object(JsonObject {
        entries: entries.into_iter().map(|(k, v)| (k.to_string(), v)).collect(),
        text: String::new(),
    })
}

fn config_with_routes(routes: Vec<Json>) -> ServerConfig {
    let doc = obj(vec![
        ("port", num(8080)),
        ("public-web-root", text("public")),
        ("home-page-response", obj(vec![("resource-location", text("index.html"))])),
        (
            "not-found-response",
            obj(vec![("resource-location", text("404.html")), ("status-code", num(404))]),
        ),
        ("custom-urls", Json::Array(JsonArray { items: routes, text: String::new() })),
    ]);
    match parse_json_config(&doc) {
        Ok(c) => c,
        Err(e) => panic!("unexpected errors: {}", e),
    }
}

fn ping_route() -> Json {
    obj(vec![
        ("method", text("GET")),
        ("web-path", text("/ping")),
        ("response", obj(vec![("script", text("ping.script"))])),
    ])
}

#[test]
fn home_precedes_custom_route() {
    let c = config_with_routes(vec![obj(vec![
        ("web-path", text("/")),
        ("response", obj(vec![("script", text("root.lua"))])),
    ])]);
    assert!(matches!(select_response(&c, "GET", "/"), Target::Home));
    assert!(matches!(select_response(&c, "GET", ""), Target::Home));
}

#[test]
fn post_to_unmapped_path_is_not_found() {
    let c = config_with_routes(vec![ping_route()]);
    assert!(matches!(select_response(&c, "POST", "/nothing"), Target::NotFound));
    assert!(matches!(select_response(&c, "POST", "/"), Target::NotFound));
    match select_response(&c, "GET", "/nothing") {
        Target::Static(p) => assert_eq!(p, "nothing"),
        _ => panic!("expected the static fallback"),
    }
}

#[test]
fn static_path_loses_one_slash() {
    let c = config_with_routes(vec![]);
    match select_response(&c, "GET", "//a/b.html") {
        Target::Static(p) => assert_eq!(p, "/a/b.html"),
        _ => panic!("expected the static fallback"),
    }
}

#[test]
fn route_match_is_exact() {
    let c = config_with_routes(vec![ping_route()]);
    assert!(matches!(select_response(&c, "GET", "/ping"), Target::Custom(0)));
    assert!(matches!(select_response(&c, "GET", "/ping/"), Target::Static(_)));
    assert!(matches!(select_response(&c, "GET", "/PING"), Target::Static(_)));
    assert!(matches!(select_response(&c, "PUT", "/ping"), Target::NotFound));
}

#[test]
fn script_string_is_plain_reply() {
    let r = script_result(ScriptValue::Text(b"hello".to_vec())).ok().unwrap();
    assert_eq!(r.status_code, 200);
    assert!(r.headers.is_empty());
    assert_eq!(r.body, b"hello".to_vec());
    let reply = script_reply(Ok(r));
    assert_eq!(reply.status, 200);
    assert!(reply.headers.is_empty());
    assert_eq!(reply.body, b"hello".to_vec());
}

#[test]
fn script_table_without_status_is_500() {
    let v = ScriptValue::Table(ScriptTable { status_code: None, body: Some(b"x".to_vec()), headers: ScriptHeaders::Absent });
    let r = script_result(v);
    assert_eq!(r.as_ref().err().unwrap(), "Table key 'status_code' must be a u16.");
    let reply = script_reply(r);
    assert_eq!(reply.status, 500);
    assert_eq!(reply.body, b"The server has encountered an internal error.".to_vec());
    assert_eq!(reply.headers, vec![("content-type".to_string(), String::new())]);
}

#[test]
fn script_table_errors() {
    let no_body = ScriptValue::Table(ScriptTable { status_code: Some(201), body: None, headers: ScriptHeaders::Absent });
    assert_eq!(
        script_result(no_body).err().unwrap(),
        "Table key 'body' must be able to be converted to a Vec<u8>."
    );
    let bad_headers = ScriptValue::Table(ScriptTable { status_code: Some(201), body: Some(vec![1]), headers: ScriptHeaders::Invalid });
    assert_eq!(script_result(bad_headers).err().unwrap(), "Table key 'headers' must be a Table");
    assert_eq!(script_result(ScriptValue::Other).err().unwrap(), "Response must be a Table or String");
}

#[test]
fn script_table_with_headers() {
    let v = ScriptValue::Table(ScriptTable {
        status_code: Some(201),
        body: Some(b"made".to_vec()),
        headers: ScriptHeaders::Table(vec![("x-a".to_string(), "1".to_string())]),
    });
    let reply = script_reply(script_result(v));
    assert_eq!(reply.status, 201);
    assert_eq!(reply.headers, vec![("x-a".to_string(), "1".to_string())]);
    assert_eq!(reply.body, b"made".to_vec());
}

#[test]
fn ping_scenario() {
    let c = config_with_routes(vec![ping_route()]);
    assert_eq!(c.port, 8080);
    let i = match select_response(&c, "GET", "/ping") {
        Target::Custom(i) => i,
        _ => panic!("expected the custom route"),
    };
    let route = &c.custom_urls[i];
    match &route.response {
        ResponseType::Script(s) => assert_eq!(s.path, "ping.script"),
        _ => panic!("expected a script response"),
    }
    let reply = route.response.respond(Fetched::Script(Ok(ScriptValue::Text(b"pong".to_vec()))));
    assert_eq!(reply.status, 200);
    assert_eq!(reply.body, b"pong".to_vec());

    assert!(matches!(select_response(&c, "GET", "/missing"), Target::Static(_)));
    let reply = c.not_found_response.respond(Fetched::File(Some(b"gone".to_vec())));
    assert_eq!(reply.status, 404);
    assert_eq!(reply.body, b"gone".to_vec());
}

#[test]
fn unreadable_resource_is_500() {
    let res = ResourceResponse { path: "a".to_string(), status_code: 200, headers: vec![] };
    assert_eq!(resource_reply(&res, None).status, 500);
    let r = ResponseType::Resource(res);
    assert_eq!(r.respond(Fetched::File(None)).status, 500);
    assert_eq!(r.respond(Fetched::Script(Ok(ScriptValue::Other))).status, 500);
}

#[test]
fn resource_reply_keeps_headers_in_order() {
    let res = ResourceResponse {
        path: "a".to_string(),
        status_code: 203,
        headers: vec![
            ("X-B".to_string(), "2".to_string()),
            ("X-A".to_string(), "1".to_string()),
            ("X-B".to_string(), "3".to_string()),
        ],
    };
    let reply = resource_reply(&res, Some(vec![7, 8]));
    assert_eq!(reply.status, 203);
    assert_eq!(reply.headers, res.headers);
    assert_eq!(reply.body, vec![7, 8]);
}

#[test]
fn unsendable_status_or_header_is_500() {
    assert_eq!(build_reply(99, vec![], vec![]).status, 500);
    assert_eq!(build_reply(1000, vec![], vec![]).status, 500);
    assert_eq!(build_reply(999, vec![], vec![]).status, 999);
    assert_eq!(build_reply(200, vec![("bad name".to_string(), "v".to_string())], vec![]).status, 500);
    assert_eq!(build_reply(200, vec![("ok".to_string(), "bad\u{7f}".to_string())], vec![]).status, 500);
    assert_eq!(build_reply(200, vec![("ok".to_string(), "fine\tvalue".to_string())], vec![]).status, 200);
}

#[test]
fn error_reply_is_fixed() {
    let e = error_response();
    assert_eq!(e.status, 500);
    assert_eq!(e.headers, vec![("content-type".to_string(), String::new())]);
    assert_eq!(e.body, b"The server has encountered an internal error.".to_vec());
}

#[test]
fn script_request_keeps_last_header_value() {
    let headers = vec![
        ("a".to_string(), "1".to_string()),
        ("b".to_string(), "2".to_string()),
        ("a".to_string(), "3".to_string()),
    ];
    let r = script_request("GET".to_string(), headers, "/p".to_string(), None, "body".to_string());
    assert_eq!(r.method, "GET");
    assert_eq!(r.path, "/p");
    assert_eq!(r.query, "");
    assert_eq!(r.body, "body");
    let mut got = r.headers.clone();
    got.sort();
    assert_eq!(got, vec![("a".to_string(), "3".to_string()), ("b".to_string(), "2".to_string())]);
    let r = script_request("POST".to_string(), vec![], "/".to_string(), Some("x=1".to_string()), String::new());
    assert_eq!(r.query, "x=1");
    assert!(r.headers.is_empty());
}
