use config_server::config::{
    parse_json_config, parse_json_resource_response, parse_json_response, parse_json_script_response,
    ServerConfig,
};
use config_server::json::{Json, JsonNumber, JsonObject};
use config_server::response::{empty_response, ResponseType};

fn text(x: &str) -> Json {
    Json::Str(x.to_string())
}

fn num(n: u64) -> Json {
    Json::Number(JsonNumber { as_u64: Some(n), text: n.to_string() })
}

fn obj(entries: Vec<(&str, Json)>) -> Json {
    Json::Object(JsonObject {
        entries: entries.into_iter().map(|(k, v)| (k.to_string(), v)).collect(),
        text: String::new(),
    })
}

fn arr(items: Vec<Json>) -> Json {
    Json::Array(config_server::json::JsonArray { items, text: String::new() })
}

fn base_fields() -> Vec<(&'static str, Json)> {
    vec![
        ("port", num(8080)),
        ("public-web-root", text("public")),
        ("home-page-response", obj(vec![("resource-location", text("index.html"))])),
        (
            "not-found-response",
            obj(vec![("resource-location", text("404.html")), ("status-code", num(404))]),
        ),
    ]
}

fn ping_config() -> ServerConfig {
    let mut fields = base_fields();
    fields.push((
        "custom-urls",
        arr(vec![obj(vec![
            ("method", text("GET")),
            ("web-path", text("/ping")),
            ("response", obj(vec![("script", text("ping.script"))])),
        ])]),
    ));
    match parse_json_config(&obj(fields)) {
        Ok(c) => c,
        Err(e) => panic!("unexpected errors: {}", e),
    }
}

#[test]
fn valid_config_builds_routes() {
    let c = ping_config();
    assert_eq!(c.port, 8080);
    assert_eq!(c.public_web_root, "public");
    assert_eq!(c.custom_urls.len(), 1);
    assert_eq!(c.custom_urls[0].method, "GET");
    assert_eq!(c.custom_urls[0].web_path, "/ping");
    match &c.custom_urls[0].response {
        ResponseType::Script(s) => assert_eq!(s.path, "ping.script"),
        _ => panic!("expected a script response"),
    }
    match &c.not_found_response {
        ResponseType::Resource(r) => {
            assert_eq!(r.path, "404.html");
            assert_eq!(r.status_code, 404);
            assert!(r.headers.is_empty());
        },
        _ => panic!("expected a resource response"),
    }
}

#[test]
fn route_with_error_is_dropped_and_reported() {
    let mut fields = base_fields();
    fields.push((
        "custom-urls",
        arr(vec![
            obj(vec![("web-path", text("/a")), ("response", obj(vec![("script", text("a.lua"))]))]),
            obj(vec![
                ("method", text("BAD METHOD")),
                ("web-path", text("/b")),
                ("response", obj(vec![("script", text("b.lua"))])),
            ]),
        ]),
    ));
    let r = parse_json_config(&obj(fields));
    assert_eq!(
        r.err().unwrap(),
        "\"custom-urls\"[1] errors:\n\"BAD METHOD\" is not a valid request method\n\n"
    );
}

#[test]
fn route_errors_accumulate_per_element() {
    let mut fields = base_fields();
    let mut items = vec![];
    for _ in 0..12 {
        items.push(obj(vec![("web-path", text("/ok")), ("response", obj(vec![("script", text("x"))]))]));
    }
    items.push(obj(vec![("method", num(3)), ("response", text("nope"))]));
    fields.push(("custom-urls", arr(items)));
    let r = parse_json_config(&obj(fields));
    assert_eq!(
        r.err().unwrap(),
        "\"custom-urls\"[12] errors:\n\"method\" must be a string\n\"web-path\" must be provided\n\"custom-urls\"[12].\"response\" errors:\nresponse must be an object\n\n"
    );
}

#[test]
fn bad_port_and_root_both_reported() {
    let mut fields = base_fields();
    fields[0] = ("port", text("x"));
    fields[1] = ("public-web-root", num(5));
    let r = parse_json_config(&obj(fields));
    assert_eq!(
        r.err().unwrap(),
        "\"port\" must be an unsigned int <65536\n\"public-web-root\" must be a string\n"
    );
}

#[test]
fn port_out_of_range_rejected() {
    let mut fields = base_fields();
    fields[0] = ("port", num(65536));
    let r = parse_json_config(&obj(fields));
    assert_eq!(r.err().unwrap(), "\"port\" must be an unsigned int <65536\n");
}

#[test]
fn empty_document_reports_every_field() {
    let r = parse_json_config(&Json::Null);
    assert_eq!(
        r.err().unwrap(),
        "\"port\" not found\n\"public-web-root\" not found\n\"home-page-response\" errors:\nresponse must be an object\n\n\"not-found-response\" errors:\nresponse must be an object\n\n"
    );
}

#[test]
fn custom_urls_must_be_an_array() {
    let mut fields = base_fields();
    fields.push(("custom-urls", text("x")));
    let r = parse_json_config(&obj(fields));
    assert_eq!(r.err().unwrap(), "\"custom-urls\" must be an array\n");
}

#[test]
fn validation_is_idempotent() {
    let a = ping_config();
    let b = ping_config();
    assert_eq!(a.port, b.port);
    assert_eq!(a.public_web_root, b.public_web_root);
    assert_eq!(a.custom_urls.len(), b.custom_urls.len());
    assert_eq!(a.custom_urls[0].method, b.custom_urls[0].method);
    assert_eq!(a.custom_urls[0].web_path, b.custom_urls[0].web_path);
}

#[test]
fn duplicate_route_keys_last_wins() {
    let mut fields = base_fields();
    fields.push((
        "custom-urls",
        arr(vec![
            obj(vec![("web-path", text("/d")), ("response", obj(vec![("script", text("first"))]))]),
            obj(vec![("web-path", text("/d")), ("response", obj(vec![("script", text("second"))]))]),
        ]),
    ));
    let c = parse_json_config(&obj(fields)).ok().unwrap();
    assert_eq!(c.custom_urls.len(), 1);
    assert_eq!(c.custom_urls[0].method, "GET");
    match &c.custom_urls[0].response {
        ResponseType::Script(s) => assert_eq!(s.path, "second"),
        _ => panic!("expected a script response"),
    }
}

#[test]
fn header_number_is_coerced_to_text() {
    let r = parse_json_resource_response(&obj(vec![
        ("resource-location", text("a.txt")),
        ("headers", obj(vec![("X-Test", num(5))])),
    ]))
    .ok()
    .unwrap();
    assert_eq!(r.status_code, 200);
    assert_eq!(r.headers, vec![("X-Test".to_string(), "5".to_string())]);
}

#[test]
fn header_null_and_bool_values() {
    let r = parse_json_resource_response(&obj(vec![
        ("resource-location", text("a.txt")),
        ("headers", obj(vec![("A", Json::Null), ("B", Json::Bool(true)), ("C", text("c"))])),
    ]))
    .ok()
    .unwrap();
    assert_eq!(
        r.headers,
        vec![
            ("A".to_string(), String::new()),
            ("B".to_string(), "true".to_string()),
            ("C".to_string(), "c".to_string())
        ]
    );
}

#[test]
fn resource_errors_accumulate() {
    let r = parse_json_resource_response(&obj(vec![
        ("resource-location", num(1)),
        ("status-code", num(70000)),
        ("headers", text("h")),
    ]));
    assert_eq!(
        r.err().unwrap(),
        "\"resource-location\" must be a string\n\"status-code\" must be an unsigned int <65536\n\"headers\" must be an object\n"
    );
}

#[test]
fn script_wins_over_resource() {
    let r = parse_json_response(&obj(vec![("resource-location", text("a")), ("script", text("s.lua"))]));
    match r.ok().unwrap() {
        ResponseType::Script(s) => assert_eq!(s.path, "s.lua"),
        _ => panic!("expected a script response"),
    }
}

#[test]
fn response_needs_a_source() {
    let r = parse_json_response(&obj(vec![("status-code", num(200))]));
    assert_eq!(r.err().unwrap(), "no \"script\" or \"resource-location\" field\n");
    let r = parse_json_response(&text("x"));
    assert_eq!(r.err().unwrap(), "response must be an object\n");
}

#[test]
fn script_path_must_be_text() {
    let r = parse_json_script_response(&obj(vec![("script", num(4))]));
    assert_eq!(r.err().unwrap(), "\"script\" must be a string\n");
    let r = parse_json_response(&obj(vec![("script", num(4))]));
    assert_eq!(r.err().unwrap(), "\"script\" must be a string\n");
}

#[test]
fn empty_response_is_blank_script() {
    match empty_response() {
        ResponseType::Script(s) => assert_eq!(s.path, ""),
        _ => panic!("expected a script response"),
    }
}
