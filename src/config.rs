//! Validation of a configuration document into a routing table. Every field
//! is checked, and every error is kept for the report.
use vstd::prelude::*;
use crate::json::{field, member, Json};
use crate::token::is_token;
use crate::response::{
    empty_response, pairs_view, ResourceResponse, ResourceSpec,
    ResponseSpec, ResponseType, ScriptResponse,
};
use crate::routes::{insert_route, keys_unique, route_map, Route, RouteKey};
use crate::text::{decimal, decimal_spec};

verus! {

pub const NOT_OBJECT: &'static str = "response must be an object\n";
pub const NO_SOURCE: &'static str = "no \"script\" or \"resource-location\" field\n";
pub const SCRIPT_NOT_STRING: &'static str = "\"script\" must be a string\n";
pub const LOCATION_NOT_STRING: &'static str = "\"resource-location\" must be a string\n";
pub const STATUS_BAD: &'static str = "\"status-code\" must be an unsigned int <65536\n";
pub const HEADERS_BAD: &'static str = "\"headers\" must be an object\n";
pub const PORT_BAD: &'static str = "\"port\" must be an unsigned int <65536\n";
pub const PORT_MISSING: &'static str = "\"port\" not found\n";
pub const ROOT_MISSING: &'static str = "\"public-web-root\" not found\n";
pub const ROOT_BAD: &'static str = "\"public-web-root\" must be a string\n";
pub const HOME_ERRORS: &'static str = "\"home-page-response\" errors:\n";
pub const NOT_FOUND_ERRORS: &'static str = "\"not-found-response\" errors:\n";
pub const URLS_BAD: &'static str = "\"custom-urls\" must be an array\n";
pub const METHOD_NOT_STRING: &'static str = "\"method\" must be a string\n";
pub const METHOD_INVALID: &'static str = "\" is not a valid request method\n";
pub const PATH_MISSING: &'static str = "\"web-path\" must be provided\n";
pub const PATH_NOT_STRING: &'static str = "\"web-path\" must be a string\n";
pub const ROUTE_PREFIX: &'static str = "\"custom-urls\"[";
pub const ROUTE_RESPONSE_ERRORS: &'static str = "].\"response\" errors:\n";
pub const ROUTE_ERRORS: &'static str = "] errors:\n";
pub const QUOTE: &'static str = "\"";
pub const NEWLINE: &'static str = "\n";

/// Relies on hyper's `Method::from_str` (http's `Method::from_bytes`): it
/// accepts exactly the non-empty strings of token characters.
#[verifier::external_body]
fn method_accepted(s: &str) -> (r: bool)
    ensures
        r == is_token(s@),
{
    <hyper::Method as std::str::FromStr>::from_str(s).is_ok()
}

/// The error text of a result, empty for success.
pub open spec fn errs<T>(r: Result<T, Seq<char>>) -> Seq<char> {
    match r {
        Ok(_) => Seq::empty(),
        Err(e) => e,
    }
}

/// The value of a number node that is an unsigned 16-bit integer.
pub open spec fn u16_of(v: Json) -> Option<u16> {
    match v {
        Json::Number(n) => match n.as_u64 {
            Some(u) => if u <= 65535 { Some(u as u16) } else { None },
            None => None,
        },
        _ => None,
    }
}

/// The text a header value is given: strings as they are, null as empty,
/// anything else as its document text.
pub open spec fn header_text(v: Json) -> Seq<char> {
    match v {
        Json::Null => Seq::empty(),
        Json::Bool(b) => if b { "true"@ } else { "false"@ },
        Json::Number(n) => n.text@,
        Json::Str(s) => s@,
        Json::Array(a) => a.text@,
        Json::Object(o) => o.text@,
    }
}

pub open spec fn script_spec(json: Json) -> Result<ResponseSpec, Seq<char>> {
    match field(json, "script"@) {
        Json::Str(s) => Ok(ResponseSpec::Script(s@)),
        _ => Err(SCRIPT_NOT_STRING@),
    }
}

pub open spec fn location_spec(json: Json) -> Result<Seq<char>, Seq<char>> {
    match field(json, "resource-location"@) {
        Json::Str(s) => Ok(s@),
        _ => Err(LOCATION_NOT_STRING@),
    }
}

pub open spec fn status_spec(json: Json) -> Result<u16, Seq<char>> {
    let v = field(json, "status-code"@);
    if v is Null {
        Ok(200)
    } else {
        match u16_of(v) {
            Some(c) => Ok(c),
            None => Err(STATUS_BAD@),
        }
    }
}

pub open spec fn headers_spec(json: Json) -> Result<Seq<(Seq<char>, Seq<char>)>, Seq<char>> {
    match field(json, "headers"@) {
        Json::Object(o) => Ok(o.entries@.map_values(|e: (String, Json)| (e.0@, header_text(e.1)))),
        Json::Null => Ok(Seq::empty()),
        _ => Err(HEADERS_BAD@),
    }
}

pub open spec fn resource_spec(json: Json) -> Result<ResourceSpec, Seq<char>> {
    let l = location_spec(json);
    let s = status_spec(json);
    let h = headers_spec(json);
    if l is Ok && s is Ok && h is Ok {
        Ok(ResourceSpec { path: l->Ok_0, status_code: s->Ok_0, headers: h->Ok_0 })
    } else {
        Err(errs(l) + errs(s) + errs(h))
    }
}

/// What a response node validates to.
pub open spec fn response_spec(json: Json) -> Result<ResponseSpec, Seq<char>> {
    if !(json is Object) {
        Err(NOT_OBJECT@)
    } else if !(field(json, "script"@) is Null) {
        script_spec(json)
    } else if !(field(json, "resource-location"@) is Null) {
        match resource_spec(json) {
            Ok(r) => Ok(ResponseSpec::Resource(r)),
            Err(e) => Err(e),
        }
    } else {
        Err(NO_SOURCE@)
    }
}


/// The value of `v` when it is an unsigned 16-bit integer.
pub fn u16_value(v: &Json) -> (r: Option<u16>)
    ensures
        r == u16_of(*v),
{
    match v {
        Json::Number(n) => match n.as_u64 {
            Some(u) => if u <= 65535 { Some(u as u16) } else { None },
            None => None,
        },
        _ => None,
    }
}

/// The text a header value is given.
pub fn header_string(v: &Json) -> (r: String)
    ensures
        r@ == header_text(*v),
{
    match v {
        Json::Null => String::new(),
        Json::Bool(b) => if *b { String::from_str("true") } else { String::from_str("false") },
        Json::Number(n) => n.text.clone(),
        Json::Str(s) => s.clone(),
        Json::Array(a) => a.text.clone(),
        Json::Object(o) => o.text.clone(),
    }
}

pub fn parse_json_script_response(json: &Json) -> (r: Result<ScriptResponse, String>)
    ensures
        match (r, script_spec(*json)) {
            (Ok(a), Ok(b)) => ResponseSpec::Script(a.path@) == b,
            (Err(a), Err(b)) => a@ == b,
            _ => false,
        },
{
    match member(json, "script") {
        Some(Json::Str(s)) => Ok(ScriptResponse { path: s.clone() }),
        _ => Err(String::from_str(SCRIPT_NOT_STRING)),
    }
}

/// The header pairs of an object node, values turned to text.
fn header_pairs(entries: &Vec<(String, Json)>) -> (r: Vec<(String, String)>)
    ensures
        pairs_view(r@) == entries@.map_values(|e: (String, Json)| (e.0@, header_text(e.1))),
{
    let mut r: Vec<(String, String)> = Vec::new();
    let mut i: usize = 0;
    while i < entries.len()
        invariant
            i <= entries@.len(),
            pairs_view(r@) == entries@.subrange(0, i as int).map_values(
                |e: (String, Json)| (e.0@, header_text(e.1)),
            ),
        decreases entries.len() - i,
    {
        let k = entries[i].0.clone();
        let x = header_string(&entries[i].1);
        let ghost before = r@;
        r.push((k, x));
        assert(entries@.subrange(0, i + 1) =~= entries@.subrange(0, i as int).push(entries@[i as int]));
        assert(pairs_view(r@) =~= pairs_view(before).push((k@, x@)));
        assert(entries@.subrange(0, i + 1).map_values(|e: (String, Json)| (e.0@, header_text(e.1)))
            =~= entries@.subrange(0, i as int).map_values(|e: (String, Json)| (e.0@, header_text(e.1))).push((k@, x@)));
        i = i + 1;
    }
    assert(entries@.subrange(0, entries@.len() as int) =~= entries@);
    r
}

pub fn parse_json_resource_response(json: &Json) -> (r: Result<ResourceResponse, String>)
    ensures
        match (r, resource_spec(*json)) {
            (Ok(a), Ok(b)) => a@ == b,
            (Err(a), Err(b)) => a@ == b,
            _ => false,
        },
{
    let null = Json::Null;
    let mut errors = String::new();
    let mut valid = true;
    let loc_v = match member(json, "resource-location") {
        Some(x) => x,
        None => &null,
    };
    let path = match loc_v {
        Json::Str(s) => s.clone(),
        _ => {
            errors.append(LOCATION_NOT_STRING);
            valid = false;
            String::new()
        },
    };
    let status_v = match member(json, "status-code") {
        Some(x) => x,
        None => &null,
    };
    let status_code: u16 = if matches!(status_v, Json::Null) {
        200
    } else {
        match u16_value(status_v) {
            Some(c) => c,
            None => {
                errors.append(STATUS_BAD);
                valid = false;
                0
            },
        }
    };
    let headers_v = match member(json, "headers") {
        Some(x) => x,
        None => &null,
    };
    let headers = match headers_v {
        Json::Object(o) => header_pairs(&o.entries),
        Json::Null => {
            let empty: Vec<(String, String)> = Vec::new();
            assert(pairs_view(empty@) =~= Seq::empty());
            empty
        },
        _ => {
            errors.append(HEADERS_BAD);
            valid = false;
            Vec::new()
        },
    };
    assert(errors@ =~= errs(location_spec(*json)) + errs(status_spec(*json)) + errs(headers_spec(*json)));
    if valid {
        Ok(ResourceResponse { path, status_code, headers })
    } else {
        Err(errors)
    }
}

pub fn parse_json_response(json: &Json) -> (r: Result<ResponseType, String>)
    ensures
        match (r, response_spec(*json)) {
            (Ok(a), Ok(b)) => a@ == b,
            (Err(a), Err(b)) => a@ == b,
            _ => false,
        },
{
    if !matches!(json, Json::Object(_)) {
        return Err(String::from_str(NOT_OBJECT));
    }
    if !matches!(member(json, "script"), None | Some(Json::Null)) {
        return match parse_json_script_response(json) {
            Ok(s) => Ok(ResponseType::Script(s)),
            Err(e) => Err(e),
        };
    }
    if !matches!(member(json, "resource-location"), None | Some(Json::Null)) {
        return match parse_json_resource_response(json) {
            Ok(res) => Ok(ResponseType::Resource(res)),
            Err(e) => Err(e),
        };
    }
    Err(String::from_str(NO_SOURCE))
}

pub open spec fn method_spec(route: Json) -> Result<Seq<char>, Seq<char>> {
    match field(route, "method"@) {
        Json::Str(s) => if is_token(s@) { Ok(s@) } else { Err(QUOTE@ + s@ + METHOD_INVALID@) },
        Json::Null => Ok("GET"@),
        _ => Err(METHOD_NOT_STRING@),
    }
}

pub open spec fn web_path_spec(route: Json) -> Result<Seq<char>, Seq<char>> {
    match field(route, "web-path"@) {
        Json::Str(s) => Ok(s@),
        Json::Null => Err(PATH_MISSING@),
        _ => Err(PATH_NOT_STRING@),
    }
}

pub open spec fn route_response_spec(route: Json, index: nat) -> Result<ResponseSpec, Seq<char>> {
    match response_spec(field(route, "response"@)) {
        Ok(r) => Ok(r),
        Err(e) => Err(ROUTE_PREFIX@ + decimal_spec(index) + ROUTE_RESPONSE_ERRORS@ + e),
    }
}

/// What the route element at `index` validates to: its key and response, or
/// its block of the report.
pub open spec fn route_spec(route: Json, index: nat) -> Result<(RouteKey, ResponseSpec), Seq<char>> {
    let m = method_spec(route);
    let p = web_path_spec(route);
    let r = route_response_spec(route, index);
    if m is Ok && p is Ok && r is Ok {
        Ok(((m->Ok_0, p->Ok_0), r->Ok_0))
    } else {
        Err(ROUTE_PREFIX@ + decimal_spec(index) + ROUTE_ERRORS@ + errs(m) + errs(p) + errs(r) + NEWLINE@)
    }
}

/// The table built from the first `n` route elements: each valid one is
/// inserted in turn, replacing an earlier entry with its key.
pub open spec fn routes_spec(items: Seq<Json>, n: nat) -> Map<RouteKey, ResponseSpec>
    decreases n,
{
    if n == 0 {
        Map::empty()
    } else {
        let prev = routes_spec(items, (n - 1) as nat);
        match route_spec(items[n - 1], (n - 1) as nat) {
            Ok(e) => prev.insert(e.0, e.1),
            Err(_) => prev,
        }
    }
}

/// The report blocks of the first `n` route elements, in order.
pub open spec fn route_errors_spec(items: Seq<Json>, n: nat) -> Seq<char>
    decreases n,
{
    if n == 0 {
        Seq::empty()
    } else {
        route_errors_spec(items, (n - 1) as nat) + errs(route_spec(items[n - 1], (n - 1) as nat))
    }
}

pub open spec fn routes_valid(items: Seq<Json>, n: nat) -> bool {
    forall|i: int| 0 <= i < n ==> #[trigger] route_spec(items[i], i as nat) is Ok
}

/// The table, the report and the verdict of the `custom-urls` field.
pub open spec fn urls_spec(doc: Json) -> (Map<RouteKey, ResponseSpec>, Seq<char>, bool) {
    match field(doc, "custom-urls"@) {
        Json::Array(a) => (
            routes_spec(a.items@, a.items@.len()),
            route_errors_spec(a.items@, a.items@.len()),
            routes_valid(a.items@, a.items@.len()),
        ),
        Json::Null => (Map::empty(), Seq::empty(), true),
        _ => (Map::empty(), URLS_BAD@, false),
    }
}

pub open spec fn port_spec(doc: Json) -> Result<u16, Seq<char>> {
    let v = field(doc, "port"@);
    if v is Null {
        Err(PORT_MISSING@)
    } else {
        match u16_of(v) {
            Some(p) => Ok(p),
            None => Err(PORT_BAD@),
        }
    }
}

pub open spec fn root_spec(doc: Json) -> Result<Seq<char>, Seq<char>> {
    match field(doc, "public-web-root"@) {
        Json::Str(s) => Ok(s@),
        Json::Null => Err(ROOT_MISSING@),
        _ => Err(ROOT_BAD@),
    }
}

pub open spec fn page_spec(doc: Json, key: Seq<char>, heading: Seq<char>) -> Result<ResponseSpec, Seq<char>> {
    match response_spec(field(doc, key)) {
        Ok(r) => Ok(r),
        Err(e) => Err(heading + e + NEWLINE@),
    }
}

/// A validated configuration.
pub struct ConfigSpec {
    pub port: u16,
    pub public_web_root: Seq<char>,
    pub home_page_response: ResponseSpec,
    pub not_found_response: ResponseSpec,
    pub custom_urls: Map<RouteKey, ResponseSpec>,
}

/// What a configuration document validates to: the configuration when every
/// field and every route is valid, else the report of all errors in field
/// order.
pub open spec fn config_spec(doc: Json) -> Result<ConfigSpec, Seq<char>> {
    let port = port_spec(doc);
    let root = root_spec(doc);
    let home = page_spec(doc, "home-page-response"@, HOME_ERRORS@);
    let nf = page_spec(doc, "not-found-response"@, NOT_FOUND_ERRORS@);
    let urls = urls_spec(doc);
    if port is Ok && root is Ok && home is Ok && nf is Ok && urls.2 {
        Ok(ConfigSpec {
            port: port->Ok_0,
            public_web_root: root->Ok_0,
            home_page_response: home->Ok_0,
            not_found_response: nf->Ok_0,
            custom_urls: urls.0,
        })
    } else {
        Err(errs(port) + errs(root) + errs(home) + errs(nf) + urls.1)
    }
}

/// The configuration a server runs with.
pub struct ServerConfig {
    pub port: u16,
    pub public_web_root: String,
    pub home_page_response: ResponseType,
    pub not_found_response: ResponseType,
    pub custom_urls: Vec<Route>,
}

impl ServerConfig {
    /// Each route key appears once in the table.
    pub open spec fn wf(&self) -> bool {
        keys_unique(self.custom_urls@)
    }
}

impl View for ServerConfig {
    type V = ConfigSpec;

    open spec fn view(&self) -> ConfigSpec {
        ConfigSpec {
            port: self.port,
            public_web_root: self.public_web_root@,
            home_page_response: self.home_page_response@,
            not_found_response: self.not_found_response@,
            custom_urls: route_map(self.custom_urls@),
        }
    }
}

fn parse_method(route: &Json) -> (r: Result<String, String>)
    ensures
        match (r, method_spec(*route)) {
            (Ok(a), Ok(b)) => a@ == b,
            (Err(a), Err(b)) => a@ == b,
            _ => false,
        },
{
    match member(route, "method") {
        Some(Json::Str(s)) => {
            if method_accepted(s.as_str()) {
                Ok(s.clone())
            } else {
                let mut e = String::from_str(QUOTE);
                e.append(s.as_str());
                e.append(METHOD_INVALID);
                Err(e)
            }
        },
        None | Some(Json::Null) => Ok(String::from_str("GET")),
        _ => Err(String::from_str(METHOD_NOT_STRING)),
    }
}

fn parse_web_path(route: &Json) -> (r: Result<String, String>)
    ensures
        match (r, web_path_spec(*route)) {
            (Ok(a), Ok(b)) => a@ == b,
            (Err(a), Err(b)) => a@ == b,
            _ => false,
        },
{
    match member(route, "web-path") {
        Some(Json::Str(s)) => Ok(s.clone()),
        None | Some(Json::Null) => Err(String::from_str(PATH_MISSING)),
        _ => Err(String::from_str(PATH_NOT_STRING)),
    }
}

fn parse_route_response(route: &Json, index: usize) -> (r: Result<ResponseType, String>)
    ensures
        match (r, route_response_spec(*route, index as nat)) {
            (Ok(a), Ok(b)) => a@ == b,
            (Err(a), Err(b)) => a@ == b,
            _ => false,
        },
{
    let null = Json::Null;
    let response_v = match member(route, "response") {
        Some(x) => x,
        None => &null,
    };
    match parse_json_response(response_v) {
        Ok(resp) => Ok(resp),
        Err(e) => {
            let mut report = String::from_str(ROUTE_PREFIX);
            report.append(decimal(index).as_str());
            report.append(ROUTE_RESPONSE_ERRORS);
            report.append(e.as_str());
            Err(report)
        },
    }
}

/// The error text of a result, empty for success.
fn error_text<T>(r: &Result<T, String>) -> (e: String)
    ensures
        e@ == match r {
            Ok(_) => Seq::<char>::empty(),
            Err(x) => x@,
        },
{
    match r {
        Ok(_) => String::new(),
        Err(x) => x.clone(),
    }
}

/// Validates one element of `custom-urls`.
pub fn parse_route(route: &Json, index: usize) -> (r: Result<Route, String>)
    ensures
        match (r, route_spec(*route, index as nat)) {
            (Ok(a), Ok(b)) => a.key() == b.0 && a.response@ == b.1,
            (Err(a), Err(b)) => a@ == b,
            _ => false,
        },
{
    let method = parse_method(route);
    let web_path = parse_web_path(route);
    let response = parse_route_response(route, index);
    match (method, web_path, response) {
        (Ok(m), Ok(p), Ok(resp)) => Ok(Route { method: m, web_path: p, response: resp }),
        (m, p, resp) => {
            let mut report = String::from_str(ROUTE_PREFIX);
            report.append(decimal(index).as_str());
            report.append(ROUTE_ERRORS);
            report.append(error_text(&m).as_str());
            report.append(error_text(&p).as_str());
            report.append(error_text(&resp).as_str());
            report.append(NEWLINE);
            Err(report)
        },
    }
}

fn parse_port(doc: &Json) -> (r: Result<u16, String>)
    ensures
        match (r, port_spec(*doc)) {
            (Ok(a), Ok(b)) => a == b,
            (Err(a), Err(b)) => a@ == b,
            _ => false,
        },
{
    match member(doc, "port") {
        None | Some(Json::Null) => Err(String::from_str(PORT_MISSING)),
        Some(v) => match u16_value(v) {
            Some(p) => Ok(p),
            None => Err(String::from_str(PORT_BAD)),
        },
    }
}

fn parse_root(doc: &Json) -> (r: Result<String, String>)
    ensures
        match (r, root_spec(*doc)) {
            (Ok(a), Ok(b)) => a@ == b,
            (Err(a), Err(b)) => a@ == b,
            _ => false,
        },
{
    match member(doc, "public-web-root") {
        Some(Json::Str(s)) => Ok(s.clone()),
        None | Some(Json::Null) => Err(String::from_str(ROOT_MISSING)),
        _ => Err(String::from_str(ROOT_BAD)),
    }
}

fn parse_page(doc: &Json, key: &str, heading: &str) -> (r: Result<ResponseType, String>)
    ensures
        match (r, page_spec(*doc, key@, heading@)) {
            (Ok(a), Ok(b)) => a@ == b,
            (Err(a), Err(b)) => a@ == b,
            _ => false,
        },
{
    let null = Json::Null;
    let v = match member(doc, key) {
        Some(x) => x,
        None => &null,
    };
    match parse_json_response(v) {
        Ok(resp) => Ok(resp),
        Err(e) => {
            let mut report = String::from_str(heading);
            report.append(e.as_str());
            report.append(NEWLINE);
            Err(report)
        },
    }
}

/// Validates each element of a route array: the table of the valid ones,
/// the report of the others, and whether all were valid.
fn parse_routes(items: &Vec<Json>) -> (r: (Vec<Route>, String, bool))
    ensures
        keys_unique(r.0@),
        route_map(r.0@) == routes_spec(items@, items@.len()),
        r.1@ == route_errors_spec(items@, items@.len()),
        r.2 == routes_valid(items@, items@.len()),
{
    let mut routes: Vec<Route> = Vec::new();
    let mut errors = String::new();
    let mut valid = true;
    let mut i: usize = 0;
    assert(route_map(routes@) =~= Map::empty());
    while i < items.len()
        invariant
            i <= items@.len(),
            keys_unique(routes@),
            route_map(routes@) == routes_spec(items@, i as nat),
            errors@ == route_errors_spec(items@, i as nat),
            valid == routes_valid(items@, i as nat),
        decreases items.len() - i,
    {
        match parse_route(&items[i], i) {
            Ok(route) => {
                insert_route(&mut routes, route);
            },
            Err(e) => {
                errors.append(e.as_str());
                valid = false;
            },
        }
        assert(errors@ =~= route_errors_spec(items@, (i + 1) as nat));
        i = i + 1;
    }
    (routes, errors, valid)
}

fn parse_urls(doc: &Json) -> (r: (Vec<Route>, String, bool))
    ensures
        keys_unique(r.0@),
        route_map(r.0@) == urls_spec(*doc).0,
        r.1@ == urls_spec(*doc).1,
        r.2 == urls_spec(*doc).2,
{
    match member(doc, "custom-urls") {
        Some(Json::Array(a)) => parse_routes(&a.items),
        None | Some(Json::Null) => {
            let routes: Vec<Route> = Vec::new();
            assert(route_map(routes@) =~= Map::empty());
            (routes, String::new(), true)
        },
        _ => {
            let routes: Vec<Route> = Vec::new();
            assert(route_map(routes@) =~= Map::empty());
            (routes, String::from_str(URLS_BAD), false)
        },
    }
}

/// Validates a configuration document. All fields are checked; on failure
/// the report holds every error found.
pub fn parse_json_config(json: &Json) -> (r: Result<ServerConfig, String>)
    ensures
        validates_to(r, *json),
{
    let port = parse_port(json);
    let root = parse_root(json);
    let home = parse_page(json, "home-page-response", HOME_ERRORS);
    let not_found = parse_page(json, "not-found-response", NOT_FOUND_ERRORS);
    let (custom_urls, url_errors, urls_valid) = parse_urls(json);
    match (port, root, home, not_found) {
        (Ok(port), Ok(public_web_root), Ok(home_page_response), Ok(not_found_response)) => {
            if urls_valid {
                return Ok(ServerConfig {
                    port,
                    public_web_root,
                    home_page_response,
                    not_found_response,
                    custom_urls,
                });
            }
            let ghost e = url_errors@;
            assert(url_errors@ =~= Seq::<char>::empty() + Seq::<char>::empty() + Seq::<char>::empty() + Seq::<char>::empty() + e);
            Err(url_errors)
        },
        (port, root, home, not_found) => {
            let mut report = error_text(&port);
            report.append(error_text(&root).as_str());
            report.append(error_text(&home).as_str());
            report.append(error_text(&not_found).as_str());
            report.append(url_errors.as_str());
            Err(report)
        },
    }
}

/// The route element at `i` is free of errors and has key `k`.
pub open spec fn element_has_key(items: Seq<Json>, i: int, k: RouteKey) -> bool {
    &&& route_spec(items[i], i as nat) is Ok
    &&& route_spec(items[i], i as nat)->Ok_0.0 == k
}

/// The table built from route elements holds a key exactly when some
/// error-free element has it, and then the response of the last such element.
pub proof fn lemma_routes_table(items: Seq<Json>, n: nat, k: RouteKey)
    requires
        n <= items.len(),
    ensures
        routes_spec(items, n).contains_key(k) <==> exists|i: int| 0 <= i < n && #[trigger] element_has_key(items, i, k),
        forall|i: int|
            0 <= i < n && #[trigger] element_has_key(items, i, k) && (forall|j: int| i < j < n ==> !element_has_key(items, j, k))
                ==> routes_spec(items, n)[k] == route_spec(items[i], i as nat)->Ok_0.1,
    decreases n,
{
    if n > 0 {
        lemma_routes_table(items, (n - 1) as nat, k);
        let last = (n - 1) as int;
        if element_has_key(items, last, k) {
            assert(exists|i: int| 0 <= i < n && #[trigger] element_has_key(items, i, k));
        } else {
            assert forall|i: int| 0 <= i < n && #[trigger] element_has_key(items, i, k) implies 0 <= i < n - 1 by {}
        }
        assert forall|i: int|
            0 <= i < n && #[trigger] element_has_key(items, i, k) && (forall|j: int| i < j < n ==> !element_has_key(items, j, k))
            implies routes_spec(items, n)[k] == route_spec(items[i], i as nat)->Ok_0.1 by {
            if i < last {
                assert(!element_has_key(items, last, k));
            }
        }
    }
}

/// For a valid document, the routing table holds exactly the keys of the
/// route elements, each with the response of the last element that has it.
pub proof fn lemma_valid_config_routes(doc: Json, k: RouteKey)
    requires
        config_spec(doc) is Ok,
        field(doc, "custom-urls"@) is Array,
    ensures
        ({
            let items = field(doc, "custom-urls"@)->Array_0.items@;
            let table = config_spec(doc)->Ok_0.custom_urls;
            &&& forall|i: int| 0 <= i < items.len() ==> #[trigger] route_spec(items[i], i as nat) is Ok
            &&& (table.contains_key(k) <==> exists|i: int| 0 <= i < items.len() && #[trigger] element_has_key(items, i, k))
            &&& forall|i: int|
                0 <= i < items.len() && #[trigger] element_has_key(items, i, k)
                    && (forall|j: int| i < j < items.len() ==> !element_has_key(items, j, k))
                    ==> table[k] == route_spec(items[i], i as nat)->Ok_0.1
        }),
{
    let items = field(doc, "custom-urls"@)->Array_0.items@;
    lemma_routes_table(items, items.len(), k);
}

/// `e` occurs in `report`.
pub open spec fn occurs_in(e: Seq<char>, report: Seq<char>) -> bool {
    exists|a: Seq<char>, b: Seq<char>| report == a + e + b
}

/// Errors do not mask one another: when any field is in error the document
/// fails, and the report holds the error text of every field.
pub proof fn lemma_errors_not_masked(doc: Json)
    requires
        !(port_spec(doc) is Ok && root_spec(doc) is Ok
            && page_spec(doc, "home-page-response"@, HOME_ERRORS@) is Ok
            && page_spec(doc, "not-found-response"@, NOT_FOUND_ERRORS@) is Ok && urls_spec(doc).2),
    ensures
        config_spec(doc) is Err,
        occurs_in(errs(port_spec(doc)), config_spec(doc)->Err_0),
        occurs_in(errs(root_spec(doc)), config_spec(doc)->Err_0),
        occurs_in(errs(page_spec(doc, "home-page-response"@, HOME_ERRORS@)), config_spec(doc)->Err_0),
        occurs_in(errs(page_spec(doc, "not-found-response"@, NOT_FOUND_ERRORS@)), config_spec(doc)->Err_0),
        occurs_in(urls_spec(doc).1, config_spec(doc)->Err_0),
{
    let p = errs(port_spec(doc));
    let r = errs(root_spec(doc));
    let h = errs(page_spec(doc, "home-page-response"@, HOME_ERRORS@));
    let f = errs(page_spec(doc, "not-found-response"@, NOT_FOUND_ERRORS@));
    let u = urls_spec(doc).1;
    let report = config_spec(doc)->Err_0;
    assert(report == p + r + h + f + u);
    assert(report =~= Seq::<char>::empty() + p + (r + h + f + u));
    assert(report =~= p + r + (h + f + u));
    assert(report =~= (p + r) + h + (f + u));
    assert(report =~= (p + r + h) + f + u);
    assert(report =~= (p + r + h + f) + u + Seq::<char>::empty());
}

/// `r` is what validating `doc` gives.
pub open spec fn validates_to(r: Result<ServerConfig, String>, doc: Json) -> bool {
    match (r, config_spec(doc)) {
        (Ok(a), Ok(b)) => a.wf() && a@ == b,
        (Err(a), Err(b)) => a@ == b,
        _ => false,
    }
}

/// Validating a document twice gives the same configuration, or the same
/// report.
pub proof fn lemma_validation_idempotent(doc: Json, first: Result<ServerConfig, String>, second: Result<ServerConfig, String>)
    requires
        validates_to(first, doc),
        validates_to(second, doc),
    ensures
        first is Ok <==> second is Ok,
        first is Ok ==> first->Ok_0@ == second->Ok_0@,
        first is Err ==> first->Err_0@ == second->Err_0@,
{
}

} // verus!
