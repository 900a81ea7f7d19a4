//! Which response answers a request: home page, custom route, a file under
//! the public root, or the not-found response, first match wins.
use vstd::prelude::*;
use crate::config::ServerConfig;
use crate::json::str_eq;
use crate::routes::{find_route, lemma_route_map_at};

verus! {

/// Where a request's answer comes from.
pub enum Target {
    /// The configured home-page response.
    Home,
    /// The custom route at this index of the table.
    Custom(usize),
    /// The file at this path under the public root; when it cannot be read,
    /// the not-found response.
    Static(String),
    /// The configured not-found response.
    NotFound,
}

pub open spec fn is_home_path(path: Seq<char>) -> bool {
    path == "/"@ || path.len() == 0
}

/// The path with a single leading `/` removed.
pub open spec fn strip_slash(path: Seq<char>) -> Seq<char> {
    if path.len() > 0 && path[0] == '/' {
        path.drop_first()
    } else {
        path
    }
}

pub fn select_response(config: &ServerConfig, method: &str, path: &str) -> (r: Target)
    requires
        config.wf(),
    ensures
        method@ == "GET"@ && is_home_path(path@) ==> r is Home,
        !(method@ == "GET"@ && is_home_path(path@)) ==> match r {
            Target::Home => false,
            Target::Custom(i) => {
                &&& i < config.custom_urls@.len()
                &&& config@.custom_urls.contains_key((method@, path@))
                &&& config.custom_urls@[i as int].response@ == config@.custom_urls[(method@, path@)]
            },
            Target::Static(rel) => {
                &&& !config@.custom_urls.contains_key((method@, path@))
                &&& method@ == "GET"@
                &&& rel@ == strip_slash(path@)
            },
            Target::NotFound => {
                &&& !config@.custom_urls.contains_key((method@, path@))
                &&& method@ != "GET"@
            },
        },
{
    let is_get = str_eq(method, "GET");
    let home = str_eq(path, "/") || path.unicode_len() == 0;
    if is_get && home {
        return Target::Home;
    }
    match find_route(&config.custom_urls, method, path) {
        Some(i) => {
            proof {
                lemma_route_map_at(config.custom_urls@, i as int);
            }
            Target::Custom(i)
        },
        None => {
            if is_get {
                let n = path.unicode_len();
                if n > 0 && path.get_char(0) == '/' {
                    let rest = path.substring_char(1, n);
                    assert(rest@ =~= path@.drop_first());
                    Target::Static(String::from_str(rest))
                } else {
                    assert(path@.subrange(0, n as int) =~= path@);
                    Target::Static(String::from_str(path))
                }
            } else {
                Target::NotFound
            }
        },
    }
}

} // verus!
