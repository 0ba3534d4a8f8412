//! The HTTP surface as data: methods, routes, responses, and the single
//! dispatch function from a request to an action on the store.

use vstd::prelude::*;
use crate::errors::LinkError;
use crate::manager::create_link;
use crate::render::{render_page, render_page_spec};
use crate::resolver::resolve;
use crate::store::{has_alias, keep_other_ids, lookup, LinkView, Store};
use crate::urlcheck::canonical_url;
use crate::util::{dec_val, is_digits, parse_id, str_eq};

verus! {

/// The request methods the shortener serves.
#[derive(Clone, Copy, Debug, PartialEq, Eq, Structural)]
pub enum Method {
    Get,
    Post,
    Delete,
}

/// Where a request goes: one action per row of the routing table, or
/// `NotRoute` for everything else.
pub enum Route {
    /// GET `/`: the rendered link list.
    Home,
    /// GET `/favicon.ico`: nothing.
    Favicon,
    /// GET `/{alias}`: redirect to the alias's target.
    Resolve(String),
    /// POST `/links`: create a link from the form body.
    Create,
    /// DELETE `/links/{id}`: delete the link with this id.
    Delete(i64),
    /// Anything else.
    NotRoute,
}

/// The mathematical value of a `Route`.
pub ghost enum RouteSpec {
    Home,
    Favicon,
    Resolve(Seq<char>),
    Create,
    Delete(int),
    NotRoute,
}

impl View for Route {
    type V = RouteSpec;

    open spec fn view(&self) -> RouteSpec {
        match self {
            Route::Home => RouteSpec::Home,
            Route::Favicon => RouteSpec::Favicon,
            Route::Resolve(a) => RouteSpec::Resolve(a@),
            Route::Create => RouteSpec::Create,
            Route::Delete(id) => RouteSpec::Delete(*id as int),
            Route::NotRoute => RouteSpec::NotRoute,
        }
    }
}

/// A path of the shape `/{alias}`: a single non-empty segment.
pub open spec fn is_alias_path(p: Seq<char>) -> bool {
    p.len() >= 2 && p[0] == '/' && (forall|i: int| 1 <= i < p.len() ==> p[i] != '/')
}

/// The id in a path of the shape `/links/{id}`, when the part after the
/// prefix is a decimal number that fits an `i64`.
pub open spec fn delete_id_of(p: Seq<char>) -> Option<int> {
    if p.len() > 7 && p.take(7) == "/links/"@ && is_digits(p.skip(7)) && dec_val(p.skip(7))
        <= i64::MAX {
        Some(dec_val(p.skip(7)))
    } else {
        None
    }
}

/// The routing table of the shortener, in order of precedence.
pub open spec fn spec_route(m: Method, p: Seq<char>) -> RouteSpec {
    if m == Method::Get && p == "/"@ {
        RouteSpec::Home
    } else if m == Method::Get && p == "/favicon.ico"@ {
        RouteSpec::Favicon
    } else if m == Method::Get && is_alias_path(p) {
        RouteSpec::Resolve(p.skip(1))
    } else if m == Method::Post && p == "/links"@ {
        RouteSpec::Create
    } else if m == Method::Delete {
        match delete_id_of(p) {
            Some(id) => RouteSpec::Delete(id),
            None => RouteSpec::NotRoute,
        }
    } else {
        RouteSpec::NotRoute
    }
}

/// Decides whether `path` is a single non-empty segment.
fn check_alias_path(path: &str) -> (r: bool)
    ensures
        r == is_alias_path(path@),
{
    let n = path.unicode_len();
    if n < 2 {
        return false;
    }
    if path.get_char(0) != '/' {
        return false;
    }
    let mut i: usize = 1;
    while i < n
        invariant
            n == path@.len(),
            1 <= i <= n,
            forall|k: int| 1 <= k < i ==> path@[k] != '/',
        decreases n - i,
    {
        if path.get_char(i) == '/' {
            return false;
        }
        i = i + 1;
    }
    true
}

/// Maps a request's method and path to its route.
pub fn route_of(method: Method, path: &str) -> (r: Route)
    ensures
        r@ == spec_route(method, path@),
{
    match method {
        Method::Get => {
            if str_eq(path, "/") {
                Route::Home
            } else if str_eq(path, "/favicon.ico") {
                Route::Favicon
            } else if check_alias_path(path) {
                let n = path.unicode_len();
                let alias = path.substring_char(1, n);
                proof {
                    assert(alias@ =~= path@.skip(1));
                }
                Route::Resolve(alias.to_owned())
            } else {
                Route::NotRoute
            }
        },
        Method::Post => {
            if str_eq(path, "/links") {
                Route::Create
            } else {
                Route::NotRoute
            }
        },
        Method::Delete => {
            let n = path.unicode_len();
            if n >= 8 {
                let head = path.substring_char(0, 7);
                proof {
                    assert(head@ =~= path@.take(7));
                }
                if str_eq(head, "/links/") {
                    let rest = path.substring_char(7, n);
                    proof {
                        assert(rest@ =~= path@.skip(7));
                    }
                    match parse_id(rest) {
                        Some(id) => Route::Delete(id),
                        None => Route::NotRoute,
                    }
                } else {
                    Route::NotRoute
                }
            } else {
                Route::NotRoute
            }
        },
    }
}

/// The form body of a create request.
pub struct FormInput {
    pub alias: String,
    pub target_url: String,
}

/// What the shortener answers: a rendered page, a redirect, an empty
/// success, or a failure carrying its error kind.
pub enum Response {
    /// 200 with an HTML body.
    Page(String),
    /// 303 to the carried location.
    Redirect(String),
    /// 204, for the favicon.
    NoContent,
    /// 200 with an empty body, for a completed delete.
    Done,
    /// The status and message of the carried error.
    Failed(LinkError),
}

impl Response {
    pub open spec fn spec_status(self) -> u16 {
        match self {
            Response::Page(_) => 200u16,
            Response::Redirect(_) => 303u16,
            Response::NoContent => 204u16,
            Response::Done => 200u16,
            Response::Failed(e) => e.spec_status(),
        }
    }

    /// The HTTP status code of this response.
    pub fn status(&self) -> (s: u16)
        ensures
            s == self.spec_status(),
    {
        match self {
            Response::Page(_) => 200,
            Response::Redirect(_) => 303,
            Response::NoContent => 204,
            Response::Done => 200,
            Response::Failed(e) => e.status(),
        }
    }
}

/// Serves one request against the store: looks the route up and performs
/// its action. The contract restates, route by route, what the action
/// does to the store and what the response carries.
pub fn handle(store: &mut Store, method: Method, path: &str, form: Option<FormInput>) -> (r:
    Response)
    requires
        old(store).wf(),
    ensures
        final(store).wf(),
        spec_route(method, path@) == RouteSpec::Home ==> final(store)@ == old(store)@ && final(store).spec_next_id() == old(store).spec_next_id() && (r matches Response::Page(b) && b@
            == render_page_spec(old(store)@)),
        spec_route(method, path@) == RouteSpec::Favicon ==> final(store)@ == old(store)@ && final(store).spec_next_id() == old(store).spec_next_id() && r == Response::NoContent,
        spec_route(method, path@) matches RouteSpec::Resolve(a) ==> final(store)@ == old(store)@
            && final(store).spec_next_id() == old(store).spec_next_id() && (match lookup(
            old(store)@,
            a,
        ) {
            Some(lv) => r matches Response::Redirect(t) && t@ == lv.target_url,
            None => r == Response::Failed(LinkError::NotFound),
        }),
        spec_route(method, path@) == RouteSpec::Create ==> (match form {
            Some(f) => {
                &&& canonical_url(f.target_url@) is None ==> r == Response::Failed(
                    LinkError::InvalidUrl,
                ) && final(store)@ == old(store)@ && final(store).spec_next_id() == old(store).spec_next_id()
                &&& canonical_url(f.target_url@) matches Some(c) ==> {
                    &&& has_alias(old(store)@, f.alias@) ==> r == Response::Failed(
                        LinkError::DuplicateAlias,
                    ) && final(store)@ == old(store)@ && final(store).spec_next_id() == old(store).spec_next_id()
                    &&& !has_alias(old(store)@, f.alias@) && old(store).spec_next_id() == i64::MAX
                        ==> r == Response::Failed(LinkError::Storage) && final(store)@ == old(store)@ && final(store).spec_next_id() == old(store).spec_next_id()
                    &&& !has_alias(old(store)@, f.alias@) && old(store).spec_next_id() < i64::MAX
                        ==> (r matches Response::Redirect(loc) && loc@ == "/"@) && final(store)@
                        == old(store)@.push(
                        LinkView {
                            id: old(store).spec_next_id(),
                            alias: f.alias@,
                            target_url: c,
                        },
                    ) && final(store).spec_next_id() == old(store).spec_next_id() + 1
                }
            },
            None => r == Response::Failed(LinkError::InvalidUrl) && final(store)@ == old(store)@
                && final(store).spec_next_id() == old(store).spec_next_id(),
        }),
        spec_route(method, path@) matches RouteSpec::Delete(id) ==> final(store)@ == old(store)@.filter(keep_other_ids(id)) && final(store).spec_next_id() == old(store).spec_next_id()
            && r == Response::Done,
        spec_route(method, path@) == RouteSpec::NotRoute ==> final(store)@ == old(store)@ && final(store).spec_next_id() == old(store).spec_next_id() && r == Response::Failed(LinkError::NotFound),
{
    let route = route_of(method, path);
    match route {
        Route::Home => {
            let page = render_page(store.list());
            Response::Page(page)
        },
        Route::Favicon => Response::NoContent,
        Route::Resolve(alias) => {
            match resolve(store, alias.as_str()) {
                Ok(t) => Response::Redirect(t),
                Err(e) => Response::Failed(e),
            }
        },
        Route::Create => {
            match form {
                Some(f) => {
                    match create_link(store, f.alias, f.target_url) {
                        Ok(_) => Response::Redirect("/".to_owned()),
                        Err(e) => Response::Failed(e),
                    }
                },
                None => Response::Failed(LinkError::InvalidUrl),
            }
        },
        Route::Delete(id) => {
            store.delete_by_id(id);
            Response::Done
        },
        Route::NotRoute => Response::Failed(LinkError::NotFound),
    }
}

} // verus!
