use ito::errors::LinkError;
use ito::render::render_page;
use ito::router::{handle, route_of, FormInput, Method, Response, Route};
use ito::store::{Link, Store};
use ito::util::parse_id;

const PAGE_HEAD: &str =
    "<!DOCTYPE html><html><head><title>ito</title></head><body><h1>Links</h1><ul>";
const PAGE_TAIL: &str = "</ul><form method=\"post\" action=\"/links\"><input name=\"alias\"><input name=\"target_url\"><button>create</button></form></body></html>";

#[test]
fn end_to_end_create_resolve_list() {
    let mut store = Store::new();
    let form = FormInput { alias: "foo".to_owned(), target_url: "https://example.com".to_owned() };
    match handle(&mut store, Method::Post, "/links", Some(form)) {
        Response::Redirect(loc) => assert_eq!(loc, "/"),
        _ => panic!("create should redirect home"),
    }
    match handle(&mut store, Method::Get, "/foo", None) {
        Response::Redirect(loc) => assert_eq!(loc, "https://example.com/"),
        _ => panic!("alias should redirect to its target"),
    }
    match handle(&mut store, Method::Get, "/", None) {
        Response::Page(body) => {
            assert!(body.contains(">foo</a>"));
            assert!(body.contains("https://example.com/"));
            assert!(body.contains("(id 1)"));
        },
        _ => panic!("home should render the list"),
    }
}

#[test]
fn favicon_returns_no_content() {
    let mut store = Store::new();
    let r = handle(&mut store, Method::Get, "/favicon.ico", None);
    assert!(matches!(r, Response::NoContent));
    assert_eq!(r.status(), 204);
}

#[test]
fn unknown_alias_is_a_404() {
    let mut store = Store::new();
    let r = handle(&mut store, Method::Get, "/nope", None);
    match &r {
        Response::Failed(e) => assert_eq!(*e, LinkError::NotFound),
        _ => panic!("unknown alias should fail"),
    }
    assert_eq!(r.status(), 404);
}

#[test]
fn duplicate_create_is_a_400() {
    let mut store = Store::new();
    let form = FormInput { alias: "a".to_owned(), target_url: "https://a.example".to_owned() };
    handle(&mut store, Method::Post, "/links", Some(form));
    let form = FormInput { alias: "a".to_owned(), target_url: "https://b.example".to_owned() };
    let r = handle(&mut store, Method::Post, "/links", Some(form));
    match &r {
        Response::Failed(e) => assert_eq!(*e, LinkError::DuplicateAlias),
        _ => panic!("duplicate alias should fail"),
    }
    assert_eq!(r.status(), 400);
    assert_eq!(store.list().len(), 1);
}

#[test]
fn malformed_target_is_a_400() {
    let mut store = Store::new();
    let form = FormInput { alias: "x".to_owned(), target_url: "not a url".to_owned() };
    let r = handle(&mut store, Method::Post, "/links", Some(form));
    match &r {
        Response::Failed(e) => assert_eq!(*e, LinkError::InvalidUrl),
        _ => panic!("malformed target should fail"),
    }
    assert_eq!(r.status(), 400);
    assert!(store.list().is_empty());
}

#[test]
fn delete_route_removes_and_tolerates_absent_ids() {
    let mut store = Store::new();
    let form = FormInput { alias: "a".to_owned(), target_url: "https://a.example".to_owned() };
    handle(&mut store, Method::Post, "/links", Some(form));
    let r = handle(&mut store, Method::Delete, "/links/1", None);
    assert!(matches!(r, Response::Done));
    assert!(store.list().is_empty());
    let r = handle(&mut store, Method::Delete, "/links/999", None);
    assert!(matches!(r, Response::Done));
    let r = handle(&mut store, Method::Delete, "/links/abc", None);
    assert!(matches!(r, Response::Failed(LinkError::NotFound)));
}

#[test]
fn routing_table() {
    assert!(matches!(route_of(Method::Get, "/"), Route::Home));
    assert!(matches!(route_of(Method::Get, "/favicon.ico"), Route::Favicon));
    match route_of(Method::Get, "/foo") {
        Route::Resolve(a) => assert_eq!(a, "foo"),
        _ => panic!("single segment should resolve"),
    }
    assert!(matches!(route_of(Method::Get, "/a/b"), Route::NotRoute));
    assert!(matches!(route_of(Method::Get, ""), Route::NotRoute));
    assert!(matches!(route_of(Method::Post, "/links"), Route::Create));
    assert!(matches!(route_of(Method::Post, "/other"), Route::NotRoute));
    match route_of(Method::Delete, "/links/42") {
        Route::Delete(id) => assert_eq!(id, 42),
        _ => panic!("delete with numeric id should route"),
    }
    assert!(matches!(route_of(Method::Delete, "/links/"), Route::NotRoute));
    assert!(matches!(route_of(Method::Delete, "/links/-1"), Route::NotRoute));
    assert!(matches!(route_of(Method::Delete, "/other/1"), Route::NotRoute));
}

#[test]
fn parse_id_accepts_digits_only() {
    assert_eq!(parse_id("0"), Some(0));
    assert_eq!(parse_id("123"), Some(123));
    assert_eq!(parse_id("9223372036854775807"), Some(i64::MAX));
    assert_eq!(parse_id("9223372036854775808"), None);
    assert_eq!(parse_id(""), None);
    assert_eq!(parse_id("12a"), None);
    assert_eq!(parse_id("-5"), None);
}

#[test]
fn render_empty_list_exactly() {
    let links: Vec<Link> = Vec::new();
    let body = render_page(&links);
    assert_eq!(body, format!("{}{}", PAGE_HEAD, PAGE_TAIL));
}

#[test]
fn render_escapes_and_numbers_exactly() {
    let links = vec![Link {
        id: 7,
        alias: "<b>&\"'tag".to_owned(),
        target_url: "https://e.example/".to_owned(),
    }];
    let body = render_page(&links);
    let row = "<li><a href=\"https://e.example/\">&lt;b&gt;&amp;&quot;&#x27;tag</a> \
               &rarr; https://e.example/ (id 7)</li>";
    assert_eq!(body, format!("{}{}{}", PAGE_HEAD, row, PAGE_TAIL));
}

#[test]
fn render_lists_links_in_insertion_order() {
    let links = vec![
        Link { id: 1, alias: "a".to_owned(), target_url: "https://a.example/".to_owned() },
        Link { id: 2, alias: "b".to_owned(), target_url: "https://b.example/".to_owned() },
    ];
    let body = render_page(&links);
    let a = body.find("(id 1)").unwrap();
    let b = body.find("(id 2)").unwrap();
    assert!(a < b);
}
