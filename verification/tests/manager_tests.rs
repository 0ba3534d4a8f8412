use ito::errors::LinkError;
use ito::manager::{create_link, delete_link};
use ito::resolver::resolve;
use ito::store::Store;
use ito::urlcheck::validate_target;

#[test]
fn create_stores_the_canonical_url() {
    let mut store = Store::new();
    let id = create_link(&mut store, "foo".to_owned(), "HTTPS://EXAMPLE.com".to_owned()).unwrap();
    assert_eq!(id, 1);
    // The scheme and host are lowered and a path is added: the stored
    // target is the parser's canonical form, not the input echoed back.
    assert_eq!(resolve(&store, "foo").unwrap(), "https://example.com/");
}

#[test]
fn create_rejects_malformed_target_and_leaves_store_unchanged() {
    let mut store = Store::new();
    let r = create_link(&mut store, "x".to_owned(), "not a url".to_owned());
    assert_eq!(r, Err(LinkError::InvalidUrl));
    assert!(store.list().is_empty());
    assert_eq!(resolve(&store, "x"), Err(LinkError::NotFound));
}

#[test]
fn create_rejects_target_without_host() {
    let mut store = Store::new();
    let r = create_link(&mut store, "s".to_owned(), "unix:/run/foo.socket".to_owned());
    assert_eq!(r, Err(LinkError::InvalidUrl));
    let r = create_link(&mut store, "m".to_owned(), "mailto:someone@example.com".to_owned());
    assert_eq!(r, Err(LinkError::InvalidUrl));
    assert!(store.list().is_empty());
}

#[test]
fn create_duplicate_alias_fails() {
    let mut store = Store::new();
    create_link(&mut store, "foo".to_owned(), "https://one.example".to_owned()).unwrap();
    let r = create_link(&mut store, "foo".to_owned(), "https://two.example".to_owned());
    assert_eq!(r, Err(LinkError::DuplicateAlias));
    assert_eq!(store.list().len(), 1);
}

#[test]
fn delete_link_is_idempotent() {
    let mut store = Store::new();
    let id = create_link(&mut store, "foo".to_owned(), "https://example.com".to_owned()).unwrap();
    delete_link(&mut store, id);
    assert!(store.list().is_empty());
    delete_link(&mut store, id);
    assert!(store.list().is_empty());
}

#[test]
fn validate_target_accepts_and_rejects() {
    assert_eq!(
        validate_target("https://example.com/a path").unwrap(),
        "https://example.com/a%20path"
    );
    assert_eq!(validate_target("ftp://rms@example.com").unwrap(), "ftp://rms@example.com/");
    assert_eq!(validate_target(""), Err(LinkError::InvalidUrl));
    assert_eq!(validate_target("/relative/only"), Err(LinkError::InvalidUrl));
    assert_eq!(validate_target("data:text/plain,hi"), Err(LinkError::InvalidUrl));
}

#[test]
fn error_statuses_and_messages() {
    assert_eq!(LinkError::NotFound.status(), 404);
    assert_eq!(LinkError::DuplicateAlias.status(), 400);
    assert_eq!(LinkError::InvalidUrl.status(), 400);
    assert_eq!(LinkError::Storage.status(), 500);
    assert_eq!(LinkError::NotFound.message(), "Error: no link with this alias");
    assert_eq!(LinkError::DuplicateAlias.message(), "Error: alias is already taken");
}
