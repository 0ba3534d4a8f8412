use ito::errors::LinkError;
use ito::resolver::resolve;
use ito::store::Store;

#[test]
fn round_trip_insert_resolve() {
    let mut store = Store::new();
    let id = store
        .insert("foo".to_owned(), "https://example.com/".to_owned())
        .unwrap();
    assert_eq!(id, 1);
    let target = resolve(&store, "foo").unwrap();
    assert_eq!(target, "https://example.com/");
}

#[test]
fn duplicate_alias_rejected_and_store_unchanged() {
    let mut store = Store::new();
    store
        .insert("foo".to_owned(), "https://one.example/".to_owned())
        .unwrap();
    let second = store.insert("foo".to_owned(), "https://two.example/".to_owned());
    assert_eq!(second, Err(LinkError::DuplicateAlias));
    let matching: Vec<_> = store
        .list()
        .iter()
        .filter(|l| l.alias == "foo")
        .collect();
    assert_eq!(matching.len(), 1);
    assert_eq!(matching[0].target_url, "https://one.example/");
}

#[test]
fn missing_alias_is_not_found() {
    let store = Store::new();
    assert_eq!(resolve(&store, "nope"), Err(LinkError::NotFound));
    let mut store = store;
    store
        .insert("foo".to_owned(), "https://example.com/".to_owned())
        .unwrap();
    assert_eq!(resolve(&store, "bar"), Err(LinkError::NotFound));
    assert_eq!(resolve(&store, "FOO"), Err(LinkError::NotFound));
}

#[test]
fn delete_removes_link_and_absent_id_is_no_op() {
    let mut store = Store::new();
    let a = store
        .insert("a".to_owned(), "https://a.example/".to_owned())
        .unwrap();
    let b = store
        .insert("b".to_owned(), "https://b.example/".to_owned())
        .unwrap();
    store.delete_by_id(a);
    let aliases: Vec<_> = store.list().iter().map(|l| l.alias.clone()).collect();
    assert_eq!(aliases, vec!["b".to_owned()]);
    store.delete_by_id(999);
    assert_eq!(store.list().len(), 1);
    store.delete_by_id(b);
    assert!(store.list().is_empty());
}

#[test]
fn ids_are_assigned_in_ascending_order() {
    let mut store = Store::new();
    assert_eq!(store.insert("a".to_owned(), "https://a.example/".to_owned()), Ok(1));
    assert_eq!(store.insert("b".to_owned(), "https://b.example/".to_owned()), Ok(2));
    store.delete_by_id(2);
    assert_eq!(store.insert("c".to_owned(), "https://c.example/".to_owned()), Ok(3));
    let ids: Vec<i64> = store.list().iter().map(|l| l.id).collect();
    assert_eq!(ids, vec![1, 3]);
}

#[test]
fn find_by_alias_returns_the_link() {
    let mut store = Store::new();
    store
        .insert("foo".to_owned(), "https://example.com/".to_owned())
        .unwrap();
    let link = store.find_by_alias("foo").unwrap();
    assert_eq!(link.id, 1);
    assert_eq!(link.alias, "foo");
    assert_eq!(link.target_url, "https://example.com/");
    assert_eq!(link.duplicate().alias, "foo");
    assert!(matches!(store.find_by_alias("bar"), Err(LinkError::NotFound)));
}
