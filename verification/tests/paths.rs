use graphql_core::path::{QueryPathNode, QueryPathSegment, ResolveId};

#[test]
fn path_segments_come_from_the_root() {
    let obj = QueryPathNode { parent: None, segment: QueryPathSegment::Name("obj") };
    let detail = QueryPathNode { parent: Some(&obj), segment: QueryPathSegment::Name("detail") };
    let c = QueryPathNode { parent: Some(&detail), segment: QueryPathSegment::Name("c") };
    assert_eq!(c.to_string_vec(), vec!["obj".to_string(), "detail".to_string(), "c".to_string()]);
    assert_eq!(c.to_string(), "obj.detail.c");
    assert_eq!(obj.to_string_vec(), vec!["obj".to_string()]);
    assert_eq!(obj.to_string(), "obj");
}

#[test]
fn an_index_is_written_as_a_number() {
    let list = QueryPathNode { parent: None, segment: QueryPathSegment::Name("list") };
    let item = QueryPathNode { parent: Some(&list), segment: QueryPathSegment::Index(10) };
    let field = QueryPathNode { parent: Some(&item), segment: QueryPathSegment::Name("f") };
    assert_eq!(field.to_string_vec(), vec!["list".to_string(), "10".to_string(), "f".to_string()]);
    assert_eq!(field.to_string(), "list.10.f");
    assert_eq!(QueryPathSegment::Index(0).to_string(), "0");
    assert_eq!(QueryPathSegment::Name("n").to_string(), "n");
}

#[test]
fn the_field_name_is_the_nearest_name() {
    let list = QueryPathNode { parent: None, segment: QueryPathSegment::Name("list") };
    let item = QueryPathNode { parent: Some(&list), segment: QueryPathSegment::Index(3) };
    let inner = QueryPathNode { parent: Some(&item), segment: QueryPathSegment::Index(4) };
    assert_eq!(inner.field_name(), "list");
    assert_eq!(list.field_name(), "list");
    assert_eq!(inner.field_name_opt(), Some("list"));
    let bare = QueryPathNode { parent: None, segment: QueryPathSegment::Index(1) };
    assert_eq!(bare.field_name_opt(), None);
}

#[test]
fn parents_walk_to_the_root() {
    let a = QueryPathNode { parent: None, segment: QueryPathSegment::Name("a") };
    let b = QueryPathNode { parent: Some(&a), segment: QueryPathSegment::Name("b") };
    let c = QueryPathNode { parent: Some(&b), segment: QueryPathSegment::Name("c") };
    let mut parents = c.parents();
    assert_eq!(parents.current().to_string(), "a.b.c");
    assert_eq!(parents.next().unwrap().to_string(), "a.b");
    assert_eq!(parents.current().to_string(), "a.b");
    assert_eq!(parents.next().unwrap().to_string(), "a");
    assert!(parents.next().is_none());
    assert!(parents.next().is_none());
    assert_eq!(parents.current().to_string(), "a");
}

#[test]
fn resolve_ids() {
    let root = ResolveId::root();
    assert_eq!(root, ResolveId { parent: None, current: 0 });
    assert_eq!(root.to_string(), "0");
    let child = root.child(0);
    assert_eq!(child, ResolveId { parent: Some(0), current: 1 });
    assert_eq!(child.child(41).to_string(), "1:42");
    assert_eq!(child.child(usize::MAX).current, 0);
}

#[test]
fn segments_are_handed_out_from_the_root() {
    let list = QueryPathNode { parent: None, segment: QueryPathSegment::Name("list") };
    let item = QueryPathNode { parent: Some(&list), segment: QueryPathSegment::Index(2) };
    let segments = item.to_segments();
    assert_eq!(segments.len(), 2);
    assert!(matches!(segments[0], QueryPathSegment::Name("list")));
    assert!(matches!(segments[1], QueryPathSegment::Index(2)));
}
