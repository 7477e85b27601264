use hinge::HingeCollectionBuilder;
use hinge::HingeOutput;

#[test]
fn get_value_returns_the_token_of_a_value() {
    let out = HingeOutput::Value("alpha".to_string());
    assert_eq!(out.get_value().unwrap(), "alpha");
}

#[test]
fn get_value_rejects_other_shapes() {
    let e = HingeOutput::True.get_value().unwrap_err();
    assert_eq!(e.message(), "output is not a value");
}

#[test]
fn is_value_checks_the_concrete_token() {
    let out = HingeOutput::Value("alpha".to_string());
    assert!(out.is_value(None::<&str>));
    assert!(out.is_value(Some("alpha")));
    assert!(!out.is_value(Some("beta")));
    assert!(!HingeOutput::True.is_value(None::<&str>));
}

#[test]
fn empty_and_true_are_distinguished() {
    assert!(HingeOutput::Empty.is_empty());
    assert!(!HingeOutput::Empty.is_true());
    assert!(HingeOutput::True.is_true());
    assert!(!HingeOutput::True.is_empty());
}

#[test]
fn get_list_rejects_non_lists() {
    let e = HingeOutput::Value("x".to_string()).get_list().unwrap_err();
    assert_eq!(e.message(), "output is not a list");
}

#[test]
fn get_list_idx_checks_bounds() {
    let out = HingeOutput::List(vec![HingeOutput::Value("x".to_string())]);
    assert!(out.get_list_idx(0).unwrap().is_value(Some("x")));
    let e = out.get_list_idx(1).unwrap_err();
    assert_eq!(e.message(), "index out of bounds");
}

#[test]
fn get_map_rejects_non_maps() {
    let e = HingeOutput::True.get_map().unwrap_err();
    assert_eq!(e.message(), "output is not a map");
}

#[test]
fn get_item_looks_names_up() {
    let out = HingeOutput::Record(vec![
        ("a".to_string(), HingeOutput::Value("1".to_string())),
        ("b".to_string(), HingeOutput::True),
    ]);
    assert!(out.get_item("a").unwrap().is_value(Some("1")));
    assert!(out.get_item("b").unwrap().is_true());
    let e = out.get_item("c").unwrap_err();
    assert_eq!(e.message(), "item does not exists");
}

#[test]
fn into_builder_rejects_scalars() {
    let e = HingeOutput::Value("x".to_string()).into_builder().unwrap_err();
    assert_eq!(e.message(), "result is not a collection");
}

#[test]
fn builder_collapses_to_map_when_no_positionals() {
    let mut b = HingeCollectionBuilder::new();
    b.add_item("k", HingeOutput::True);
    let out = b.collect();
    assert!(out.get_item("k").unwrap().is_true());
    assert!(out.get_list().is_err());
}

#[test]
fn builder_collapses_to_list_when_no_named_items() {
    let mut b = HingeCollectionBuilder::new();
    b.add_value(HingeOutput::Value("x".to_string()));
    b.add_value(HingeOutput::Value("y".to_string()));
    let out = b.collect();
    let items = out.get_list().unwrap();
    assert_eq!(items.len(), 2);
    assert!(items[1].is_value(Some("y")));
    assert!(out.get_map().is_err());
}

#[test]
fn builder_with_both_parts_yields_both_views() {
    let mut b = HingeCollectionBuilder::new();
    b.add_value(HingeOutput::Value("x".to_string()));
    b.add_item("k", HingeOutput::Value("v".to_string()));
    let out = b.collect();
    assert!(out.get_item("k").unwrap().is_value(Some("v")));
    assert!(out.get_list_idx(0).unwrap().is_value(Some("x")));
}

#[test]
fn empty_builder_collapses_to_an_empty_map() {
    let out = HingeCollectionBuilder::new().collect();
    assert_eq!(out.get_map().unwrap().len(), 0);
}

#[test]
fn named_items_are_last_write_wins() {
    let mut b = HingeCollectionBuilder::new();
    b.add_item("k", HingeOutput::Value("old".to_string()));
    assert!(b.has_item("k"));
    assert!(!b.has_item("missing"));
    b.add_item("k", HingeOutput::Value("new".to_string()));
    let out = b.collect();
    let map = out.get_map().unwrap();
    assert_eq!(map.len(), 1);
    assert!(out.get_item("k").unwrap().is_value(Some("new")));
}

#[test]
fn reopening_a_map_keeps_its_items() {
    let out = HingeOutput::Record(vec![("k".to_string(), HingeOutput::True)]);
    let b = out.into_builder().unwrap();
    assert!(b.has_item("k"));
    let out2 = b.collect();
    assert!(out2.get_item("k").unwrap().is_true());
}

#[test]
fn reopening_an_empty_list_collapses_to_a_map() {
    let out = HingeOutput::List(Vec::new());
    let b = out.into_builder().unwrap();
    let collapsed = b.collect();
    assert_eq!(collapsed.get_map().unwrap().len(), 0);
    assert!(collapsed.get_list().is_err());
}
