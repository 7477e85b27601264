use hinge::FlagName;
use hinge::api::builder::HingeBuilder;

fn toks(xs: &[&str]) -> Vec<String> {
    let mut v: Vec<String> = Vec::new();
    for x in xs {
        v.push(x.to_string());
    }
    v
}

#[test]
fn typed_builder_require_enforces_the_last_declaration() {
    let hinge = HingeBuilder::new()
        .item("name", FlagName::Both('n', "name".to_string()))
        .require()
        .bool_flag("verbose", FlagName::Long("verbose".to_string()))
        .build();
    let out = hinge.apply_tokens(toks(&["-n", "Alice"])).unwrap();
    assert!(out.get_item("name").unwrap().is_value(Some("Alice")));
    let hinge2 = HingeBuilder::new()
        .item("name", FlagName::Both('n', "name".to_string()))
        .require()
        .bool_flag("verbose", FlagName::Long("verbose".to_string()))
        .build();
    let e = hinge2.apply_tokens(toks(&["--verbose"])).unwrap_err();
    assert_eq!(e.message(), "Expecting item with name: name");
}

#[test]
fn typed_builder_marks_a_required_name_once() {
    let hinge = HingeBuilder::new()
        .arg("file")
        .require()
        .require()
        .build();
    let out = hinge.apply_tokens(toks(&["data"])).unwrap();
    assert!(out.get_item("file").unwrap().is_value(Some("data")));
    let hinge2 = HingeBuilder::new().arg("file").require().require().build();
    let e = hinge2.apply_tokens(toks(&[])).unwrap_err();
    assert_eq!(e.message(), "Expecting item with name: file");
}

#[test]
fn typed_builder_optional_list_and_tail() {
    let hinge = HingeBuilder::new()
        .list("xs", FlagName::Long("xs".to_string()), Some(2))
        .catch_tail("rest")
        .build();
    let out = hinge.apply_tokens(toks(&["--xs", "a", "b", "--", "z"])).unwrap();
    assert_eq!(out.get_item("xs").unwrap().get_list().unwrap().len(), 2);
    assert_eq!(out.get_item("rest").unwrap().get_list().unwrap().len(), 1);
}

#[test]
fn typed_builder_subcommands_dispatch() {
    let status = HingeBuilder::new().bool_flag("short", FlagName::Long("short".to_string()));
    let hinge = HingeBuilder::new()
        .subcommand("status", "status", status.build())
        .build();
    let out = hinge.apply_tokens(toks(&["status", "--short"])).unwrap();
    let sub = out.get_item("status").unwrap();
    assert!(sub.get_item("short").unwrap().is_true());
}
