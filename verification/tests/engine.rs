use hinge::AlwaysTrueNode;
use hinge::FlagName;
use hinge::HingeBuilder;
use hinge::HingeConsumer;
use hinge::ListNode;
use hinge::NamedNode;
use hinge::OneTokenNode;
use hinge::OrNode;
use hinge::TokenStream;

fn toks(xs: &[&str]) -> Vec<String> {
    let mut v: Vec<String> = Vec::new();
    for x in xs {
        v.push(x.to_string());
    }
    v
}

#[test]
fn named_gate_restores_stream_on_mismatch() {
    let gate = NamedNode::new(toks(&["--a"]), OneTokenNode.into_node());
    let mut stream = TokenStream::new(toks(&["x", "a", "b"]));
    let r = gate.consume(&mut stream).unwrap();
    assert!(r.is_empty());
    assert_eq!(stream.next().unwrap(), "x");
    assert_eq!(stream.next().unwrap(), "a");
    assert_eq!(stream.next().unwrap(), "b");
    assert!(stream.next().is_none());
}

#[test]
fn named_gate_delegates_on_match() {
    let gate = NamedNode::new(toks(&["-x", "--extra"]), OneTokenNode.into_node());
    let mut stream = TokenStream::new(toks(&["--extra", "v", "w"]));
    let r = gate.consume(&mut stream).unwrap();
    assert!(r.is_value(Some("v")));
    assert_eq!(stream.next().unwrap(), "w");
}

#[test]
fn named_gate_on_exhausted_stream_is_empty() {
    let gate = NamedNode::new(toks(&["--a"]), AlwaysTrueNode.into_node());
    let mut stream = TokenStream::new(toks(&[]));
    let r = gate.consume(&mut stream).unwrap();
    assert!(r.is_empty());
}

#[test]
fn order_independence_of_two_item_flags() {
    for input in [&["--a", "1", "--b", "2"], &["--b", "2", "--a", "1"]] {
        let hinge = HingeBuilder::new()
            .item_flag("a", FlagName::Long("a".to_string()), false)
            .item_flag("b", FlagName::Long("b".to_string()), false)
            .build();
        let out = hinge.apply_tokens(toks(input)).unwrap();
        assert!(out.get_item("a").unwrap().is_value(Some("1")));
        assert!(out.get_item("b").unwrap().is_value(Some("2")));
    }
}

#[test]
fn bounded_list_fails_short_of_count() {
    let list = ListNode::new(Some(2));
    let mut stream = TokenStream::new(toks(&["only"]));
    let e = list.consume(&mut stream).unwrap_err();
    assert_eq!(e.message(), "not enough elements");
}

#[test]
fn bounded_list_takes_exactly_its_count() {
    let list = ListNode::new(Some(2));
    let mut stream = TokenStream::new(toks(&["a", "b", "c"]));
    let r = list.consume(&mut stream).unwrap();
    let items = r.get_list().unwrap();
    assert_eq!(items.len(), 2);
    assert!(items[0].is_value(Some("a")));
    assert!(items[1].is_value(Some("b")));
    assert_eq!(stream.next().unwrap(), "c");
    assert!(stream.next().is_none());
}

#[test]
fn unbounded_list_drains_the_stream() {
    let list = ListNode::new(None);
    let mut stream = TokenStream::new(toks(&["a", "b", "c"]));
    let r = list.consume(&mut stream).unwrap();
    assert_eq!(r.get_list().unwrap().len(), 3);
    assert!(stream.next().is_none());
}

#[test]
fn one_token_fails_on_empty_stream() {
    let mut stream = TokenStream::new(toks(&[]));
    let e = OneTokenNode.consume(&mut stream).unwrap_err();
    assert_eq!(e.message(), "expecting a value");
}

#[test]
fn or_selects_matching_keyword_branch() {
    let alternation = OrNode::new()
        .or(NamedNode::new(toks(&["add"]), OneTokenNode.into_node()).into_node())
        .or(NamedNode::new(toks(&["remove"]), OneTokenNode.into_node()).into_node());
    let mut stream = TokenStream::new(toks(&["remove", "x"]));
    let r = alternation.consume(&mut stream).unwrap();
    assert!(r.is_value(Some("x")));
    assert!(stream.next().is_none());
}

#[test]
fn or_returns_empty_when_no_branch_matches() {
    let alternation = OrNode::new()
        .or(NamedNode::new(toks(&["add"]), OneTokenNode.into_node()).into_node())
        .or(NamedNode::new(toks(&["remove"]), OneTokenNode.into_node()).into_node());
    let mut stream = TokenStream::new(toks(&["list", "x"]));
    let r = alternation.consume(&mut stream).unwrap();
    assert!(r.is_empty());
    assert_eq!(stream.next().unwrap(), "list");
    assert_eq!(stream.next().unwrap(), "x");
}

#[test]
fn subcommand_dispatch_selects_only_the_named_branch() {
    let add = HingeBuilder::new().arg("what", true);
    let remove = HingeBuilder::new().arg("what", true);
    let hinge = HingeBuilder::new()
        .subcommand("add", "add", add.build())
        .subcommand("remove", "remove", remove.build())
        .build();
    let out = hinge.apply_tokens(toks(&["remove", "x"])).unwrap();
    let sub = out.get_item("remove").unwrap();
    assert!(sub.get_item("what").unwrap().is_value(Some("x")));
    assert!(out.get_item("add").is_err());
}

#[test]
fn end_to_end_required_item_and_bool_flag() {
    let hinge = HingeBuilder::new()
        .item_flag("name", FlagName::Both('n', "name".to_string()), true)
        .bool_flag("verbose", FlagName::Long("verbose".to_string()))
        .build();
    let out = hinge.apply_tokens(toks(&["-n", "Alice", "--verbose"])).unwrap();
    assert!(out.get_item("name").unwrap().is_value(Some("Alice")));
    assert!(out.get_item("verbose").unwrap().is_true());
}

#[test]
fn end_to_end_missing_required_item_is_fatal() {
    let hinge = HingeBuilder::new()
        .item_flag("name", FlagName::Both('n', "name".to_string()), true)
        .bool_flag("verbose", FlagName::Long("verbose".to_string()))
        .build();
    let e = hinge.apply_tokens(toks(&["--verbose"])).unwrap_err();
    assert_eq!(e.message(), "Expecting item with name: name");
}

#[test]
fn mandatory_accepts_an_empty_list_value() {
    let hinge = HingeBuilder::new()
        .list_flag("xs", FlagName::Long("xs".to_string()), None, true)
        .build();
    let out = hinge.apply_tokens(toks(&["--xs"])).unwrap();
    assert_eq!(out.get_item("xs").unwrap().get_list().unwrap().len(), 0);
}

#[test]
fn mandatory_rejects_an_absent_entry() {
    let hinge = HingeBuilder::new()
        .list_flag("xs", FlagName::Long("xs".to_string()), None, true)
        .arg("pos", false)
        .build();
    let e = hinge.apply_tokens(toks(&["p"])).unwrap_err();
    assert_eq!(e.message(), "Expecting item with name: xs");
}

#[test]
fn flags_mix_with_positionals_across_rounds() {
    for input in [
        &["--tag", "t", "first", "second"],
        &["first", "second", "--tag", "t"],
    ] {
        let hinge = HingeBuilder::new()
            .item_flag("tag", FlagName::Long("tag".to_string()), false)
            .arg("one", true)
            .arg("two", true)
            .build();
        let out = hinge.apply_tokens(toks(input)).unwrap();
        assert!(out.get_item("tag").unwrap().is_value(Some("t")));
        assert!(out.get_item("one").unwrap().is_value(Some("first")));
        assert!(out.get_item("two").unwrap().is_value(Some("second")));
    }
}

#[test]
fn catch_tail_swallows_everything_after_the_marker() {
    let hinge = HingeBuilder::new()
        .arg("cmd", true)
        .catch_tail("rest")
        .build();
    let out = hinge.apply_tokens(toks(&["run", "--", "-x", "--y"])).unwrap();
    assert!(out.get_item("cmd").unwrap().is_value(Some("run")));
    let rest = out.get_item("rest").unwrap().get_list().unwrap();
    assert_eq!(rest.len(), 2);
    assert!(rest[0].is_value(Some("-x")));
    assert!(rest[1].is_value(Some("--y")));
}

#[test]
fn leftover_tokens_are_a_fatal_error() {
    let hinge = HingeBuilder::new()
        .item_flag("a", FlagName::Long("a".to_string()), false)
        .build();
    let e = hinge.apply_tokens(toks(&["--a", "1", "stray"])).unwrap_err();
    assert_eq!(
        e.message(),
        "not every token could be processed, next is: stray"
    );
}

#[test]
fn top_level_empty_outcome_is_a_fatal_error() {
    let gate = NamedNode::new(toks(&["--a"]), AlwaysTrueNode.into_node());
    let hinge = hinge::Hinge::new(gate.into_node());
    let e = hinge.apply_tokens(toks(&["other"])).unwrap_err();
    assert_eq!(e.message(), "expecting consumer to consume the tokens");
}

#[test]
fn token_stream_pushback_restores_the_front() {
    let mut stream = TokenStream::new(toks(&["a", "b"]));
    assert_eq!(stream.remaining(), 2);
    let t = stream.next().unwrap();
    assert_eq!(t, "a");
    stream.push_front(t);
    assert_eq!(stream.remaining(), 2);
    assert_eq!(stream.next().unwrap(), "a");
    assert_eq!(stream.next().unwrap(), "b");
}

#[test]
fn flag_name_spellings() {
    assert_eq!(FlagName::Short('v').collect(), vec!["-v".to_string()]);
    assert_eq!(
        FlagName::Long("extra".to_string()).collect(),
        vec!["--extra".to_string()]
    );
    assert_eq!(
        FlagName::Both('x', "extra".to_string()).collect(),
        vec!["-x".to_string(), "--extra".to_string()]
    );
}

#[test]
fn subcommands_fall_back_to_the_core_grammar() {
    let sub = HingeBuilder::new().arg("what", true);
    let hinge = HingeBuilder::new()
        .subcommand("add", "add", sub.build())
        .item_flag("tag", FlagName::Long("tag".to_string()), false)
        .build();
    let out = hinge.apply_tokens(toks(&["--tag", "t"])).unwrap();
    assert!(out.get_item("tag").unwrap().is_value(Some("t")));
    assert!(out.get_item("add").is_err());
}

#[test]
fn classification_records_empty_for_unmatched_entries() {
    let mut classification = hinge::ClassificationNode::new();
    classification.put("a", NamedNode::new(toks(&["--a"]), OneTokenNode.into_node()).into_node(), true);
    classification.put("pos", hinge::OptionalTokenNode.into_node(), false);
    assert_eq!(classification.all_entries().len(), 2);
    let mut stream = TokenStream::new(toks(&["--a", "1"]));
    let out = classification.consume(&mut stream).unwrap();
    assert!(out.get_item("a").unwrap().is_value(Some("1")));
    assert!(out.get_item("pos").unwrap().is_empty());
}

#[test]
fn key_wrap_labels_a_non_empty_outcome() {
    let wrap = hinge::KeyWrapNode::new("inner", OneTokenNode.into_node());
    let mut stream = TokenStream::new(toks(&["v"]));
    let out = wrap.consume(&mut stream).unwrap();
    assert!(out.get_item("inner").unwrap().is_value(Some("v")));
}

#[test]
fn key_wrap_passes_empty_through() {
    let gate = NamedNode::new(toks(&["--a"]), OneTokenNode.into_node());
    let wrap = hinge::KeyWrapNode::new("inner", gate.into_node());
    let mut stream = TokenStream::new(toks(&["other"]));
    let out = wrap.consume(&mut stream).unwrap();
    assert!(out.is_empty());
    assert_eq!(stream.next().unwrap(), "other");
}

#[test]
fn mandatory_node_rejects_a_non_collection_outcome() {
    let mandatory = hinge::MandatoryItemsNode::new(OneTokenNode.into_node(), toks(&[]));
    let mut stream = TokenStream::new(toks(&["v"]));
    let e = mandatory.consume(&mut stream).unwrap_err();
    assert_eq!(e.message(), "result is not a collection");
}

#[test]
fn or_node_counts_its_alternatives() {
    let mut alternation = OrNode::new();
    assert_eq!(alternation.len(), 0);
    alternation.put(AlwaysTrueNode.into_node());
    assert_eq!(alternation.len(), 1);
}
