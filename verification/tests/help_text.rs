use hinge::FlagName;
use hinge::HelpAction;
use hinge::HelpNode;
use hinge::HingeBuilder;
use hinge::HingeConsumer;
use hinge::HingeHelp;
use hinge::NamedNode;
use hinge::OneTokenNode;

fn toks(xs: &[&str]) -> Vec<String> {
    let mut v: Vec<String> = Vec::new();
    for x in xs {
        v.push(x.to_string());
    }
    v
}

#[test]
fn empty_help_renders_to_nothing() {
    let help = HingeHelp::new();
    assert_eq!(help.generate(), "");
}

#[test]
fn names_are_joined_with_commas() {
    let mut help = HingeHelp::new();
    help.add_name("-x");
    help.add_name("--extra");
    assert_eq!(help.generate(), "-x, --extra");
}

#[test]
fn alternative_name_is_used_when_no_name_exists() {
    let mut help = HingeHelp::new();
    help.set_alternative_name("<slot>");
    assert_eq!(help.generate(), "<slot>");
}

#[test]
fn description_is_appended_to_the_header() {
    let mut help = HingeHelp::new();
    help.add_name("--flag");
    help.set_description(": turns it on");
    assert_eq!(help.generate(), "--flag: turns it on");
}

#[test]
fn children_render_under_the_header() {
    let mut help = HingeHelp::new();
    help.add_name("tool");
    let child = help.get_new_child();
    child.add_name("--one");
    let child2 = help.get_new_child();
    child2.add_name("--two");
    assert_eq!(help.generate(), "tool\n--one\n--two");
}

#[test]
fn tabulated_children_are_indented() {
    let mut help = HingeHelp::new();
    help.add_name("tool");
    help.set_tabulate_childs(true);
    let child = help.get_new_child();
    child.add_name("--one");
    assert_eq!(help.generate(), "tool\n  --one");
}

#[test]
fn named_gate_contributes_its_spellings() {
    let gate = NamedNode::new(toks(&["-x", "--extra"]), OneTokenNode.into_node());
    let mut help = HingeHelp::new();
    gate.apply_help_info(&mut help);
    assert_eq!(help.generate(), "-x, --extra");
}

#[test]
fn help_node_attaches_a_description() {
    let gate = NamedNode::new(toks(&["--extra"]), OneTokenNode.into_node());
    let decorated = HelpNode::new(gate.into_node()).description(": an extra value");
    let mut help = HingeHelp::new();
    decorated.apply_help_info(&mut help);
    assert_eq!(help.generate(), "--extra: an extra value");
}

#[test]
fn help_actions_apply_in_order() {
    let gate = NamedNode::new(toks(&["--a"]), OneTokenNode.into_node());
    let decorated = HelpNode::new_with(gate.into_node(), HelpAction::Tabulate(true))
        .and(HelpAction::Description(": value".to_string()));
    let mut help = HingeHelp::new();
    decorated.apply_help_info(&mut help);
    assert_eq!(help.generate(), "--a: value");
}

#[test]
fn classification_contributes_one_child_per_entry() {
    let hinge = HingeBuilder::new()
        .item_flag("name", FlagName::Both('n', "name".to_string()), true)
        .bool_flag("verbose", FlagName::Long("verbose".to_string()))
        .build();
    let text = hinge.help();
    assert_eq!(text, "-n, --name\n--verbose");
}

#[test]
fn unnamed_entries_show_their_bracketed_id() {
    let hinge = HingeBuilder::new().arg("file", true).build();
    assert_eq!(hinge.help(), "<file>");
}

#[test]
fn subcommand_help_indents_its_grammar() {
    let sub = HingeBuilder::new().arg("what", true);
    let hinge = HingeBuilder::new().subcommand("add", "add", sub.build()).build();
    let text = hinge.help();
    assert!(text.starts_with("add\n  <what>"));
}

#[test]
fn not_tabulate_keeps_children_flush() {
    let gate = NamedNode::new(toks(&["--one"]), OneTokenNode.into_node());
    let mut classification = hinge::ClassificationNode::new();
    classification.put("one", gate.into_node(), true);
    let decorated = HelpNode::new(classification.into_node()).tabulate().not_tabulate();
    let mut help = HingeHelp::new();
    help.add_name("tool");
    decorated.apply_help_info(&mut help);
    assert_eq!(help.generate(), "tool\n--one");
}
