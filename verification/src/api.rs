use vstd::prelude::*;

pub mod builder;

use crate::consumer::AlwaysTrueNode;
use crate::consumer::ClassificationNode;
use crate::consumer::HelpNode;
use crate::consumer::HingeNode;
use crate::consumer::KeyWrapNode;
use crate::consumer::ListNode;
use crate::consumer::MandatoryItemsNode;
use crate::consumer::NamedNode;
use crate::consumer::OneTokenNode;
use crate::consumer::OptionalTokenNode;
use crate::consumer::OrNode;
use crate::error::HingeError;
use crate::help::HingeHelp;
use crate::help::apply_help;
use crate::help::empty_help;
use crate::help::render;
use crate::output::HingeOutput;
use crate::semantics::HelpActionView;
use crate::semantics::NodeView;
use crate::semantics::consume_spec;
use crate::token::TokenStream;
use crate::token::push_char;
use vstd::string::StringExecFns;

verus! {

/// The façade: a root consumer driven over a whole token sequence.
///
/// A parse must produce something and use every token: an `Empty` root
/// outcome and any leftover token are both hard errors.
#[derive(Debug)]
pub struct Hinge {
    root: HingeNode,
}

impl Hinge {
    /// The model of the root consumer.
    pub closed spec fn spec_root(&self) -> NodeView {
        self.root@
    }

    /// Wraps a root consumer.
    pub fn new(consumer: HingeNode) -> (h: Hinge)
        ensures
            h.spec_root() == consumer@,
    {
        Hinge { root: consumer }
    }

    /// Drives the root consumer over `tokens` and demands full consumption:
    /// the root's own fatal errors propagate unchanged, an `Empty` outcome
    /// and a leftover token each turn into an error of their own.
    pub fn apply_tokens(&self, tokens: Vec<String>) -> (r: Result<HingeOutput, HingeError>)
        ensures
            ({
                let (sr, s2) = consume_spec(self.spec_root(), tokens.deep_view());
                match sr {
                    Result::Err(m) => r matches Err(e) && e@ == m,
                    Result::Ok(ov) => if ov is Empty {
                        r matches Err(e) && e@ == "expecting consumer to consume the tokens"@
                    } else if s2.len() > 0 {
                        r matches Err(e) && e@ == "not every token could be processed, next is: "@
                            + s2[0]
                    } else {
                        r matches Ok(o) && o@ == ov
                    },
                }
            }),
    {
        let mut stream = TokenStream::new(tokens);
        let result = match self.root.run(&mut stream) {
            Ok(o) => o,
            Err(e) => {
                return Err(e);
            },
        };
        if result.is_empty() {
            return Err(HingeError::from_text("expecting consumer to consume the tokens"));
        }
        match stream.next() {
            Option::Some(token) => {
                let mut m: String = "not every token could be processed, next is: ".to_owned();
                m.append(token.as_str());
                Err(HingeError::Message(m))
            },
            Option::None => Ok(result),
        }
    }

    /// Takes the root consumer back out.
    pub fn extract(self) -> (n: HingeNode)
        ensures
            n@ == self.spec_root(),
    {
        self.root
    }

    /// Renders the help text contributed by the whole consumer tree.
    pub fn help(&self) -> (r: String)
        ensures
            r@ == render(apply_help(self.spec_root(), empty_help())),
    {
        let mut help = HingeHelp::new();
        self.root.describe(&mut help);
        help.generate()
    }
}

/// A flag's spelling: a short name, a long name, or both.
#[derive(Debug, Clone)]
pub enum FlagName {
    Short(char),
    Long(String),
    Both(char, String),
}

impl FlagName {
    /// The literal spellings this flag answers to: `-c` for a short name
    /// and `--name` for a long one.
    pub open spec fn spec_spellings(&self) -> Seq<Seq<char>> {
        match self {
            FlagName::Short(c) => seq!["-"@.push(*c)],
            FlagName::Long(l) => seq!["--"@ + l@],
            FlagName::Both(c, l) => seq!["-"@.push(*c), "--"@ + l@],
        }
    }

    /// Writes out the accepted spellings.
    pub fn collect(&self) -> (r: Vec<String>)
        ensures
            r.deep_view() == self.spec_spellings(),
    {
        let mut r: Vec<String> = Vec::new();
        match self {
            FlagName::Short(c) => {
                let mut s: String = "-".to_owned();
                push_char(&mut s, *c);
                r.push(s);
            },
            FlagName::Long(l) => {
                let mut s: String = "--".to_owned();
                s.append(l.as_str());
                r.push(s);
            },
            FlagName::Both(c, l) => {
                let mut s: String = "-".to_owned();
                push_char(&mut s, *c);
                r.push(s);
                let mut t: String = "--".to_owned();
                t.append(l.as_str());
                r.push(t);
            },
        }
        proof {
            assert(r.deep_view() =~= self.spec_spellings());
        }
        r
    }
}

/// Assembles a root classification of flags, positionals and subcommands
/// into a ready-to-drive [`Hinge`].
#[derive(Debug)]
pub struct HingeBuilder {
    subcommands: OrNode,
    node: ClassificationNode,
    mandatory: Vec<String>,
}

impl HingeBuilder {
    /// The models of the declared subcommand alternatives.
    pub closed spec fn spec_subs(&self) -> Seq<NodeView> {
        self.subcommands.spec_alts()
    }

    /// The models of the declared priority (flag) entries.
    pub closed spec fn spec_priority(&self) -> Seq<(Seq<char>, NodeView)> {
        self.node.spec_priority()
    }

    /// The models of the declared fallback (positional) entries.
    pub closed spec fn spec_fallback(&self) -> Seq<(Seq<char>, NodeView)> {
        self.node.spec_fallback()
    }

    /// The names of the entries marked required.
    pub closed spec fn spec_mandatory(&self) -> Seq<Seq<char>> {
        self.mandatory.deep_view()
    }

    /// The model of the consumer tree [`Self::build`] produces.
    pub open spec fn spec_built(&self) -> NodeView {
        let core = NodeView::Mandatory(
            Box::new(NodeView::Classification(self.spec_priority() + self.spec_fallback())),
            self.spec_mandatory(),
        );
        if self.spec_subs().len() > 0 {
            NodeView::Or(self.spec_subs().push(core))
        } else {
            core
        }
    }

    /// Starts an empty builder.
    pub fn new() -> (b: HingeBuilder)
        ensures
            b.spec_subs() == Seq::<NodeView>::empty(),
            b.spec_priority() == Seq::<(Seq<char>, NodeView)>::empty(),
            b.spec_fallback() == Seq::<(Seq<char>, NodeView)>::empty(),
            b.spec_mandatory() == Seq::<Seq<char>>::empty(),
    {
        let b = HingeBuilder {
            subcommands: OrNode::new(),
            node: ClassificationNode::new(),
            mandatory: Vec::new(),
        };
        proof {
            assert(b.mandatory.deep_view() =~= Seq::<Seq<char>>::empty());
        }
        b
    }

    /// Declares a boolean flag: a named gate over an always-true consumer.
    pub fn bool_flag(self, id: &str, name: FlagName) -> (b: HingeBuilder)
        ensures
            b.spec_priority() == self.spec_priority().push(
                (id@, NodeView::Named(name.spec_spellings(), Box::new(NodeView::AlwaysTrue))),
            ),
            b.spec_fallback() == self.spec_fallback(),
            b.spec_subs() == self.spec_subs(),
            b.spec_mandatory() == self.spec_mandatory(),
    {
        let gate = NamedNode::new(name.collect(), AlwaysTrueNode.into_node());
        self.register(id, gate.into_node(), true, false)
    }

    /// Declares a flag that takes exactly one value token.
    pub fn item_flag(self, id: &str, name: FlagName, required: bool) -> (b: HingeBuilder)
        ensures
            b.spec_priority() == self.spec_priority().push(
                (id@, NodeView::Named(name.spec_spellings(), Box::new(NodeView::OneToken))),
            ),
            b.spec_fallback() == self.spec_fallback(),
            b.spec_subs() == self.spec_subs(),
            b.spec_mandatory() == if required {
                self.spec_mandatory().push(id@)
            } else {
                self.spec_mandatory()
            },
    {
        let gate = NamedNode::new(name.collect(), OneTokenNode.into_node());
        self.register(id, gate.into_node(), true, required)
    }

    /// Declares a flag that takes a list of value tokens.
    pub fn list_flag(self, id: &str, name: FlagName, count: Option<usize>, required: bool) -> (b:
        HingeBuilder)
        ensures
            b.spec_priority() == self.spec_priority().push(
                (id@, NodeView::Named(name.spec_spellings(), Box::new(NodeView::List(count)))),
            ),
            b.spec_fallback() == self.spec_fallback(),
            b.spec_subs() == self.spec_subs(),
            b.spec_mandatory() == if required {
                self.spec_mandatory().push(id@)
            } else {
                self.spec_mandatory()
            },
    {
        let gate = NamedNode::new(name.collect(), ListNode::new(count).into_node());
        self.register(id, gate.into_node(), true, required)
    }

    /// Declares a `--` gate that swallows every remaining token.
    pub fn catch_tail(self, id: &str) -> (b: HingeBuilder)
        ensures
            b.spec_priority() == self.spec_priority().push(
                (
                    id@,
                    NodeView::Named(
                        seq!["--"@],
                        Box::new(NodeView::List(Option::<usize>::None)),
                    ),
                ),
            ),
            b.spec_fallback() == self.spec_fallback(),
            b.spec_subs() == self.spec_subs(),
            b.spec_mandatory() == self.spec_mandatory(),
    {
        let mut names: Vec<String> = Vec::new();
        names.push("--".to_owned());
        proof {
            assert(names.deep_view() =~= seq!["--"@]);
        }
        let gate = NamedNode::new(names, ListNode::new(Option::None).into_node());
        self.register(id, gate.into_node(), true, false)
    }

    /// Declares a positional argument.
    pub fn arg(self, id: &str, required: bool) -> (b: HingeBuilder)
        ensures
            b.spec_fallback() == self.spec_fallback().push((id@, NodeView::OptionalToken)),
            b.spec_priority() == self.spec_priority(),
            b.spec_subs() == self.spec_subs(),
            b.spec_mandatory() == if required {
                self.spec_mandatory().push(id@)
            } else {
                self.spec_mandatory()
            },
    {
        self.register(id, OptionalTokenNode.into_node(), false, required)
    }

    /// Registers any consumer under `id`, as a priority or fallback entry,
    /// optionally marking it required.
    pub fn register(self, id: &str, node: HingeNode, prioritary: bool, required: bool) -> (b:
        HingeBuilder)
        ensures
            prioritary ==> b.spec_priority() == self.spec_priority().push((id@, node@))
                && b.spec_fallback() == self.spec_fallback(),
            !prioritary ==> b.spec_fallback() == self.spec_fallback().push((id@, node@))
                && b.spec_priority() == self.spec_priority(),
            b.spec_subs() == self.spec_subs(),
            b.spec_mandatory() == if required {
                self.spec_mandatory().push(id@)
            } else {
                self.spec_mandatory()
            },
    {
        let mut b = self;
        b.node.put(id, node, prioritary);
        if required {
            let ghost pre = b.mandatory.deep_view();
            b.mandatory.push(id.to_owned());
            proof {
                assert(b.mandatory.deep_view() =~= pre.push(id@));
            }
        }
        b
    }

    /// Declares a subcommand: a named gate on `name` that wraps the whole
    /// sub-grammar's result under `id`.
    pub fn subcommand(self, id: &str, name: &str, hinge: Hinge) -> (b: HingeBuilder)
        ensures
            b.spec_subs() == self.spec_subs().push(
                NodeView::Help(
                    Box::new(
                        NodeView::KeyWrap(
                            id@,
                            Box::new(
                                NodeView::Named(seq![name@], Box::new(hinge.spec_root())),
                            ),
                        ),
                    ),
                    seq![HelpActionView::Tabulate(true)],
                ),
            ),
            b.spec_priority() == self.spec_priority(),
            b.spec_fallback() == self.spec_fallback(),
            b.spec_mandatory() == self.spec_mandatory(),
    {
        let mut names: Vec<String> = Vec::new();
        names.push(name.to_owned());
        proof {
            assert(names.deep_view() =~= seq![name@]);
        }
        let gate = NamedNode::new(names, hinge.extract());
        let wrap = KeyWrapNode::new(id, gate.into_node());
        let decorated = HelpNode::new(wrap.into_node()).tabulate();
        proof {
            decorated.lemma_model();
            assert(Seq::<HelpActionView>::empty().push(HelpActionView::Tabulate(true))
                =~= seq![HelpActionView::Tabulate(true)]);
        }
        let mut b = self;
        b.subcommands.put(decorated.into_node());
        b
    }

    /// Builds the final consumer: the classification behind the mandatory
    /// check, preceded by the subcommand alternatives when any exist.
    pub fn build(self) -> (h: Hinge)
        ensures
            h.spec_root() == self.spec_built(),
    {
        proof {
            self.node.lemma_model();
        }
        let core = MandatoryItemsNode::new(self.node.into_node(), self.mandatory);
        if self.subcommands.len() > 0 {
            let subs = self.subcommands.or(core.into_node());
            proof {
                subs.lemma_model();
            }
            Hinge::new(subs.into_node())
        } else {
            Hinge::new(core.into_node())
        }
    }
}

} // verus!
