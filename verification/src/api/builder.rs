use vstd::prelude::*;

use crate::api::FlagName;
use crate::api::Hinge;
use crate::consumer::AlwaysTrueNode;
use crate::consumer::ClassificationNode;
use crate::consumer::HelpNode;
use crate::consumer::HingeNode;
use crate::consumer::KeyWrapNode;
use crate::consumer::ListNode;
use crate::consumer::MandatoryItemsNode;
use crate::consumer::NamedNode;
use crate::consumer::OneTokenNode;
use crate::consumer::OptionalTokenNode;
use crate::consumer::OrNode;
use crate::semantics::HelpActionView;
use crate::semantics::NodeView;
use crate::token::str_eq;

verus! {

/// A builder state whose most recent declaration may be marked required.
pub trait RequirableField {
    /// The identifier of the field that `require` would mark.
    spec fn spec_id(&self) -> Seq<char>;

    /// The identifier of the field that `require` would mark.
    fn required_id(&self) -> (r: &str)
        ensures
            r@ == self.spec_id(),
    ;
}

/// The state right after declaring a requirable field: it remembers that
/// field's identifier.
pub struct RequirableItem(String);

impl RequirableField for RequirableItem {
    closed spec fn spec_id(&self) -> Seq<char> {
        self.0@
    }

    fn required_id(&self) -> (r: &str) {
        self.0.as_str()
    }
}

/// The state in which no field is eligible for `require`.
pub struct Plain;

/// Whether one of `v` spells exactly `s`.
#[verifier::loop_isolation(false)]
fn vec_contains_str(v: &Vec<String>, s: &str) -> (r: bool)
    ensures
        r == v.deep_view().contains(s@),
{
    let mut i: usize = 0;
    while i < v.len()
        invariant
            0 <= i <= v.len(),
            forall|j: int| 0 <= j < i ==> v.deep_view()[j] != s@,
        decreases v.len() - i,
    {
        if str_eq(v[i].as_str(), s) {
            proof {
                assert(v.deep_view()[i as int] == s@);
            }
            return true;
        }
        i = i + 1;
    }
    proof {
        assert forall|j: int| 0 <= j < v.deep_view().len() implies v.deep_view()[j] != s@ by {}
    }
    false
}

/// A typestate flavour of the builder: `require` is only offered right
/// after declaring a requirable field, and each required name is recorded
/// once.
pub struct HingeBuilder<T> {
    subcommands: OrNode,
    node: ClassificationNode,
    mandatory: Vec<String>,
    state: T,
}

impl<T> HingeBuilder<T> {
    /// The models of the declared subcommand alternatives.
    pub closed spec fn spec_subs(&self) -> Seq<NodeView> {
        self.subcommands.spec_alts()
    }

    /// The models of the declared priority (flag) entries.
    pub closed spec fn spec_priority(&self) -> Seq<(Seq<char>, NodeView)> {
        self.node.spec_priority()
    }

    /// The models of the declared fallback (positional) entries.
    pub closed spec fn spec_fallback(&self) -> Seq<(Seq<char>, NodeView)> {
        self.node.spec_fallback()
    }

    /// The names of the entries marked required.
    pub closed spec fn spec_mandatory(&self) -> Seq<Seq<char>> {
        self.mandatory.deep_view()
    }

    /// The model of the consumer tree [`Self::build`] produces.
    pub open spec fn spec_built(&self) -> NodeView {
        let core = NodeView::Mandatory(
            Box::new(NodeView::Classification(self.spec_priority() + self.spec_fallback())),
            self.spec_mandatory(),
        );
        if self.spec_subs().len() > 0 {
            NodeView::Or(self.spec_subs().push(core))
        } else {
            core
        }
    }
}

impl HingeBuilder<Plain> {
    /// Starts an empty builder with no requirable field.
    pub fn new() -> (b: HingeBuilder<Plain>)
        ensures
            b.spec_subs() == Seq::<NodeView>::empty(),
            b.spec_priority() == Seq::<(Seq<char>, NodeView)>::empty(),
            b.spec_fallback() == Seq::<(Seq<char>, NodeView)>::empty(),
            b.spec_mandatory() == Seq::<Seq<char>>::empty(),
    {
        let b = HingeBuilder {
            subcommands: OrNode::new(),
            node: ClassificationNode::new(),
            mandatory: Vec::new(),
            state: Plain,
        };
        proof {
            assert(b.mandatory.deep_view() =~= Seq::<Seq<char>>::empty());
        }
        b
    }
}

impl<T> HingeBuilder<T> {
    /// Carries the collected declarations into a new typestate.
    fn fork<K>(self, state: K) -> (b: HingeBuilder<K>)
        ensures
            b.state == state,
            b.spec_subs() == self.spec_subs(),
            b.spec_priority() == self.spec_priority(),
            b.spec_fallback() == self.spec_fallback(),
            b.spec_mandatory() == self.spec_mandatory(),
    {
        HingeBuilder {
            subcommands: self.subcommands,
            node: self.node,
            mandatory: self.mandatory,
            state,
        }
    }

    /// Registers any consumer under `id`, as a priority or fallback entry.
    pub fn register(self, id: &str, node: HingeNode, prioritary: bool) -> (b: HingeBuilder<Plain>)
        ensures
            prioritary ==> b.spec_priority() == self.spec_priority().push((id@, node@))
                && b.spec_fallback() == self.spec_fallback(),
            !prioritary ==> b.spec_fallback() == self.spec_fallback().push((id@, node@))
                && b.spec_priority() == self.spec_priority(),
            b.spec_subs() == self.spec_subs(),
            b.spec_mandatory() == self.spec_mandatory(),
    {
        let mut b = self.fork(Plain);
        b.node.put(id, node, prioritary);
        b
    }

    /// Declares a boolean flag: a named gate over an always-true consumer.
    pub fn bool_flag(self, id: &str, name: FlagName) -> (b: HingeBuilder<Plain>)
        ensures
            b.spec_priority() == self.spec_priority().push(
                (id@, NodeView::Named(name.spec_spellings(), Box::new(NodeView::AlwaysTrue))),
            ),
            b.spec_fallback() == self.spec_fallback(),
            b.spec_subs() == self.spec_subs(),
            b.spec_mandatory() == self.spec_mandatory(),
    {
        let gate = NamedNode::new(name.collect(), AlwaysTrueNode.into_node());
        self.register(id, gate.into_node(), true)
    }

    /// Declares a flag that takes exactly one value token; the declaration
    /// may be marked required next.
    pub fn item(self, id: &str, name: FlagName) -> (b: HingeBuilder<RequirableItem>)
        ensures
            b.spec_priority() == self.spec_priority().push(
                (id@, NodeView::Named(name.spec_spellings(), Box::new(NodeView::OneToken))),
            ),
            b.spec_fallback() == self.spec_fallback(),
            b.spec_subs() == self.spec_subs(),
            b.spec_mandatory() == self.spec_mandatory(),
            b.spec_state_id() == id@,
    {
        let gate = NamedNode::new(name.collect(), OneTokenNode.into_node());
        self.register(id, gate.into_node(), true).fork(RequirableItem(id.to_owned()))
    }

    /// Declares a flag that takes a list of value tokens; the declaration
    /// may be marked required next.
    pub fn list(self, id: &str, name: FlagName, count: Option<usize>) -> (b: HingeBuilder<
        RequirableItem,
    >)
        ensures
            b.spec_priority() == self.spec_priority().push(
                (id@, NodeView::Named(name.spec_spellings(), Box::new(NodeView::List(count)))),
            ),
            b.spec_fallback() == self.spec_fallback(),
            b.spec_subs() == self.spec_subs(),
            b.spec_mandatory() == self.spec_mandatory(),
            b.spec_state_id() == id@,
    {
        let gate = NamedNode::new(name.collect(), ListNode::new(count).into_node());
        self.register(id, gate.into_node(), true).fork(RequirableItem(id.to_owned()))
    }

    /// Declares a `--` gate that swallows every remaining token.
    pub fn catch_tail(self, id: &str) -> (b: HingeBuilder<Plain>)
        ensures
            b.spec_priority() == self.spec_priority().push(
                (
                    id@,
                    NodeView::Named(
                        seq!["--"@],
                        Box::new(NodeView::List(Option::<usize>::None)),
                    ),
                ),
            ),
            b.spec_fallback() == self.spec_fallback(),
            b.spec_subs() == self.spec_subs(),
            b.spec_mandatory() == self.spec_mandatory(),
    {
        let mut names: Vec<String> = Vec::new();
        names.push("--".to_owned());
        proof {
            assert(names.deep_view() =~= seq!["--"@]);
        }
        let gate = NamedNode::new(names, ListNode::new(Option::None).into_node());
        self.register(id, gate.into_node(), true)
    }

    /// Declares a positional argument; the declaration may be marked
    /// required next.
    pub fn arg(self, id: &str) -> (b: HingeBuilder<RequirableItem>)
        ensures
            b.spec_fallback() == self.spec_fallback().push((id@, NodeView::OptionalToken)),
            b.spec_priority() == self.spec_priority(),
            b.spec_subs() == self.spec_subs(),
            b.spec_mandatory() == self.spec_mandatory(),
            b.spec_state_id() == id@,
    {
        self.register(id, OptionalTokenNode.into_node(), false).fork(
            RequirableItem(id.to_owned()),
        )
    }

    /// Declares a subcommand: a named gate on `name` that wraps the whole
    /// sub-grammar's result under `id`. The typestate is kept.
    pub fn subcommand(self, id: &str, name: &str, hinge: Hinge) -> (b: HingeBuilder<T>)
        ensures
            b.spec_subs() == self.spec_subs().push(
                NodeView::Help(
                    Box::new(
                        NodeView::KeyWrap(
                            id@,
                            Box::new(
                                NodeView::Named(seq![name@], Box::new(hinge.spec_root())),
                            ),
                        ),
                    ),
                    seq![HelpActionView::Tabulate(true)],
                ),
            ),
            b.spec_priority() == self.spec_priority(),
            b.spec_fallback() == self.spec_fallback(),
            b.spec_mandatory() == self.spec_mandatory(),
    {
        let mut names: Vec<String> = Vec::new();
        names.push(name.to_owned());
        proof {
            assert(names.deep_view() =~= seq![name@]);
        }
        let gate = NamedNode::new(names, hinge.extract());
        let wrap = KeyWrapNode::new(id, gate.into_node());
        let decorated = HelpNode::new(wrap.into_node()).tabulate();
        proof {
            decorated.lemma_model();
            assert(Seq::<HelpActionView>::empty().push(HelpActionView::Tabulate(true))
                =~= seq![HelpActionView::Tabulate(true)]);
        }
        let mut b = self;
        b.subcommands.put(decorated.into_node());
        b
    }

    /// Builds the final consumer: the classification behind the mandatory
    /// check, preceded by the subcommand alternatives when any exist.
    pub fn build(self) -> (h: Hinge)
        ensures
            h.spec_root() == self.spec_built(),
    {
        proof {
            self.node.lemma_model();
        }
        let core = MandatoryItemsNode::new(self.node.into_node(), self.mandatory);
        if self.subcommands.len() > 0 {
            let subs = self.subcommands.or(core.into_node());
            proof {
                subs.lemma_model();
            }
            Hinge::new(subs.into_node())
        } else {
            Hinge::new(core.into_node())
        }
    }
}

impl<T: RequirableField> HingeBuilder<T> {
    /// The identifier the next `require` would mark.
    pub closed spec fn spec_state_id(&self) -> Seq<char> {
        self.state.spec_id()
    }

    /// Marks the most recently declared field as required; marking it twice
    /// records it once.
    pub fn require(self) -> (b: HingeBuilder<T>)
        ensures
            b.spec_mandatory() == if self.spec_mandatory().contains(self.spec_state_id()) {
                self.spec_mandatory()
            } else {
                self.spec_mandatory().push(self.spec_state_id())
            },
            b.spec_subs() == self.spec_subs(),
            b.spec_priority() == self.spec_priority(),
            b.spec_fallback() == self.spec_fallback(),
            b.spec_state_id() == self.spec_state_id(),
    {
        let mut b = self;
        let id: String = b.state.required_id().to_owned();
        if !vec_contains_str(&b.mandatory, id.as_str()) {
            let ghost pre = b.mandatory.deep_view();
            b.mandatory.push(id);
            proof {
                assert(b.mandatory.deep_view() =~= pre.push(b.spec_state_id()));
            }
        }
        b
    }
}

} // verus!
