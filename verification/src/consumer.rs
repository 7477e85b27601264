use vstd::prelude::*;

use crate::error::HingeError;
use crate::help::HelpView;
use crate::help::HingeHelp;
use crate::help::add_names_from;
use crate::help::apply_action_view;
use crate::help::apply_actions_from;
use crate::help::apply_help;
use crate::help::class_child_views;
use crate::help::empty_help;
use crate::help::or_child_views;
use crate::output::HingeCollectionBuilder;
use crate::output::HingeOutput;
use crate::output::OutputView;
use crate::output::entries_view;
use crate::output::lemma_entries_view_from;
use crate::semantics::HelpActionView;
use crate::semantics::NodeView;
use crate::semantics::class_round;
use crate::semantics::class_rounds;
use crate::semantics::consume_matches;
use crate::semantics::consume_spec;
use crate::semantics::fill_missing;
use crate::semantics::lemma_class_progress;
use crate::semantics::lemma_class_rounds_unfold;
use crate::semantics::missing_name_from;
use crate::semantics::or_spec_from;
use crate::semantics::prepend_pairs;
use crate::semantics::undone_count;
use crate::semantics::values_of;
use crate::semantics::winners_from;
use crate::token::Token;
use crate::token::TokenStream;
use crate::token::str_eq;
use vstd::string::StringExecFns;

verus! {

/// A unit implementing the token-consumption protocol: it either commits to
/// the tokens its outcome represents or reports no match with the stream
/// restored, as pinned down by [`consume_spec`] over its model.
pub trait HingeConsumer {
    /// The consumer's place in the specification model.
    spec fn model(&self) -> NodeView;

    /// Runs the consumer over the stream.
    fn consume(&self, stream: &mut TokenStream) -> (r: Result<HingeOutput, HingeError>)
        ensures
            consume_matches(self.model(), old(stream)@, final(stream)@, r),
    ;

    /// Contributes this consumer's names and descriptions to the help tree;
    /// never alters parsing state.
    fn apply_help_info(&self, help: &mut HingeHelp)
        ensures
            final(help)@ == apply_help(self.model(), old(help)@),
    ;
}

/// One help decoration action, applied to a help tree node.
#[derive(Debug, Clone)]
pub enum HelpAction {
    Description(String),
    Tabulate(bool),
}

impl View for HelpAction {
    type V = HelpActionView;

    open spec fn view(&self) -> HelpActionView {
        match self {
            HelpAction::Description(s) => HelpActionView::Description(s@),
            HelpAction::Tabulate(b) => HelpActionView::Tabulate(*b),
        }
    }
}

impl DeepView for HelpAction {
    type V = HelpActionView;

    open spec fn deep_view(&self) -> HelpActionView {
        self.view()
    }
}

/// Consumes nothing and returns `True`: the payload of a boolean flag.
#[derive(Debug, Clone)]
pub struct AlwaysTrueNode;

/// Consumes exactly one token or fails fatally.
#[derive(Debug, Clone)]
pub struct OneTokenNode;

/// Consumes one token when present, else reports no match.
#[derive(Debug, Clone)]
pub struct OptionalTokenNode;

/// Consumes exactly `count` tokens, or every remaining token when unbounded.
#[derive(Debug, Clone)]
pub struct ListNode {
    count: Option<usize>,
}

/// Matches a leading token against accepted spellings before delegating; on
/// a mismatch the token is pushed back and no match is reported.
#[derive(Debug)]
pub struct NamedNode {
    names: Vec<String>,
    wrapped: Box<HingeNode>,
}

/// Order-independent repeated-round matching over named entries: priority
/// entries get first refusal, then fallback entries, until a round makes no
/// progress.
#[derive(Debug)]
pub struct ClassificationNode {
    priority: Vec<(String, HingeNode)>,
    fallback: Vec<(String, HingeNode)>,
}

/// Delegates to its child and then demands that every required name is
/// present and non-`Empty` in the child's map outcome.
#[derive(Debug)]
pub struct MandatoryItemsNode {
    child: Box<HingeNode>,
    names: Vec<String>,
}

/// Wraps a non-`Empty` child outcome in a single-entry map under a label.
#[derive(Debug)]
pub struct KeyWrapNode {
    key: String,
    wrapped: Box<HingeNode>,
}

/// First-success alternation: used for subcommand dispatch.
#[derive(Debug)]
pub struct OrNode {
    alts: Vec<HingeNode>,
}

/// Attaches help metadata to a child without altering parsing.
#[derive(Debug)]
pub struct HelpNode {
    child: Box<HingeNode>,
    actions: Vec<HelpAction>,
}

/// The closed set of consumer nodes, composed into a tree.
#[derive(Debug)]
pub enum HingeNode {
    AlwaysTrue(AlwaysTrueNode),
    OneToken(OneTokenNode),
    OptionalToken(OptionalTokenNode),
    List(ListNode),
    Named(NamedNode),
    Classification(ClassificationNode),
    Mandatory(MandatoryItemsNode),
    KeyWrap(KeyWrapNode),
    Or(OrNode),
    Help(HelpNode),
}

/// The model of node `n`.
pub closed spec fn node_view(n: HingeNode) -> NodeView
    decreases n, 0nat, 0nat,
{
    match n {
        HingeNode::AlwaysTrue(_) => NodeView::AlwaysTrue,
        HingeNode::OneToken(_) => NodeView::OneToken,
        HingeNode::OptionalToken(_) => NodeView::OptionalToken,
        HingeNode::List(l) => NodeView::List(l.count),
        HingeNode::Named(nn) => NodeView::Named(
            nn.names.deep_view(),
            Box::new(node_view(*nn.wrapped)),
        ),
        HingeNode::Classification(c) => NodeView::Classification(
            entry_views_from(c.priority@, 0) + entry_views_from(c.fallback@, 0),
        ),
        HingeNode::Mandatory(m) => NodeView::Mandatory(
            Box::new(node_view(*m.child)),
            m.names.deep_view(),
        ),
        HingeNode::KeyWrap(k) => NodeView::KeyWrap(k.key@, Box::new(node_view(*k.wrapped))),
        HingeNode::Or(o) => NodeView::Or(node_views_from(o.alts@, 0)),
        HingeNode::Help(h) => NodeView::Help(
            Box::new(node_view(*h.child)),
            h.actions.deep_view(),
        ),
    }
}

/// The models of the nodes `s[i..]`.
pub closed spec fn node_views_from(s: Seq<HingeNode>, i: int) -> Seq<NodeView>
    decreases s, 1nat, s.len() - i,
{
    if i < 0 || i >= s.len() {
        Seq::empty()
    } else {
        seq![node_view(s[i])] + node_views_from(s, i + 1)
    }
}

/// The models of the named entries `s[i..]`.
pub closed spec fn entry_views_from(s: Seq<(String, HingeNode)>, i: int) -> Seq<
    (Seq<char>, NodeView),
>
    decreases s, 1nat, s.len() - i,
{
    if i < 0 || i >= s.len() {
        Seq::empty()
    } else {
        seq![(s[i].0@, node_view(s[i].1))] + entry_views_from(s, i + 1)
    }
}

pub proof fn lemma_node_views_from(s: Seq<HingeNode>, i: int)
    requires
        0 <= i <= s.len(),
    ensures
        node_views_from(s, i).len() == s.len() - i,
        forall|j: int| 0 <= j < s.len() - i ==> node_views_from(s, i)[j] == node_view(s[i + j]),
    decreases s.len() - i,
{
    if i < s.len() {
        lemma_node_views_from(s, i + 1);
    }
}

pub proof fn lemma_entry_views_from(s: Seq<(String, HingeNode)>, i: int)
    requires
        0 <= i <= s.len(),
    ensures
        entry_views_from(s, i).len() == s.len() - i,
        forall|j: int| 0 <= j < s.len() - i ==> entry_views_from(s, i)[j] == (
            s[i + j].0@,
            node_view(s[i + j].1),
        ),
    decreases s.len() - i,
{
    if i < s.len() {
        lemma_entry_views_from(s, i + 1);
    }
}

impl View for HingeNode {
    type V = NodeView;

    open spec fn view(&self) -> NodeView {
        node_view(*self)
    }
}

/// Whether one of `names` spells exactly the token `tok`.
#[verifier::loop_isolation(false)]
fn names_contain(names: &Vec<String>, tok: &String) -> (r: bool)
    ensures
        r == names.deep_view().contains(tok@),
{
    let mut i: usize = 0;
    while i < names.len()
        invariant
            0 <= i <= names.len(),
            forall|j: int| 0 <= j < i ==> names.deep_view()[j] != tok@,
        decreases names.len() - i,
    {
        if str_eq(names[i].as_str(), tok.as_str()) {
            proof {
                assert(names.deep_view()[i as int] == tok@);
            }
            return true;
        }
        i = i + 1;
    }
    proof {
        assert forall|j: int| 0 <= j < names.deep_view().len() implies names.deep_view()[j]
            != tok@ by {}
    }
    false
}

/// The fatal message of a failed mandatory-item check.
fn missing_item_error(name: &str) -> (e: HingeError)
    ensures
        e@ == "Expecting item with name: "@ + name@,
{
    let mut m: String = "Expecting item with name: ".to_owned();
    m.append(name);
    HingeError::Message(m)
}

impl AlwaysTrueNode {
    fn run(&self, stream: &mut TokenStream) -> (r: Result<HingeOutput, HingeError>)
        ensures
            consume_matches(self.model(), old(stream)@, final(stream)@, r),
    {
        Ok(HingeOutput::True)
    }
}

impl OneTokenNode {
    fn run(&self, stream: &mut TokenStream) -> (r: Result<HingeOutput, HingeError>)
        ensures
            consume_matches(self.model(), old(stream)@, final(stream)@, r),
    {
        match stream.next() {
            Option::Some(t) => Ok(HingeOutput::Value(t)),
            Option::None => Err(HingeError::from_text("expecting a value")),
        }
    }
}

impl OptionalTokenNode {
    fn run(&self, stream: &mut TokenStream) -> (r: Result<HingeOutput, HingeError>)
        ensures
            consume_matches(self.model(), old(stream)@, final(stream)@, r),
    {
        match stream.next() {
            Option::Some(t) => Ok(HingeOutput::Value(t)),
            Option::None => Ok(HingeOutput::Empty),
        }
    }
}

impl ListNode {
    /// Creates a list consumer; `count` bounds it to exactly that many
    /// tokens, `None` drains the whole remaining stream.
    pub fn new(count: Option<usize>) -> (n: ListNode)
        ensures
            n.model() == NodeView::List(count),
    {
        ListNode { count }
    }

    #[verifier::loop_isolation(false)]
    fn run(&self, stream: &mut TokenStream) -> (r: Result<HingeOutput, HingeError>)
        ensures
            consume_matches(self.model(), old(stream)@, final(stream)@, r),
    {
        broadcast use crate::output::lemma_outs_view_from;

        let ghost s0 = stream@;
        let mut items: Vec<HingeOutput> = Vec::new();
        match self.count {
            Option::Some(count) => {
                let mut taken: usize = 0;
                proof {
                    assert(stream@ =~= s0.skip(0));
                    assert(crate::output::outs_view(items@) =~= values_of(s0.take(0)));
                }
                while taken < count
                    invariant
                        0 <= taken <= count,
                        taken <= s0.len(),
                        stream@ == s0.skip(taken as int),
                        crate::output::outs_view(items@) == values_of(s0.take(taken as int)),
                    decreases count - taken,
                {
                    let ghost items_pre = items@;
                    match stream.next() {
                        Option::Some(t) => {
                            let ghost tv = t@;
                            items.push(HingeOutput::Value(t));
                            taken = taken + 1;
                            proof {
                                crate::output::lemma_outs_view_from(items_pre, 0);
                                crate::output::lemma_outs_view_from(items@, 0);
                                assert(stream@ =~= s0.skip(taken as int));
                                assert(crate::output::outs_view(items@) =~= crate::output::outs_view(
                                    items_pre,
                                ).push(OutputView::Value(tv)));
                                assert(values_of(s0.take(taken as int)) =~= values_of(
                                    s0.take(taken as int - 1),
                                ).push(OutputView::Value(s0[taken as int - 1])));
                            }
                        },
                        Option::None => {
                            proof {
                                assert(stream@ =~= Seq::<Seq<char>>::empty());
                            }
                            return Err(HingeError::from_text("not enough elements"));
                        },
                    }
                }
                proof {
                    assert(stream@ =~= s0.skip(count as int));
                }
                Ok(HingeOutput::List(items))
            },
            Option::None => {
                let ghost mut taken: int = 0;
                proof {
                    assert(stream@ =~= s0.skip(0));
                    assert(crate::output::outs_view(items@) =~= values_of(s0.take(0)));
                }
                while stream.remaining() > 0
                    invariant
                        0 <= taken <= s0.len(),
                        stream@ == s0.skip(taken as int),
                        crate::output::outs_view(items@) == values_of(s0.take(taken as int)),
                    decreases s0.len() - taken,
                {
                    let ghost items_pre = items@;
                    let t: Token = match stream.next() {
                        Option::Some(t) => t,
                        Option::None => {
                            proof {
                                assert(false);
                            }
                            String::new()
                        },
                    };
                    let ghost tv = t@;
                    items.push(HingeOutput::Value(t));
                    proof {
                        taken = taken + 1;
                        crate::output::lemma_outs_view_from(items_pre, 0);
                        crate::output::lemma_outs_view_from(items@, 0);
                        assert(stream@ =~= s0.skip(taken as int));
                        assert(crate::output::outs_view(items@) =~= crate::output::outs_view(
                            items_pre,
                        ).push(OutputView::Value(tv)));
                        assert(values_of(s0.take(taken as int)) =~= values_of(
                            s0.take(taken as int - 1),
                        ).push(OutputView::Value(s0[taken as int - 1])));
                    }
                }
                proof {
                    assert(taken == s0.len());
                    assert(s0.take(taken as int) =~= s0);
                    assert(stream@ =~= Seq::<Seq<char>>::empty());
                }
                Ok(HingeOutput::List(items))
            },
        }
    }
}

impl NamedNode {
    /// Creates a named gate over the accepted spellings `names`, delegating
    /// to `child` once a spelling matches.
    pub fn new(names: Vec<String>, child: HingeNode) -> (n: NamedNode)
        ensures
            n.model() == NodeView::Named(names.deep_view(), Box::new(child@)),
    {
        NamedNode { names, wrapped: Box::new(child) }
    }

    fn run(&self, stream: &mut TokenStream) -> (r: Result<HingeOutput, HingeError>)
        ensures
            consume_matches(self.model(), old(stream)@, final(stream)@, r),
        decreases *self,
    {
        let ghost s0 = stream@;
        match stream.next() {
            Option::None => Ok(HingeOutput::Empty),
            Option::Some(tok) => {
                if !names_contain(&self.names, &tok) {
                    stream.push_front(tok);
                    proof {
                        assert(stream@ =~= s0);
                    }
                    Ok(HingeOutput::Empty)
                } else {
                    self.wrapped.run(stream)
                }
            },
        }
    }
}

impl KeyWrapNode {
    /// Creates a node that wraps `wrapped`'s non-`Empty` outcome in a
    /// single-entry map under `key`.
    pub fn new(key: &str, wrapped: HingeNode) -> (n: KeyWrapNode)
        ensures
            n.model() == NodeView::KeyWrap(key@, Box::new(wrapped@)),
    {
        KeyWrapNode { key: key.to_owned(), wrapped: Box::new(wrapped) }
    }

    fn run(&self, stream: &mut TokenStream) -> (r: Result<HingeOutput, HingeError>)
        ensures
            consume_matches(self.model(), old(stream)@, final(stream)@, r),
        decreases *self,
    {
        match self.wrapped.run(stream) {
            Ok(v) => {
                if v.is_empty() {
                    Ok(v)
                } else {
                    let ghost vv = v@;
                    let mut map: Vec<(String, HingeOutput)> = Vec::new();
                    map.push((self.key.clone(), v));
                    proof {
                        lemma_entries_view_from(map@, 0);
                        assert(entries_view(map@) =~= seq![(self.key@, vv)]);
                    }
                    Ok(HingeOutput::Record(map))
                }
            },
            Err(e) => Err(e),
        }
    }
}

impl HelpNode {
    /// The model of the decorated child.
    pub closed spec fn spec_child(&self) -> NodeView {
        node_view(*self.child)
    }

    /// The models of the decoration actions, in application order.
    pub closed spec fn spec_actions(&self) -> Seq<HelpActionView> {
        self.actions.deep_view()
    }

    /// The model of a decoration is its child and its actions.
    pub proof fn lemma_model(&self)
        ensures
            self.model() == NodeView::Help(Box::new(self.spec_child()), self.spec_actions()),
    {
    }

    /// Decorates `child` with no actions yet.
    pub fn new(child: HingeNode) -> (n: HelpNode)
        ensures
            n.spec_child() == child@,
            n.spec_actions() == Seq::<HelpActionView>::empty(),
            n.model() == NodeView::Help(Box::new(child@), Seq::<HelpActionView>::empty()),
    {
        let n = HelpNode { child: Box::new(child), actions: Vec::new() };
        proof {
            assert(n.actions.deep_view() =~= Seq::<HelpActionView>::empty());
        }
        n
    }

    /// Decorates `child` with one initial action.
    pub fn new_with(child: HingeNode, action: HelpAction) -> (n: HelpNode)
        ensures
            n.spec_child() == child@,
            n.spec_actions() == seq![action@],
            n.model() == NodeView::Help(Box::new(child@), seq![action@]),
    {
        let mut n = HelpNode::new(child);
        n.add(action);
        proof {
            assert(Seq::<HelpActionView>::empty().push(action@) =~= seq![action@]);
        }
        n
    }

    /// Appends one decoration action.
    pub fn add(&mut self, action: HelpAction)
        ensures
            final(self).spec_child() == old(self).spec_child(),
            final(self).spec_actions() == old(self).spec_actions().push(action@),
            final(self).model() == NodeView::Help(
                Box::new(old(self).spec_child()),
                old(self).spec_actions().push(action@),
            ),
    {
        let ghost av = action@;
        let ghost pre = self.actions.deep_view();
        self.actions.push(action);
        proof {
            assert(self.actions.deep_view() =~= pre.push(av));
        }
    }

    /// Appends one decoration action, by value.
    pub fn and(self, action: HelpAction) -> (n: HelpNode)
        ensures
            n.spec_child() == self.spec_child(),
            n.spec_actions() == self.spec_actions().push(action@),
            n.model() == NodeView::Help(
                Box::new(self.spec_child()),
                self.spec_actions().push(action@),
            ),
    {
        let mut n = self;
        n.add(action);
        n
    }

    /// Attaches a description to the decorated node.
    pub fn description(self, description: &str) -> (n: HelpNode)
        ensures
            n.spec_child() == self.spec_child(),
            n.spec_actions() == self.spec_actions().push(HelpActionView::Description(
                description@,
            )),
    {
        self.and(HelpAction::Description(description.to_owned()))
    }

    /// Asks for this node's children to be indented in the rendered help.
    pub fn tabulate(self) -> (n: HelpNode)
        ensures
            n.spec_child() == self.spec_child(),
            n.spec_actions() == self.spec_actions().push(HelpActionView::Tabulate(true)),
    {
        self.and(HelpAction::Tabulate(true))
    }

    /// Asks for this node's children not to be indented in the rendered help.
    pub fn not_tabulate(self) -> (n: HelpNode)
        ensures
            n.spec_child() == self.spec_child(),
            n.spec_actions() == self.spec_actions().push(HelpActionView::Tabulate(false)),
    {
        self.and(HelpAction::Tabulate(false))
    }

    fn run(&self, stream: &mut TokenStream) -> (r: Result<HingeOutput, HingeError>)
        ensures
            consume_matches(self.model(), old(stream)@, final(stream)@, r),
        decreases *self,
    {
        self.child.run(stream)
    }
}

impl OrNode {
    /// The models of the alternatives, in attempt order.
    pub closed spec fn spec_alts(&self) -> Seq<NodeView> {
        node_views_from(self.alts@, 0)
    }

    /// The model of an alternation is its alternatives, in attempt order.
    pub proof fn lemma_model(&self)
        ensures
            self.model() == NodeView::Or(self.spec_alts()),
    {
    }

    /// Creates an alternation with no alternatives yet.
    pub fn new() -> (n: OrNode)
        ensures
            n.spec_alts() == Seq::<NodeView>::empty(),
            n.model() == NodeView::Or(Seq::<NodeView>::empty()),
    {
        OrNode { alts: Vec::new() }
    }

    /// Appends an alternative.
    pub fn put(&mut self, value: HingeNode)
        ensures
            final(self).spec_alts() == old(self).spec_alts().push(value@),
            final(self).model() == NodeView::Or(old(self).spec_alts().push(value@)),
    {
        let ghost vv = value@;
        let ghost pre = self.alts@;
        self.alts.push(value);
        proof {
            lemma_node_views_from(pre, 0);
            lemma_node_views_from(self.alts@, 0);
            assert(node_views_from(self.alts@, 0) =~= node_views_from(pre, 0).push(vv));
        }
    }

    /// Appends an alternative, by value.
    pub fn or(self, value: HingeNode) -> (n: OrNode)
        ensures
            n.spec_alts() == self.spec_alts().push(value@),
            n.model() == NodeView::Or(self.spec_alts().push(value@)),
    {
        let mut n = self;
        n.put(value);
        n
    }

    /// The number of alternatives.
    pub fn len(&self) -> (n: usize)
        ensures
            n == self.spec_alts().len(),
    {
        proof {
            lemma_node_views_from(self.alts@, 0);
        }
        self.alts.len()
    }

    #[verifier::loop_isolation(false)]
    fn run(&self, stream: &mut TokenStream) -> (r: Result<HingeOutput, HingeError>)
        ensures
            consume_matches(self.model(), old(stream)@, final(stream)@, r),
        decreases *self,
    {
        let ghost alts_v = node_views_from(self.alts@, 0);
        let ghost s0 = stream@;
        proof {
            lemma_node_views_from(self.alts@, 0);
        }
        let mut i: usize = 0;
        while i < self.alts.len()
            invariant
                0 <= i <= self.alts.len(),
                alts_v == node_views_from(self.alts@, 0),
                alts_v.len() == self.alts@.len(),
                forall|j: int| 0 <= j < alts_v.len() ==> alts_v[j] == node_view(self.alts@[j]),
                or_spec_from(alts_v, 0, s0) == or_spec_from(alts_v, i as int, stream@),
            decreases self.alts.len() - i,
        {
            match self.alts[i].run(stream) {
                Ok(v) => {
                    if v.is_empty() {
                        i = i + 1;
                    } else {
                        return Ok(v);
                    }
                },
                Err(e) => {
                    return Err(e);
                },
            }
        }
        Ok(HingeOutput::Empty)
    }
}

impl MandatoryItemsNode {
    /// Creates a wrapper that demands a present, non-`Empty` entry for every
    /// required name in `names`.
    pub fn new(child: HingeNode, names: Vec<String>) -> (n: MandatoryItemsNode)
        ensures
            n.model() == NodeView::Mandatory(Box::new(child@), names.deep_view()),
    {
        MandatoryItemsNode { child: Box::new(child), names }
    }

    #[verifier::loop_isolation(false)]
    fn run(&self, stream: &mut TokenStream) -> (r: Result<HingeOutput, HingeError>)
        ensures
            consume_matches(self.model(), old(stream)@, final(stream)@, r),
        decreases *self,
    {
        let out = match self.child.run(stream) {
            Ok(o) => o,
            Err(e) => {
                return Err(e);
            },
        };
        let builder = match out.into_builder() {
            Ok(b) => b,
            Err(e) => {
                return Err(e);
            },
        };
        let ghost map = builder.spec_map();
        let ghost nv = self.names.deep_view();
        let mut i: usize = 0;
        while i < self.names.len()
            invariant
                0 <= i <= self.names.len(),
                map == builder.spec_map(),
                nv == self.names.deep_view(),
                nv.len() == self.names@.len(),
                missing_name_from(map, nv, 0) == missing_name_from(map, nv, i as int),
            decreases self.names.len() - i,
        {
            let name = &self.names[i];
            proof {
                assert(nv[i as int] == name@);
            }
            match builder.get_item(name.as_str()) {
                Option::Some(o) => {
                    if o.is_empty() {
                        return Err(missing_item_error(name.as_str()));
                    }
                },
                Option::None => {
                    return Err(missing_item_error(name.as_str()));
                },
            }
            i = i + 1;
        }
        Ok(builder.collect())
    }
}

/// Runs one classification round over the entries of `part`, whose models
/// stand in `entries` beginning at `offset`: every entry without a recorded
/// result attempts its consumer, and the attempts are appended in order.
#[verifier::loop_isolation(false)]
fn run_entries(
    part: &Vec<(String, HingeNode)>,
    builder: &HingeCollectionBuilder,
    attempts: &mut Vec<(String, HingeOutput)>,
    stream: &mut TokenStream,
    Ghost(entries): Ghost<Seq<(Seq<char>, NodeView)>>,
    Ghost(offset): Ghost<int>,
) -> (fail: Option<HingeError>)
    requires
        0 <= offset,
        offset + part@.len() <= entries.len(),
        forall|j: int| 0 <= j < part@.len() ==> entries[offset + j] == (
            #[trigger] part@[j].0@,
            node_view(part@[j].1),
        ),
    ensures
        match fail {
            Option::None => prepend_pairs(
                entries_view(final(attempts)@),
                class_round(entries, offset + part@.len(), builder.spec_map(), final(stream)@),
            ) == prepend_pairs(
                entries_view(old(attempts)@),
                class_round(entries, offset, builder.spec_map(), old(stream)@),
            ),
            Option::Some(e) => class_round(entries, offset, builder.spec_map(), old(stream)@) == (
                Result::<Seq<(Seq<char>, OutputView)>, Seq<char>>::Err(e@),
                final(stream)@,
            ),
        },
    decreases part,
{
    let ghost done = builder.spec_map();
    let mut i: usize = 0;
    while i < part.len()
        invariant
            0 <= i <= part@.len(),
            done == builder.spec_map(),
            offset + part@.len() <= entries.len(),
            0 <= offset,
            forall|j: int| 0 <= j < part@.len() ==> entries[offset + j] == (
                #[trigger] part@[j].0@,
                node_view(part@[j].1),
            ),
            prepend_pairs(
                entries_view(attempts@),
                class_round(entries, offset + i as int, done, stream@),
            ) == prepend_pairs(
                entries_view(old(attempts)@),
                class_round(entries, offset, done, old(stream)@),
            ),
        decreases part@.len() - i,
    {
        let ghost s_pre = stream@;
        let ghost attempts_pre = attempts@;
        let name = &part[i].0;
        if !builder.has_item(name.as_str()) {
            match part[i].1.run(stream) {
                Ok(out) => {
                    let ghost ov = out@;
                    attempts.push((name.clone(), out));
                    proof {
                        lemma_entries_view_from(attempts_pre, 0);
                        lemma_entries_view_from(attempts@, 0);
                        assert(entries_view(attempts@) =~= entries_view(attempts_pre).push(
                            (name@, ov),
                        ));
                        let idx = offset + i as int;
                        assert(entries[idx] == (name@, node_view(part@[i as int].1)));
                        let step = class_round(entries, idx + 1, done, stream@);
                        assert(class_round(entries, idx, done, s_pre) == prepend_pairs(
                            seq![(name@, ov)],
                            step,
                        ));
                        if step.0 is Ok {
                            let fut = step.0->Ok_0;
                            assert(entries_view(attempts_pre).push((name@, ov)) + fut
                                =~= entries_view(attempts_pre) + (seq![(name@, ov)] + fut));
                        }
                        assert(prepend_pairs(entries_view(attempts@), step) == prepend_pairs(
                            entries_view(attempts_pre),
                            class_round(entries, idx, done, s_pre),
                        ));
                    }
                },
                Err(e) => {
                    proof {
                        let idx = offset + i as int;
                        assert(entries[idx] == (name@, node_view(part@[i as int].1)));
                        assert(class_round(entries, idx, done, s_pre) == (
                            Result::<Seq<(Seq<char>, OutputView)>, Seq<char>>::Err(e@),
                            stream@,
                        ));
                    }
                    return Option::Some(e);
                },
            }
        } else {
            proof {
                let idx = offset + i as int;
                assert(entries[idx].0 == name@);
                assert(class_round(entries, idx, done, s_pre) == class_round(
                    entries,
                    idx + 1,
                    done,
                    s_pre,
                ));
            }
        }
        i = i + 1;
    }
    Option::None
}

/// Records the `Empty` outcome for every entry of `part` (whose models stand
/// in `entries` beginning at `offset`) that has no recorded result yet.
#[verifier::loop_isolation(false)]
fn fill_entries(
    part: &Vec<(String, HingeNode)>,
    builder: &mut HingeCollectionBuilder,
    Ghost(entries): Ghost<Seq<(Seq<char>, NodeView)>>,
    Ghost(offset): Ghost<int>,
)
    requires
        0 <= offset,
        offset + part@.len() <= entries.len(),
        forall|j: int| 0 <= j < part@.len() ==> entries[offset + j] == (
            #[trigger] part@[j].0@,
            node_view(part@[j].1),
        ),
    ensures
        final(builder).spec_list() == old(builder).spec_list(),
        fill_missing(entries, offset, old(builder).spec_map()) == fill_missing(
            entries,
            offset + part@.len(),
            final(builder).spec_map(),
        ),
{
    let mut i: usize = 0;
    while i < part.len()
        invariant
            0 <= i <= part@.len(),
            0 <= offset,
            offset + part@.len() <= entries.len(),
            forall|j: int| 0 <= j < part@.len() ==> entries[offset + j] == (
                #[trigger] part@[j].0@,
                node_view(part@[j].1),
            ),
            builder.spec_list() == old(builder).spec_list(),
            fill_missing(entries, offset, old(builder).spec_map()) == fill_missing(
                entries,
                offset + i as int,
                builder.spec_map(),
            ),
        decreases part@.len() - i,
    {
        let name = &part[i].0;
        let ghost done_pre = builder.spec_map();
        if !builder.has_item(name.as_str()) {
            builder.add_item(name.as_str(), HingeOutput::Empty);
        }
        proof {
            let idx = offset + i as int;
            assert(entries[idx].0 == name@);
            if crate::output::assoc_has(done_pre, name@) {
                assert(fill_missing(entries, idx, done_pre) == fill_missing(
                    entries,
                    idx + 1,
                    done_pre,
                ));
            } else {
                assert(fill_missing(entries, idx, done_pre) == fill_missing(
                    entries,
                    idx + 1,
                    crate::output::assoc_put(done_pre, name@, OutputView::Empty),
                ));
            }
        }
        i = i + 1;
    }
}

impl ClassificationNode {
    /// The models of the priority entries, in declaration order.
    pub closed spec fn spec_priority(&self) -> Seq<(Seq<char>, NodeView)> {
        entry_views_from(self.priority@, 0)
    }

    /// The models of the fallback entries, in declaration order.
    pub closed spec fn spec_fallback(&self) -> Seq<(Seq<char>, NodeView)> {
        entry_views_from(self.fallback@, 0)
    }

    /// The model of a classification is its entries, priority first.
    pub proof fn lemma_model(&self)
        ensures
            self.model() == NodeView::Classification(self.spec_priority() + self.spec_fallback()),
    {
    }

    /// Creates a classification with no entries.
    pub fn new() -> (n: ClassificationNode)
        ensures
            n.spec_priority() == Seq::<(Seq<char>, NodeView)>::empty(),
            n.spec_fallback() == Seq::<(Seq<char>, NodeView)>::empty(),
            n.model() == NodeView::Classification(Seq::<(Seq<char>, NodeView)>::empty()),
    {
        let n = ClassificationNode { priority: Vec::new(), fallback: Vec::new() };
        proof {
            assert(n.spec_priority() + n.spec_fallback() =~= Seq::<
                (Seq<char>, NodeView),
            >::empty());
        }
        n
    }

    /// Adds an entry under `id`; priority entries are attempted before
    /// fallback entries in every round.
    pub fn put(&mut self, id: &str, value: HingeNode, prioritary: bool)
        ensures
            prioritary ==> final(self).spec_priority() == old(self).spec_priority().push(
                (id@, value@),
            ) && final(self).spec_fallback() == old(self).spec_fallback(),
            !prioritary ==> final(self).spec_fallback() == old(self).spec_fallback().push(
                (id@, value@),
            ) && final(self).spec_priority() == old(self).spec_priority(),
            final(self).model() == NodeView::Classification(
                final(self).spec_priority() + final(self).spec_fallback(),
            ),
    {
        let ghost vv = value@;
        if prioritary {
            let ghost pre = self.priority@;
            self.priority.push((id.to_owned(), value));
            proof {
                lemma_entry_views_from(pre, 0);
                lemma_entry_views_from(self.priority@, 0);
                assert(entry_views_from(self.priority@, 0) =~= entry_views_from(pre, 0).push(
                    (id@, vv),
                ));
            }
        } else {
            let ghost pre = self.fallback@;
            self.fallback.push((id.to_owned(), value));
            proof {
                lemma_entry_views_from(pre, 0);
                lemma_entry_views_from(self.fallback@, 0);
                assert(entry_views_from(self.fallback@, 0) =~= entry_views_from(pre, 0).push(
                    (id@, vv),
                ));
            }
        }
    }

    #[verifier::loop_isolation(false)]
    /// Borrows every entry, priority entries first, in attempt order.
    pub fn all_entries(&self) -> (r: Vec<&(String, HingeNode)>)
        ensures
            r@.len() == self.spec_priority().len() + self.spec_fallback().len(),
            forall|j: int| 0 <= j < r@.len() ==> (self.spec_priority() + self.spec_fallback())[j]
                == (#[trigger] r@[j].0@, node_view(r@[j].1)),
    {
        proof {
            lemma_entry_views_from(self.priority@, 0);
            lemma_entry_views_from(self.fallback@, 0);
        }
        let ghost entries = self.spec_priority() + self.spec_fallback();
        let mut r: Vec<&(String, HingeNode)> = Vec::new();
        let mut i: usize = 0;
        while i < self.priority.len()
            invariant
                0 <= i <= self.priority@.len(),
                r@.len() == i,
                forall|j: int| 0 <= j < i ==> entries[j] == (#[trigger] r@[j].0@, node_view(
                    r@[j].1,
                )),
            decreases self.priority@.len() - i,
        {
            let ghost r_pre = r@;
            r.push(&self.priority[i]);
            proof {
                assert(self.spec_priority()[i as int] == (self.priority@[i as int].0@, node_view(
                    self.priority@[i as int].1,
                )));
                assert(entries[i as int] == self.spec_priority()[i as int]);
                assert forall|j: int| 0 <= j < i + 1 implies entries[j] == (
                    #[trigger] r@[j].0@,
                    node_view(r@[j].1),
                ) by {
                    if j < i {
                        assert(r@[j] == r_pre[j]);
                        assert(entries[j] == (r_pre[j].0@, node_view(r_pre[j].1)));
                    } else {
                        assert(r@[j] == &self.priority@[i as int]);
                    }
                }
            }
            i = i + 1;
        }
        let mut k: usize = 0;
        while k < self.fallback.len()
            invariant
                0 <= k <= self.fallback@.len(),
                r@.len() == self.priority@.len() + k,
                forall|j: int| 0 <= j < r@.len() ==> entries[j] == (#[trigger] r@[j].0@, node_view(
                    r@[j].1,
                )),
            decreases self.fallback@.len() - k,
        {
            let ghost r_pre = r@;
            r.push(&self.fallback[k]);
            proof {
                let idx = self.priority@.len() + k as int;
                assert(self.spec_fallback()[k as int] == (self.fallback@[k as int].0@, node_view(
                    self.fallback@[k as int].1,
                )));
                assert(entries[idx] == self.spec_fallback()[k as int]);
                assert forall|j: int| 0 <= j < r@.len() implies entries[j] == (
                    #[trigger] r@[j].0@,
                    node_view(r@[j].1),
                ) by {
                    if j < r_pre.len() {
                        assert(r@[j] == r_pre[j]);
                        assert(entries[j] == (r_pre[j].0@, node_view(r_pre[j].1)));
                    } else {
                        assert(r@[j] == &self.fallback@[k as int]);
                    }
                }
            }
            k = k + 1;
        }
        r
    }

    #[verifier::loop_isolation(false)]
    fn run(&self, stream: &mut TokenStream) -> (r: Result<HingeOutput, HingeError>)
        ensures
            consume_matches(self.model(), old(stream)@, final(stream)@, r),
        decreases *self,
    {
        let ghost entries = self.spec_priority() + self.spec_fallback();
        let ghost s0 = stream@;
        proof {
            lemma_entry_views_from(self.priority@, 0);
            lemma_entry_views_from(self.fallback@, 0);
        }
        let mut builder = HingeCollectionBuilder::new();
        loop
            invariant
                entries == self.spec_priority() + self.spec_fallback(),
                entries.len() == self.priority@.len() + self.fallback@.len(),
                builder.spec_list() == Seq::<OutputView>::empty(),
                class_rounds(entries, builder.spec_map(), stream@) == class_rounds(
                    entries,
                    Seq::<(Seq<char>, OutputView)>::empty(),
                    s0,
                ),
            decreases undone_count(entries, builder.spec_map()),
        {
            let ghost done = builder.spec_map();
            let ghost s_round = stream@;
            proof {
                lemma_entry_views_from(self.priority@, 0);
                lemma_entry_views_from(self.fallback@, 0);
            }
            let mut attempts: Vec<(String, HingeOutput)> = Vec::new();
            proof {
                lemma_entries_view_from(attempts@, 0);
                assert(entries_view(attempts@) =~= Seq::<(Seq<char>, OutputView)>::empty());
            }
            let fail = run_entries(
                &self.priority,
                &builder,
                &mut attempts,
                stream,
                Ghost(entries),
                Ghost(0),
            );
            match fail {
                Option::Some(e) => {
                    proof {
                        lemma_class_rounds_unfold(entries, done, s_round);
                        assert(class_rounds(entries, done, s_round) == (
                            Result::<OutputView, Seq<char>>::Err(e@),
                            stream@,
                        ));
                    }
                    return Err(e);
                },
                Option::None => {},
            }
            let fail = run_entries(
                &self.fallback,
                &builder,
                &mut attempts,
                stream,
                Ghost(entries),
                Ghost(self.priority@.len() as int),
            );
            match fail {
                Option::Some(e) => {
                    proof {
                        lemma_class_rounds_unfold(entries, done, s_round);
                        assert(class_rounds(entries, done, s_round) == (
                            Result::<OutputView, Seq<char>>::Err(e@),
                            stream@,
                        ));
                    }
                    return Err(e);
                },
                Option::None => {},
            }
            let ghost pairs = entries_view(attempts@);
            proof {
                assert(class_round(entries, entries.len() as int, done, stream@) == (
                    Result::<Seq<(Seq<char>, OutputView)>, Seq<char>>::Ok(
                        Seq::<(Seq<char>, OutputView)>::empty(),
                    ),
                    stream@,
                ));
                assert(pairs + Seq::<(Seq<char>, OutputView)>::empty() =~= pairs);
                assert(Seq::<(Seq<char>, OutputView)>::empty() + pairs =~= pairs);
                assert(class_round(entries, 0, done, s_round) == (
                    Result::<Seq<(Seq<char>, OutputView)>, Seq<char>>::Ok(pairs),
                    stream@,
                ));
            }
            let ghost s_after_round = stream@;
            proof {
                lemma_entries_view_from(attempts@, 0);
                assert(entries_view(attempts@) =~= pairs.skip(0));
            }
            let mut progressed = false;
            let ghost mut jj: int = 0;
            while attempts.len() > 0
                invariant
                    0 <= jj <= pairs.len(),
                    pairs.len() - jj == attempts@.len(),
                    entries_view(attempts@) == pairs.skip(jj),
                    builder.spec_list() == Seq::<OutputView>::empty(),
                    crate::semantics::assoc_put_all(done, winners_from(pairs, 0))
                        == crate::semantics::assoc_put_all(
                        builder.spec_map(),
                        winners_from(pairs, jj),
                    ),
                    winners_from(pairs, 0).len() >= winners_from(pairs, jj).len(),
                    progressed == (winners_from(pairs, 0).len() > winners_from(
                        pairs,
                        jj,
                    ).len()),
                decreases attempts@.len(),
            {
                let ghost attempts_pre = attempts@;
                let (name, out) = attempts.remove(0);
                proof {
                    lemma_entries_view_from(attempts_pre, 0);
                    lemma_entries_view_from(attempts@, 0);
                    assert(entries_view(attempts@) =~= entries_view(attempts_pre).drop_first());
                    assert(entries_view(attempts@) =~= pairs.skip(jj + 1));
                    assert(entries_view(attempts_pre)[0] == (name@, out@));
                    assert(pairs[jj] == (name@, out@));
                }
                if !out.is_empty() {
                    builder.add_item(name.as_str(), out);
                    progressed = true;
                    proof {
                        assert(winners_from(pairs, jj) =~= seq![pairs[jj]] + winners_from(
                            pairs,
                            jj + 1,
                        ));
                        assert(winners_from(pairs, jj)[0] == pairs[jj]);
                        assert(winners_from(pairs, jj).drop_first() =~= winners_from(
                            pairs,
                            jj + 1,
                        ));
                    }
                } else {
                    proof {
                        assert(winners_from(pairs, jj) == winners_from(pairs, jj + 1));
                    }
                }
                proof {
                    jj = jj + 1;
                }
            }
            proof {
                assert(winners_from(pairs, jj) =~= Seq::<(Seq<char>, OutputView)>::empty());
                assert(crate::semantics::assoc_put_all(done, winners_from(pairs, 0))
                    == builder.spec_map());
            }
            if !progressed {
                proof {
                    assert(winners_from(pairs, 0).len() == 0);
                    assert(winners_from(pairs, 0) =~= Seq::<(Seq<char>, OutputView)>::empty());
                    assert(builder.spec_map() == done);
                    lemma_class_rounds_unfold(entries, done, s_round);
                    assert(class_rounds(entries, done, s_round) == (
                        Result::<OutputView, Seq<char>>::Ok(
                            OutputView::Record(fill_missing(entries, 0, done)),
                        ),
                        s_after_round,
                    ));
                }
                let ghost done_loop = builder.spec_map();
                fill_entries(&self.priority, &mut builder, Ghost(entries), Ghost(0));
                fill_entries(
                    &self.fallback,
                    &mut builder,
                    Ghost(entries),
                    Ghost(self.priority@.len() as int),
                );
                proof {
                    assert(fill_missing(entries, entries.len() as int, builder.spec_map())
                        == builder.spec_map());
                    assert(fill_missing(entries, 0, done_loop) == builder.spec_map());
                }
                return Ok(builder.collect());
            }
            proof {
                assert(winners_from(pairs, 0).len() > 0);
                lemma_class_progress(entries, done, s_round);
                lemma_class_rounds_unfold(entries, done, s_round);
                assert(class_rounds(entries, done, s_round) == class_rounds(
                    entries,
                    builder.spec_map(),
                    s_after_round,
                ));
            }
        }
    }
}

impl HingeNode {
    /// Runs this node's consumer over the stream.
    pub fn run(&self, stream: &mut TokenStream) -> (r: Result<HingeOutput, HingeError>)
        ensures
            consume_matches(node_view(*self), old(stream)@, final(stream)@, r),
        decreases *self,
    {
        match self {
            HingeNode::AlwaysTrue(n) => n.run(stream),
            HingeNode::OneToken(n) => n.run(stream),
            HingeNode::OptionalToken(n) => n.run(stream),
            HingeNode::List(n) => n.run(stream),
            HingeNode::Named(n) => n.run(stream),
            HingeNode::Classification(n) => n.run(stream),
            HingeNode::Mandatory(n) => n.run(stream),
            HingeNode::KeyWrap(n) => n.run(stream),
            HingeNode::Or(n) => n.run(stream),
            HingeNode::Help(n) => n.run(stream),
        }
    }
}

impl AlwaysTrueNode {
    /// Wraps this consumer as a tree node.
    pub fn into_node(self) -> (n: HingeNode)
        ensures
            n@ == self.model(),
    {
        HingeNode::AlwaysTrue(self)
    }
}

impl OneTokenNode {
    /// Wraps this consumer as a tree node.
    pub fn into_node(self) -> (n: HingeNode)
        ensures
            n@ == self.model(),
    {
        HingeNode::OneToken(self)
    }
}

impl OptionalTokenNode {
    /// Wraps this consumer as a tree node.
    pub fn into_node(self) -> (n: HingeNode)
        ensures
            n@ == self.model(),
    {
        HingeNode::OptionalToken(self)
    }
}

impl ListNode {
    /// Wraps this consumer as a tree node.
    pub fn into_node(self) -> (n: HingeNode)
        ensures
            n@ == self.model(),
    {
        HingeNode::List(self)
    }
}

impl NamedNode {
    /// Wraps this consumer as a tree node.
    pub fn into_node(self) -> (n: HingeNode)
        ensures
            n@ == self.model(),
    {
        HingeNode::Named(self)
    }
}

impl ClassificationNode {
    /// Wraps this consumer as a tree node.
    pub fn into_node(self) -> (n: HingeNode)
        ensures
            n@ == self.model(),
    {
        HingeNode::Classification(self)
    }
}

impl MandatoryItemsNode {
    /// Wraps this consumer as a tree node.
    pub fn into_node(self) -> (n: HingeNode)
        ensures
            n@ == self.model(),
    {
        HingeNode::Mandatory(self)
    }
}

impl KeyWrapNode {
    /// Wraps this consumer as a tree node.
    pub fn into_node(self) -> (n: HingeNode)
        ensures
            n@ == self.model(),
    {
        HingeNode::KeyWrap(self)
    }
}

impl OrNode {
    /// Wraps this consumer as a tree node.
    pub fn into_node(self) -> (n: HingeNode)
        ensures
            n@ == self.model(),
    {
        HingeNode::Or(self)
    }
}

impl HelpNode {
    /// Wraps this consumer as a tree node.
    pub fn into_node(self) -> (n: HingeNode)
        ensures
            n@ == self.model(),
    {
        HingeNode::Help(self)
    }
}

impl AlwaysTrueNode {
    fn describe(&self, help: &mut HingeHelp)
        ensures
            final(help)@ == apply_help(self.model(), old(help)@),
    {
    }
}

impl OneTokenNode {
    fn describe(&self, help: &mut HingeHelp)
        ensures
            final(help)@ == apply_help(self.model(), old(help)@),
    {
    }
}

impl OptionalTokenNode {
    fn describe(&self, help: &mut HingeHelp)
        ensures
            final(help)@ == apply_help(self.model(), old(help)@),
    {
    }
}

impl ListNode {
    fn describe(&self, help: &mut HingeHelp)
        ensures
            final(help)@ == apply_help(self.model(), old(help)@),
    {
    }
}

impl NamedNode {
    #[verifier::loop_isolation(false)]
    fn describe(&self, help: &mut HingeHelp)
        ensures
            final(help)@ == apply_help(self.model(), old(help)@),
        decreases *self,
    {
        let ghost h0 = help@;
        let ghost nv = self.names.deep_view();
        let mut i: usize = 0;
        while i < self.names.len()
            invariant
                0 <= i <= self.names@.len(),
                add_names_from(h0, nv, 0) == add_names_from(help@, nv, i as int),
            decreases self.names@.len() - i,
        {
            let ghost pre = help@;
            help.add_name(self.names[i].as_str());
            proof {
                assert(nv[i as int] == self.names@[i as int]@);
                assert(help@ =~= (HelpView { names: pre.names.push(nv[i as int]), ..pre }));
            }
            i = i + 1;
        }
        self.wrapped.describe(help);
    }
}

impl HelpNode {
    #[verifier::loop_isolation(false)]
    fn describe(&self, help: &mut HingeHelp)
        ensures
            final(help)@ == apply_help(self.model(), old(help)@),
        decreases *self,
    {
        let ghost h0 = help@;
        let ghost av = self.actions.deep_view();
        let mut i: usize = 0;
        while i < self.actions.len()
            invariant
                0 <= i <= self.actions@.len(),
                apply_actions_from(h0, av, 0) == apply_actions_from(help@, av, i as int),
            decreases self.actions@.len() - i,
        {
            let ghost pre = help@;
            match &self.actions[i] {
                HelpAction::Description(d) => {
                    help.set_description(d.as_str());
                },
                HelpAction::Tabulate(b) => {
                    help.set_tabulate_childs(*b);
                },
            }
            proof {
                assert(av[i as int] == self.actions@[i as int]@);
                assert(help@ =~= apply_action_view(pre, av[i as int]));
            }
            i = i + 1;
        }
        self.child.describe(help);
    }
}

impl MandatoryItemsNode {
    fn describe(&self, help: &mut HingeHelp)
        ensures
            final(help)@ == apply_help(self.model(), old(help)@),
        decreases *self,
    {
        self.child.describe(help);
    }
}

impl KeyWrapNode {
    fn describe(&self, help: &mut HingeHelp)
        ensures
            final(help)@ == apply_help(self.model(), old(help)@),
        decreases *self,
    {
        self.wrapped.describe(help);
    }
}

/// Contributes one help child per entry of `part`, whose models stand in
/// `entries` beginning at `offset`: each child shows `<name>` and holds the
/// entry's own contribution.
#[verifier::loop_isolation(false)]
fn describe_entries(
    part: &Vec<(String, HingeNode)>,
    help: &mut HingeHelp,
    Ghost(entries): Ghost<Seq<(Seq<char>, NodeView)>>,
    Ghost(offset): Ghost<int>,
)
    requires
        0 <= offset,
        offset + part@.len() <= entries.len(),
        forall|j: int| 0 <= j < part@.len() ==> entries[offset + j] == (
            #[trigger] part@[j].0@,
            node_view(part@[j].1),
        ),
    ensures
        final(help)@.names == old(help)@.names,
        final(help)@.alt == old(help)@.alt,
        final(help)@.desc == old(help)@.desc,
        final(help)@.tab == old(help)@.tab,
        final(help)@.childs + class_child_views(entries, offset + part@.len()) == old(
            help,
        )@.childs + class_child_views(entries, offset),
    decreases part,
{
    let mut i: usize = 0;
    while i < part.len()
        invariant
            0 <= i <= part@.len(),
            help@.names == old(help)@.names,
            help@.alt == old(help)@.alt,
            help@.desc == old(help)@.desc,
            help@.tab == old(help)@.tab,
            help@.childs + class_child_views(entries, offset + i as int) == old(help)@.childs
                + class_child_views(entries, offset),
        decreases part@.len() - i,
    {
        let ghost pre_childs = help@.childs;
        let mut alt: String = "<".to_owned();
        alt.append(part[i].0.as_str());
        alt.append(">");
        let child = help.get_new_child();
        child.set_alternative_name(alt.as_str());
        part[i].1.describe(child);
        proof {
            let idx = offset + i as int;
            assert(entries[idx] == (part@[i as int].0@, node_view(part@[i as int].1)));
            let base = HelpView {
                alt: Option::Some("<"@ + entries[idx].0 + ">"@),
                ..empty_help()
            };
            assert((HelpView { alt: Option::Some(alt@), ..empty_help() }) =~= base);
            assert(class_child_views(entries, idx) == seq![apply_help(entries[idx].1, base)]
                + class_child_views(entries, idx + 1));
            assert(pre_childs.push(apply_help(entries[idx].1, base)) + class_child_views(
                entries,
                idx + 1,
            ) =~= pre_childs + class_child_views(entries, idx));
        }
        i = i + 1;
    }
}

/// Contributes one help child per alternative of `part`, whose models stand
/// in `alts`.
#[verifier::loop_isolation(false)]
fn describe_alts(
    part: &Vec<HingeNode>,
    help: &mut HingeHelp,
    Ghost(alts): Ghost<Seq<NodeView>>,
)
    requires
        alts.len() == part@.len(),
        forall|j: int| 0 <= j < part@.len() ==> alts[j] == node_view(#[trigger] part@[j]),
    ensures
        final(help)@.names == old(help)@.names,
        final(help)@.alt == old(help)@.alt,
        final(help)@.desc == old(help)@.desc,
        final(help)@.tab == old(help)@.tab,
        final(help)@.childs == old(help)@.childs + or_child_views(alts, 0),
    decreases part,
{
    let mut i: usize = 0;
    while i < part.len()
        invariant
            0 <= i <= part@.len(),
            help@.names == old(help)@.names,
            help@.alt == old(help)@.alt,
            help@.desc == old(help)@.desc,
            help@.tab == old(help)@.tab,
            help@.childs + or_child_views(alts, i as int) == old(help)@.childs + or_child_views(
                alts,
                0,
            ),
        decreases part@.len() - i,
    {
        let ghost pre_childs = help@.childs;
        let child = help.get_new_child();
        part[i].describe(child);
        proof {
            assert(or_child_views(alts, i as int) == seq![apply_help(alts[i as int], empty_help())]
                + or_child_views(alts, i + 1));
            assert(pre_childs.push(apply_help(alts[i as int], empty_help())) + or_child_views(
                alts,
                i + 1,
            ) =~= pre_childs + or_child_views(alts, i as int));
        }
        i = i + 1;
    }
    proof {
        assert(or_child_views(alts, part@.len() as int) =~= Seq::<HelpView>::empty());
        assert(help@.childs + Seq::<HelpView>::empty() =~= help@.childs);
    }
}

impl ClassificationNode {
    fn describe(&self, help: &mut HingeHelp)
        ensures
            final(help)@ == apply_help(self.model(), old(help)@),
        decreases *self,
    {
        let ghost entriesv = self.spec_priority() + self.spec_fallback();
        proof {
            lemma_entry_views_from(self.priority@, 0);
            lemma_entry_views_from(self.fallback@, 0);
        }
        describe_entries(&self.priority, help, Ghost(entriesv), Ghost(0));
        describe_entries(
            &self.fallback,
            help,
            Ghost(entriesv),
            Ghost(self.priority@.len() as int),
        );
        proof {
            assert(class_child_views(entriesv, entriesv.len() as int)
                =~= Seq::<HelpView>::empty());
            assert(help@.childs + Seq::<HelpView>::empty() =~= help@.childs);
            assert(help@ =~= (HelpView {
                childs: old(help)@.childs + class_child_views(entriesv, 0),
                ..old(help)@
            }));
        }
    }
}

impl OrNode {
    fn describe(&self, help: &mut HingeHelp)
        ensures
            final(help)@ == apply_help(self.model(), old(help)@),
        decreases *self,
    {
        proof {
            lemma_node_views_from(self.alts@, 0);
        }
        describe_alts(&self.alts, help, Ghost(node_views_from(self.alts@, 0)));
        proof {
            assert(help@ =~= (HelpView {
                childs: old(help)@.childs + or_child_views(node_views_from(self.alts@, 0), 0),
                ..old(help)@
            }));
        }
    }
}

impl HingeNode {
    /// Contributes this node's help information to the help tree.
    pub fn describe(&self, help: &mut HingeHelp)
        ensures
            final(help)@ == apply_help(node_view(*self), old(help)@),
        decreases *self,
    {
        match self {
            HingeNode::AlwaysTrue(n) => n.describe(help),
            HingeNode::OneToken(n) => n.describe(help),
            HingeNode::OptionalToken(n) => n.describe(help),
            HingeNode::List(n) => n.describe(help),
            HingeNode::Named(n) => n.describe(help),
            HingeNode::Classification(n) => n.describe(help),
            HingeNode::Mandatory(n) => n.describe(help),
            HingeNode::KeyWrap(n) => n.describe(help),
            HingeNode::Or(n) => n.describe(help),
            HingeNode::Help(n) => n.describe(help),
        }
    }
}

impl HingeConsumer for AlwaysTrueNode {
    open spec fn model(&self) -> NodeView {
        NodeView::AlwaysTrue
    }

    fn consume(&self, stream: &mut TokenStream) -> (r: Result<HingeOutput, HingeError>) {
        self.run(stream)
    }

    fn apply_help_info(&self, help: &mut HingeHelp) {
        self.describe(help)
    }
}

impl HingeConsumer for OneTokenNode {
    open spec fn model(&self) -> NodeView {
        NodeView::OneToken
    }

    fn consume(&self, stream: &mut TokenStream) -> (r: Result<HingeOutput, HingeError>) {
        self.run(stream)
    }

    fn apply_help_info(&self, help: &mut HingeHelp) {
        self.describe(help)
    }
}

impl HingeConsumer for OptionalTokenNode {
    open spec fn model(&self) -> NodeView {
        NodeView::OptionalToken
    }

    fn consume(&self, stream: &mut TokenStream) -> (r: Result<HingeOutput, HingeError>) {
        self.run(stream)
    }

    fn apply_help_info(&self, help: &mut HingeHelp) {
        self.describe(help)
    }
}

impl HingeConsumer for ListNode {
    closed spec fn model(&self) -> NodeView {
        NodeView::List(self.count)
    }

    fn consume(&self, stream: &mut TokenStream) -> (r: Result<HingeOutput, HingeError>) {
        self.run(stream)
    }

    fn apply_help_info(&self, help: &mut HingeHelp) {
        self.describe(help)
    }
}

impl HingeConsumer for NamedNode {
    closed spec fn model(&self) -> NodeView {
        NodeView::Named(self.names.deep_view(), Box::new(node_view(*self.wrapped)))
    }

    fn consume(&self, stream: &mut TokenStream) -> (r: Result<HingeOutput, HingeError>) {
        self.run(stream)
    }

    fn apply_help_info(&self, help: &mut HingeHelp) {
        self.describe(help)
    }
}

impl HingeConsumer for ClassificationNode {
    closed spec fn model(&self) -> NodeView {
        NodeView::Classification(
            entry_views_from(self.priority@, 0) + entry_views_from(self.fallback@, 0),
        )
    }

    fn consume(&self, stream: &mut TokenStream) -> (r: Result<HingeOutput, HingeError>) {
        self.run(stream)
    }

    fn apply_help_info(&self, help: &mut HingeHelp) {
        self.describe(help)
    }
}

impl HingeConsumer for MandatoryItemsNode {
    closed spec fn model(&self) -> NodeView {
        NodeView::Mandatory(Box::new(node_view(*self.child)), self.names.deep_view())
    }

    fn consume(&self, stream: &mut TokenStream) -> (r: Result<HingeOutput, HingeError>) {
        self.run(stream)
    }

    fn apply_help_info(&self, help: &mut HingeHelp) {
        self.describe(help)
    }
}

impl HingeConsumer for KeyWrapNode {
    closed spec fn model(&self) -> NodeView {
        NodeView::KeyWrap(self.key@, Box::new(node_view(*self.wrapped)))
    }

    fn consume(&self, stream: &mut TokenStream) -> (r: Result<HingeOutput, HingeError>) {
        self.run(stream)
    }

    fn apply_help_info(&self, help: &mut HingeHelp) {
        self.describe(help)
    }
}

impl HingeConsumer for OrNode {
    closed spec fn model(&self) -> NodeView {
        NodeView::Or(node_views_from(self.alts@, 0))
    }

    fn consume(&self, stream: &mut TokenStream) -> (r: Result<HingeOutput, HingeError>) {
        self.run(stream)
    }

    fn apply_help_info(&self, help: &mut HingeHelp) {
        self.describe(help)
    }
}

impl HingeConsumer for HelpNode {
    closed spec fn model(&self) -> NodeView {
        NodeView::Help(Box::new(node_view(*self.child)), self.actions.deep_view())
    }

    fn consume(&self, stream: &mut TokenStream) -> (r: Result<HingeOutput, HingeError>) {
        self.run(stream)
    }

    fn apply_help_info(&self, help: &mut HingeHelp) {
        self.describe(help)
    }
}

impl HingeConsumer for HingeNode {
    closed spec fn model(&self) -> NodeView {
        node_view(*self)
    }

    fn consume(&self, stream: &mut TokenStream) -> (r: Result<HingeOutput, HingeError>) {
        self.run(stream)
    }

    fn apply_help_info(&self, help: &mut HingeHelp) {
        self.describe(help)
    }
}

} // verus!
