use vstd::prelude::*;

use crate::semantics::HelpActionView;
use crate::semantics::NodeView;
use crate::token::push_char;
use vstd::string::StrSliceExecFns;
use vstd::string::StringExecFns;

verus! {

/// The model of a help tree node: names, an alternative display name, a
/// description, child nodes and whether the children are indented.
#[verifier::ext_equal]
pub struct HelpView {
    pub names: Seq<Seq<char>>,
    pub alt: Option<Seq<char>>,
    pub desc: Option<Seq<char>>,
    pub childs: Seq<HelpView>,
    pub tab: bool,
}

/// The model of a freshly created help node.
pub open spec fn empty_help() -> HelpView {
    HelpView {
        names: Seq::empty(),
        alt: Option::None,
        desc: Option::None,
        childs: Seq::empty(),
        tab: false,
    }
}

/// `parts[i..]` joined with the separator `sep` between adjacent parts.
pub open spec fn spec_join_from(parts: Seq<Seq<char>>, i: int, sep: Seq<char>) -> Seq<char>
    decreases parts.len() - i,
{
    if i < 0 || i >= parts.len() {
        Seq::empty()
    } else if i == parts.len() - 1 {
        parts[i]
    } else {
        parts[i] + sep + spec_join_from(parts, i + 1, sep)
    }
}

/// All of `parts` joined with the separator `sep`.
pub open spec fn spec_join(parts: Seq<Seq<char>>, sep: Seq<char>) -> Seq<char> {
    spec_join_from(parts, 0, sep)
}

/// `s` split at every occurrence of `c`; always at least one piece, and one
/// more piece than occurrences of `c`.
pub open spec fn spec_split(s: Seq<char>, c: char) -> Seq<Seq<char>>
    decreases s.len(),
{
    if s.len() == 0 {
        seq![Seq::<char>::empty()]
    } else if s[0] == c {
        seq![Seq::<char>::empty()] + spec_split(s.drop_first(), c)
    } else {
        let rest = spec_split(s.drop_first(), c);
        seq![seq![s[0]] + rest[0]] + rest.drop_first()
    }
}

pub proof fn lemma_spec_split_nonempty(s: Seq<char>, c: char)
    ensures
        spec_split(s, c).len() >= 1,
    decreases s.len(),
{
    if s.len() > 0 {
        lemma_spec_split_nonempty(s.drop_first(), c);
    }
}

/// Every line prefixed with `pre`.
pub open spec fn prefix_all(lines: Seq<Seq<char>>, pre: Seq<char>) -> Seq<Seq<char>> {
    lines.map_values(|l: Seq<char>| pre + l)
}

/// The rendered lines contributed by `childs[i..]`: each child's rendering
/// split into lines, each line indented by two spaces when `tab` is set.
pub open spec fn child_lines(childs: Seq<HelpView>, i: int, tab: bool) -> Seq<Seq<char>>
    decreases childs, childs.len() - i,
{
    if i < 0 || i >= childs.len() {
        Seq::empty()
    } else {
        let lines = spec_split(render(childs[i]), '\n');
        (if tab {
            prefix_all(lines, "  "@)
        } else {
            lines
        }) + child_lines(childs, i + 1, tab)
    }
}

/// The rendered help text of the tree `h`: a header made of the joined
/// names (or the alternative name) and the description, over the lines of
/// the children.
pub open spec fn render(h: HelpView) -> Seq<char>
    decreases h, 0int,
{
    let joined = spec_join(h.names, ", "@);
    let header0 = if joined.len() > 0 {
        joined
    } else {
        match h.alt {
            Option::Some(a) => a,
            Option::None => Seq::empty(),
        }
    };
    let header = header0 + match h.desc {
        Option::Some(d) => d,
        Option::None => Seq::<char>::empty(),
    };
    let body = spec_join(child_lines(h.childs, 0, h.tab), "\n"@);
    if header.len() == 0 && body.len() == 0 {
        Seq::empty()
    } else if body.len() == 0 {
        header
    } else if header.len() == 0 {
        body
    } else {
        header + "\n"@ + body
    }
}

/// A mutable help tree, built by asking every node of a consumer tree to
/// contribute names and descriptions, then rendered to text.
#[derive(Debug)]
pub struct HingeHelp {
    names: Vec<String>,
    alt_name: Option<String>,
    description: Option<String>,
    childs: Vec<HingeHelp>,
    tabulate_childs: bool,
}

/// The model of help node `h`.
pub closed spec fn help_view(h: HingeHelp) -> HelpView
    decreases h, 0nat, 0nat,
{
    HelpView {
        names: h.names.deep_view(),
        alt: match h.alt_name {
            Option::Some(a) => Option::Some(a@),
            Option::None => Option::None,
        },
        desc: match h.description {
            Option::Some(d) => Option::Some(d@),
            Option::None => Option::None,
        },
        childs: help_views_from(h.childs@, 0),
        tab: h.tabulate_childs,
    }
}

/// The models of the help nodes `s[i..]`.
pub closed spec fn help_views_from(s: Seq<HingeHelp>, i: int) -> Seq<HelpView>
    decreases s, 1nat, s.len() - i,
{
    if i < 0 || i >= s.len() {
        Seq::empty()
    } else {
        seq![help_view(s[i])] + help_views_from(s, i + 1)
    }
}

pub proof fn lemma_help_views_from(s: Seq<HingeHelp>, i: int)
    requires
        0 <= i <= s.len(),
    ensures
        help_views_from(s, i).len() == s.len() - i,
        forall|j: int| 0 <= j < s.len() - i ==> help_views_from(s, i)[j] == help_view(s[i + j]),
    decreases s.len() - i,
{
    if i < s.len() {
        lemma_help_views_from(s, i + 1);
    }
}

impl View for HingeHelp {
    type V = HelpView;

    closed spec fn view(&self) -> HelpView {
        help_view(*self)
    }
}

/// Joins `parts` with the separator `sep`.
#[verifier::loop_isolation(false)]
fn join_with(parts: &Vec<String>, sep: &str) -> (r: String)
    ensures
        r@ == spec_join(parts.deep_view(), sep@),
{
    let ghost dv = parts.deep_view();
    let mut acc = String::new();
    let mut i: usize = 0;
    while i < parts.len()
        invariant
            0 <= i <= parts.len(),
            i == 0 ==> acc@ == Seq::<char>::empty(),
            1 <= i <= dv.len() ==> spec_join(dv, sep@) == acc@ + (if i < dv.len() {
                sep@ + spec_join_from(dv, i as int, sep@)
            } else {
                Seq::<char>::empty()
            }),
        decreases parts.len() - i,
    {
        let ghost acc_pre = acc@;
        if i > 0 {
            acc.append(sep);
        }
        acc.append(parts[i].as_str());
        proof {
            if i == 0 {
                assert(acc@ =~= dv[0]);
                if dv.len() > 1 {
                    assert(spec_join(dv, sep@) == dv[0] + sep@ + spec_join_from(dv, 1, sep@));
                    assert(spec_join(dv, sep@) =~= acc@ + (sep@ + spec_join_from(dv, 1, sep@)));
                }
            } else {
                assert(acc@ =~= acc_pre + sep@ + dv[i as int]);
                if i as int == dv.len() - 1 {
                    assert(spec_join(dv, sep@) =~= acc@);
                } else {
                    assert(spec_join_from(dv, i as int, sep@) == dv[i as int] + sep@
                        + spec_join_from(dv, i + 1, sep@));
                    assert(spec_join(dv, sep@) =~= acc@ + (sep@ + spec_join_from(
                        dv,
                        i + 1,
                        sep@,
                    )));
                }
            }
        }
        i = i + 1;
    }
    proof {
        if dv.len() == 0 {
            assert(spec_join(dv, sep@) =~= acc@);
        }
    }
    acc
}

/// Splits `s` at every occurrence of `c`.
#[verifier::loop_isolation(false)]
fn split_char(s: &str, c: char) -> (r: Vec<String>)
    ensures
        r.deep_view() == spec_split(s@, c),
{
    let ghost sv = s@;
    let mut done: Vec<String> = Vec::new();
    let mut cur = String::new();
    let n = s.unicode_len();
    let mut i: usize = 0;
    proof {
        assert(sv.skip(0) =~= sv);
        assert(done.deep_view() =~= Seq::<Seq<char>>::empty());
    }
    while i < n
        invariant
            0 <= i <= sv.len(),
            n == sv.len(),
            ({
                let tail = spec_split(sv.skip(i as int), c);
                spec_split(sv, c) == done.deep_view() + seq![cur@ + tail[0]]
                    + tail.drop_first()
            }),
        decreases n - i,
    {
        let ghost tail = spec_split(sv.skip(i as int), c);
        let ghost tail2 = spec_split(sv.skip(i as int + 1), c);
        let ch = s.get_char(i);
        proof {
            lemma_spec_split_nonempty(sv.skip(i as int + 1), c);
            assert(sv.skip(i as int)[0] == sv[i as int]);
            assert(sv.skip(i as int).drop_first() =~= sv.skip(i as int + 1));
        }
        if ch == c {
            let ghost done_pre = done.deep_view();
            let ghost cur_pre = cur@;
            done.push(cur);
            cur = String::new();
            proof {
                assert(done.deep_view() =~= done_pre.push(cur_pre));
                assert(tail =~= seq![Seq::<char>::empty()] + tail2);
                assert(tail[0] =~= Seq::<char>::empty());
                assert(cur_pre + tail[0] =~= cur_pre);
                assert(tail.drop_first() =~= tail2);
                assert(tail2 =~= seq![tail2[0]] + tail2.drop_first());
                assert(done_pre + seq![cur_pre + tail[0]] + tail.drop_first() =~= done_pre.push(
                    cur_pre,
                ) + seq![cur@ + tail2[0]] + tail2.drop_first());
            }
        } else {
            let ghost cur_pre = cur@;
            push_char(&mut cur, ch);
            proof {
                assert(tail =~= seq![seq![sv[i as int]] + tail2[0]] + tail2.drop_first());
                assert(cur@ =~= cur_pre.push(sv[i as int]));
                assert(cur_pre + tail[0] =~= cur@ + tail2[0]);
                assert(tail.drop_first() =~= tail2.drop_first());
            }
        }
        i = i + 1;
    }
    proof {
        assert(sv.skip(sv.len() as int).len() == 0);
        let tail = spec_split(sv.skip(sv.len() as int), c);
        assert(tail =~= seq![Seq::<char>::empty()]);
        assert(cur@ + tail[0] =~= cur@);
        assert(spec_split(sv, c) =~= done.deep_view().push(cur@));
    }
    let ghost done_pre = done.deep_view();
    let ghost cur_v = cur@;
    done.push(cur);
    proof {
        assert(done.deep_view() =~= done_pre.push(cur_v));
    }
    done
}

/// Prefixes every line with `pre`.
#[verifier::loop_isolation(false)]
fn prefix_all_exec(lines: &Vec<String>, pre: &str) -> (r: Vec<String>)
    ensures
        r.deep_view() == prefix_all(lines.deep_view(), pre@),
{
    let mut r: Vec<String> = Vec::new();
    let mut i: usize = 0;
    while i < lines.len()
        invariant
            0 <= i <= lines.len(),
            r.deep_view().len() == i,
            forall|j: int| 0 <= j < i ==> r.deep_view()[j] == pre@ + lines.deep_view()[j],
        decreases lines.len() - i,
    {
        let ghost r_pre = r.deep_view();
        let mut p: String = pre.to_owned();
        p.append(lines[i].as_str());
        r.push(p);
        proof {
            assert(r.deep_view() =~= r_pre.push(pre@ + lines.deep_view()[i as int]));
        }
        i = i + 1;
    }
    proof {
        assert(r.deep_view() =~= prefix_all(lines.deep_view(), pre@));
    }
    r
}

impl HingeHelp {
    /// Creates an empty help node.
    pub fn new() -> (h: HingeHelp)
        ensures
            h@ == empty_help(),
    {
        let h = HingeHelp {
            names: Vec::new(),
            alt_name: Option::None,
            description: Option::None,
            childs: Vec::new(),
            tabulate_childs: false,
        };
        proof {
            assert(h.names.deep_view() =~= Seq::<Seq<char>>::empty());
            assert(help_views_from(h.childs@, 0) =~= Seq::<HelpView>::empty());
            assert(h@ =~= empty_help());
        }
        h
    }

    /// Records one accepted spelling of the described node.
    pub fn add_name(&mut self, name: &str)
        ensures
            final(self)@ == (HelpView { names: old(self)@.names.push(name@), ..old(self)@ }),
    {
        let ghost pre = self.names.deep_view();
        self.names.push(name.to_owned());
        proof {
            assert(self.names.deep_view() =~= pre.push(name@));
            assert(self@ =~= (HelpView { names: old(self)@.names.push(name@), ..old(self)@ }));
        }
    }

    /// Sets the name shown when the node has no spelling of its own.
    pub fn set_alternative_name(&mut self, name: &str)
        ensures
            final(self)@ == (HelpView { alt: Option::Some(name@), ..old(self)@ }),
    {
        self.alt_name = Option::Some(name.to_owned());
        proof {
            assert(self@ =~= (HelpView { alt: Option::Some(name@), ..old(self)@ }));
        }
    }

    /// Sets the described node's description text.
    pub fn set_description(&mut self, description: &str)
        ensures
            final(self)@ == (HelpView { desc: Option::Some(description@), ..old(self)@ }),
    {
        self.description = Option::Some(description.to_owned());
        proof {
            assert(self@ =~= (HelpView { desc: Option::Some(description@), ..old(self)@ }));
        }
    }

    /// Sets whether the children are indented in the rendered text.
    pub fn set_tabulate_childs(&mut self, tabulate: bool)
        ensures
            final(self)@ == (HelpView { tab: tabulate, ..old(self)@ }),
    {
        self.tabulate_childs = tabulate;
        proof {
            assert(self@ =~= (HelpView { tab: tabulate, ..old(self)@ }));
        }
    }

    /// Appends a fresh child node and hands it out for decoration.
    pub fn get_new_child(&mut self) -> (child: &mut HingeHelp)
        ensures
            (*child)@ == empty_help(),
            final(self)@.names == old(self)@.names,
            final(self)@.alt == old(self)@.alt,
            final(self)@.desc == old(self)@.desc,
            final(self)@.tab == old(self)@.tab,
            final(self)@.childs == old(self)@.childs.push(final(child)@),
    {
        let ghost pre = self.childs@;
        self.childs.push(HingeHelp::new());
        let n = self.childs.len() - 1;
        proof {
            lemma_help_views_from(pre, 0);
            lemma_help_views_from(self.childs@, 0);
            assert(help_view(self.childs@[n as int]) == empty_help());
            assert forall|x: HingeHelp|
                help_views_from(self.childs@.update(n as int, x), 0) == help_views_from(
                    pre,
                    0,
                ).push(#[trigger] help_view(x)) by {
                let s2 = self.childs@.update(n as int, x);
                lemma_help_views_from(s2, 0);
                assert(help_views_from(s2, 0) =~= help_views_from(pre, 0).push(help_view(x)));
            }
        }
        let child = &mut self.childs[n];
        child
    }

    /// Renders the help tree to its textual form.
    #[verifier::loop_isolation(false)]
    pub fn generate(&self) -> (r: String)
        ensures
            r@ == render(self@),
        decreases *self,
    {
        let ghost childs_v = self@.childs;
        proof {
            lemma_help_views_from(self.childs@, 0);
        }
        let header_names = join_with(&self.names, ", ");
        let header0: String = if header_names.as_str().unicode_len() > 0 {
            header_names
        } else {
            match &self.alt_name {
                Option::Some(a) => a.clone(),
                Option::None => String::new(),
            }
        };
        let header: String = match &self.description {
            Option::Some(d) => header0.concat(d.as_str()),
            Option::None => header0,
        };
        let mut lines: Vec<String> = Vec::new();
        let mut i: usize = 0;
        proof {
            assert(lines.deep_view() =~= Seq::<Seq<char>>::empty());
        }
        while i < self.childs.len()
            invariant
                0 <= i <= self.childs@.len(),
                childs_v.len() == self.childs@.len(),
                lines.deep_view() + child_lines(childs_v, i as int, self.tabulate_childs)
                    == child_lines(childs_v, 0, self.tabulate_childs),
            decreases self.childs@.len() - i,
        {
            let ghost lines_pre = lines.deep_view();
            let rendered = self.childs[i].generate();
            let pieces = split_char(rendered.as_str(), '\n');
            let mut add = if self.tabulate_childs {
                prefix_all_exec(&pieces, "  ")
            } else {
                pieces
            };
            let ghost add_v = add.deep_view();
            lines.append(&mut add);
            proof {
                assert(lines.deep_view() =~= lines_pre + add_v);
                assert(child_lines(childs_v, i as int, self.tabulate_childs) == add_v
                    + child_lines(childs_v, i + 1, self.tabulate_childs));
                assert(lines_pre + (add_v + child_lines(childs_v, i + 1, self.tabulate_childs))
                    =~= (lines_pre + add_v) + child_lines(
                    childs_v,
                    i + 1,
                    self.tabulate_childs,
                ));
            }
            i = i + 1;
        }
        proof {
            assert(child_lines(childs_v, childs_v.len() as int, self.tabulate_childs)
                =~= Seq::<Seq<char>>::empty());
            assert(lines.deep_view() + Seq::<Seq<char>>::empty() =~= lines.deep_view());
        }
        let body = join_with(&lines, "\n");
        let header_empty = header.as_str().unicode_len() == 0;
        let body_empty = body.as_str().unicode_len() == 0;
        if header_empty && body_empty {
            String::new()
        } else if body_empty {
            header
        } else if header_empty {
            body
        } else {
            let r = header.concat("\n").concat(body.as_str());
            proof {
                assert(r@ =~= render(self@));
            }
            r
        }
    }
}

/// One decoration action applied to a help node.
pub open spec fn apply_action_view(h: HelpView, a: HelpActionView) -> HelpView {
    match a {
        HelpActionView::Description(d) => HelpView { desc: Option::Some(d), ..h },
        HelpActionView::Tabulate(b) => HelpView { tab: b, ..h },
    }
}

/// The actions `acts[i..]` applied to `h` in order.
pub open spec fn apply_actions_from(h: HelpView, acts: Seq<HelpActionView>, i: int) -> HelpView
    decreases acts.len() - i,
{
    if i < 0 || i >= acts.len() {
        h
    } else {
        apply_actions_from(apply_action_view(h, acts[i]), acts, i + 1)
    }
}

/// The names `names[i..]` appended to `h` in order.
pub open spec fn add_names_from(h: HelpView, names: Seq<Seq<char>>, i: int) -> HelpView
    decreases names.len() - i,
{
    if i < 0 || i >= names.len() {
        h
    } else {
        add_names_from(HelpView { names: h.names.push(names[i]), ..h }, names, i + 1)
    }
}

/// What contributing node `n`'s help information does to the help node `h`.
///
/// Leaves contribute nothing; a named gate contributes its spellings; a
/// classification or alternation contributes one child per entry; wrappers
/// pass through to their child; a help decoration applies its actions first.
pub open spec fn apply_help(n: NodeView, h: HelpView) -> HelpView
    decreases n, 0nat,
{
    match n {
        NodeView::AlwaysTrue => h,
        NodeView::OneToken => h,
        NodeView::OptionalToken => h,
        NodeView::List(_) => h,
        NodeView::Named(names, inner) => apply_help(*inner, add_names_from(h, names, 0)),
        NodeView::Classification(entries) => HelpView {
            childs: h.childs + class_child_views(entries, 0),
            ..h
        },
        NodeView::Mandatory(inner, _) => apply_help(*inner, h),
        NodeView::KeyWrap(_, inner) => apply_help(*inner, h),
        NodeView::Or(alts) => HelpView { childs: h.childs + or_child_views(alts, 0), ..h },
        NodeView::Help(inner, acts) => apply_help(*inner, apply_actions_from(h, acts, 0)),
    }
}

/// The help children contributed by classification entries `entries[i..]`:
/// each child shows `<name>` as its alternative name and holds the entry's
/// own contribution.
pub open spec fn class_child_views(entries: Seq<(Seq<char>, NodeView)>, i: int) -> Seq<HelpView>
    decreases entries, entries.len() - i,
{
    if i < 0 || i >= entries.len() {
        Seq::empty()
    } else {
        let base = HelpView {
            alt: Option::Some("<"@ + entries[i].0 + ">"@),
            ..empty_help()
        };
        seq![apply_help(entries[i].1, base)] + class_child_views(entries, i + 1)
    }
}

/// The help children contributed by the alternatives `alts[i..]`.
pub open spec fn or_child_views(alts: Seq<NodeView>, i: int) -> Seq<HelpView>
    decreases alts, alts.len() - i,
{
    if i < 0 || i >= alts.len() {
        Seq::empty()
    } else {
        seq![apply_help(alts[i], empty_help())] + or_child_views(alts, i + 1)
    }
}

} // verus!
