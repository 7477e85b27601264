use vstd::prelude::*;

use crate::error::HingeError;
use crate::output::HingeOutput;
use crate::output::OutputView;
use crate::output::assoc_get;
use crate::output::assoc_has;
use crate::output::assoc_put;
use crate::output::builder_view_of;
use crate::output::collect_view;

verus! {

/// The model of one help decoration action.
pub enum HelpActionView {
    Description(Seq<char>),
    Tabulate(bool),
}

/// The model of a consumer node: the closed set of node kinds, with children
/// modelled structurally. A classification holds its priority entries first
/// and its fallback entries after them, in attempt order.
pub enum NodeView {
    AlwaysTrue,
    OneToken,
    OptionalToken,
    List(Option<usize>),
    Named(Seq<Seq<char>>, Box<NodeView>),
    Classification(Seq<(Seq<char>, NodeView)>),
    Mandatory(Box<NodeView>, Seq<Seq<char>>),
    KeyWrap(Seq<char>, Box<NodeView>),
    Or(Seq<NodeView>),
    Help(Box<NodeView>, Seq<HelpActionView>),
}

/// What one consumer invocation yields: the outcome (or the fatal error
/// message) together with the tokens that remain in the stream.
pub type Step = (Result<OutputView, Seq<char>>, Seq<Seq<char>>);

/// Each token of `s` wrapped as a `Value` outcome.
pub open spec fn values_of(s: Seq<Seq<char>>) -> Seq<OutputView> {
    s.map_values(|t: Seq<char>| OutputView::Value(t))
}

/// The first required name of `names[i..]` that is absent from `map` or maps
/// to `Empty`, if any.
pub open spec fn missing_name_from(
    map: Seq<(Seq<char>, OutputView)>,
    names: Seq<Seq<char>>,
    i: int,
) -> Option<Seq<char>>
    decreases names.len() - i,
{
    if i < 0 || i >= names.len() {
        Option::None
    } else if !assoc_has(map, names[i]) || assoc_get(map, names[i]) is Empty {
        Option::Some(names[i])
    } else {
        missing_name_from(map, names, i + 1)
    }
}

/// The non-`Empty` attempts among `pairs[i..]`, in order.
pub open spec fn winners_from(
    pairs: Seq<(Seq<char>, OutputView)>,
    i: int,
) -> Seq<(Seq<char>, OutputView)>
    decreases pairs.len() - i,
{
    if i < 0 || i >= pairs.len() {
        Seq::empty()
    } else if pairs[i].1 is Empty {
        winners_from(pairs, i + 1)
    } else {
        seq![pairs[i]] + winners_from(pairs, i + 1)
    }
}

/// `done` after recording every attempt of `pairs`, in order.
pub open spec fn assoc_put_all(
    done: Seq<(Seq<char>, OutputView)>,
    pairs: Seq<(Seq<char>, OutputView)>,
) -> Seq<(Seq<char>, OutputView)>
    decreases pairs.len(),
{
    if pairs.len() == 0 {
        done
    } else {
        assoc_put_all(assoc_put(done, pairs[0].0, pairs[0].1), pairs.drop_first())
    }
}

/// `done` extended with an `Empty` record for every entry of `entries[i..]`
/// whose name is not yet recorded.
pub open spec fn fill_missing(
    entries: Seq<(Seq<char>, NodeView)>,
    i: int,
    done: Seq<(Seq<char>, OutputView)>,
) -> Seq<(Seq<char>, OutputView)>
    decreases entries.len() - i,
{
    if i < 0 || i >= entries.len() {
        done
    } else if assoc_has(done, entries[i].0) {
        fill_missing(entries, i + 1, done)
    } else {
        fill_missing(entries, i + 1, assoc_put(done, entries[i].0, OutputView::Empty))
    }
}

/// How many entries of `entries` still lack a recorded result in `done`.
pub open spec fn undone_count(
    entries: Seq<(Seq<char>, NodeView)>,
    done: Seq<(Seq<char>, OutputView)>,
) -> nat
    decreases entries.len(),
{
    if entries.len() == 0 {
        0nat
    } else {
        (if assoc_has(done, entries[0].0) {
            0nat
        } else {
            1nat
        }) + undone_count(entries.drop_first(), done)
    }
}

/// Prefixes `pre` onto the attempts of a successful round step.
pub open spec fn prepend_pairs(
    pre: Seq<(Seq<char>, OutputView)>,
    step: (Result<Seq<(Seq<char>, OutputView)>, Seq<char>>, Seq<Seq<char>>),
) -> (Result<Seq<(Seq<char>, OutputView)>, Seq<char>>, Seq<Seq<char>>) {
    match step.0 {
        Result::Ok(pairs) => (Result::Ok(pre + pairs), step.1),
        Result::Err(e) => (Result::Err(e), step.1),
    }
}

/// What a single consumer invocation of node `n` does to the stream `s`.
///
/// This is the specification of the whole token-consumption protocol: it
/// pins down, for every node kind, the outcome (or the fatal error message)
/// and the exact tokens left over.
pub open spec fn consume_spec(n: NodeView, s: Seq<Seq<char>>) -> Step
    decreases n, 0nat, 0nat, 0nat,
{
    match n {
        NodeView::AlwaysTrue => (Result::Ok(OutputView::True), s),
        NodeView::OneToken => if s.len() == 0 {
            (Result::Err("expecting a value"@), s)
        } else {
            (Result::Ok(OutputView::Value(s[0])), s.drop_first())
        },
        NodeView::OptionalToken => if s.len() == 0 {
            (Result::Ok(OutputView::Empty), s)
        } else {
            (Result::Ok(OutputView::Value(s[0])), s.drop_first())
        },
        NodeView::List(count) => match count {
            Option::Some(k) => if s.len() < k {
                (Result::Err("not enough elements"@), Seq::empty())
            } else {
                (Result::Ok(OutputView::List(values_of(s.take(k as int)))), s.skip(k as int))
            },
            Option::None => (Result::Ok(OutputView::List(values_of(s))), Seq::empty()),
        },
        NodeView::Named(names, inner) => if s.len() == 0 {
            (Result::Ok(OutputView::Empty), s)
        } else if !names.contains(s[0]) {
            (Result::Ok(OutputView::Empty), s)
        } else {
            consume_spec(*inner, s.subrange(1, s.len() as int))
        },
        NodeView::Classification(entries) => class_rounds(entries, Seq::empty(), s),
        NodeView::Mandatory(inner, names) => {
            let (r, s2) = consume_spec(*inner, s);
            match r {
                Result::Err(e) => (Result::Err(e), s2),
                Result::Ok(out) => match builder_view_of(out) {
                    Option::None => (Result::Err("result is not a collection"@), s2),
                    Option::Some((list, map)) => match missing_name_from(map, names, 0) {
                        Option::Some(nm) => (
                            Result::Err("Expecting item with name: "@ + nm),
                            s2,
                        ),
                        Option::None => (Result::Ok(collect_view(list, map)), s2),
                    },
                },
            }
        },
        NodeView::KeyWrap(key, inner) => {
            let (r, s2) = consume_spec(*inner, s);
            match r {
                Result::Ok(v) => if v is Empty {
                    (Result::Ok(OutputView::Empty), s2)
                } else {
                    (Result::Ok(OutputView::Record(seq![(key, v)])), s2)
                },
                Result::Err(e) => (Result::Err(e), s2),
            }
        },
        NodeView::Or(alts) => or_spec_from(alts, 0, s),
        NodeView::Help(inner, _) => consume_spec(*inner, s),
    }
}

/// Whether one executable consumer invocation agrees with the model: `n`
/// run on stream `s0` leaves the stream at `s1` and returns `r`, exactly as
/// `consume_spec` prescribes.
pub open spec fn consume_matches(
    n: NodeView,
    s0: Seq<Seq<char>>,
    s1: Seq<Seq<char>>,
    r: Result<HingeOutput, HingeError>,
) -> bool {
    let (sr, s2) = consume_spec(n, s0);
    &&& s1 == s2
    &&& match (r, sr) {
        (Result::Ok(o), Result::Ok(ov)) => o@ == ov,
        (Result::Err(e), Result::Err(m)) => e@ == m,
        _ => false,
    }
}

/// Tries the alternatives `alts[i..]` in order; the first attempt that does
/// not yield `Empty` is returned as is.
pub open spec fn or_spec_from(alts: Seq<NodeView>, i: int, s: Seq<Seq<char>>) -> Step
    decreases alts, 1nat, 0nat, alts.len() - i,
{
    if i < 0 || i >= alts.len() {
        (Result::Ok(OutputView::Empty), s)
    } else {
        let (r, s2) = consume_spec(alts[i], s);
        match r {
            Result::Ok(v) => if v is Empty {
                or_spec_from(alts, i + 1, s2)
            } else {
                (Result::Ok(v), s2)
            },
            Result::Err(e) => (Result::Err(e), s2),
        }
    }
}

/// One classification round over `entries[i..]`: every entry whose name has
/// no recorded result attempts its consumer on the evolving stream; a fatal
/// error stops the round at once.
pub open spec fn class_round(
    entries: Seq<(Seq<char>, NodeView)>,
    i: int,
    done: Seq<(Seq<char>, OutputView)>,
    s: Seq<Seq<char>>,
) -> (Result<Seq<(Seq<char>, OutputView)>, Seq<char>>, Seq<Seq<char>>)
    decreases entries, 1nat, 0nat, entries.len() - i,
{
    if i < 0 || i >= entries.len() {
        (Result::Ok(Seq::empty()), s)
    } else if assoc_has(done, entries[i].0) {
        class_round(entries, i + 1, done, s)
    } else {
        let (r, s2) = consume_spec(entries[i].1, s);
        match r {
            Result::Err(e) => (Result::Err(e), s2),
            Result::Ok(out) => {
                let (rest, s3) = class_round(entries, i + 1, done, s2);
                match rest {
                    Result::Err(e) => (Result::Err(e), s3),
                    Result::Ok(pairs) => (
                        Result::Ok(seq![(entries[i].0, out)] + pairs),
                        s3,
                    ),
                }
            },
        }
    }
}

/// Classification rounds, bounded by `fuel` further progressing rounds:
/// rounds repeat while some entry makes progress; entries that never matched
/// are recorded as `Empty`, and the result is always a `Record` keyed by
/// entry name. A round with progress resolves at least one entry, so
/// [`undone_count`] many rounds always suffice; with less fuel the result is
/// unspecified.
pub open spec fn class_rounds_fuel(
    entries: Seq<(Seq<char>, NodeView)>,
    done: Seq<(Seq<char>, OutputView)>,
    s: Seq<Seq<char>>,
    fuel: nat,
) -> Step
    decreases entries, 2nat, fuel, 0nat,
{
    let (r, s2) = class_round(entries, 0, done, s);
    match r {
        Result::Err(e) => (Result::Err(e), s2),
        Result::Ok(pairs) => {
            let winners = winners_from(pairs, 0);
            if winners.len() == 0 {
                (Result::Ok(OutputView::Record(fill_missing(entries, 0, done))), s2)
            } else if fuel == 0 {
                arbitrary()
            } else {
                class_rounds_fuel(entries, assoc_put_all(done, winners), s2, (fuel - 1) as nat)
            }
        },
    }
}

/// Classification rounds to the fixed point.
pub open spec fn class_rounds(
    entries: Seq<(Seq<char>, NodeView)>,
    done: Seq<(Seq<char>, OutputView)>,
    s: Seq<Seq<char>>,
) -> Step
    decreases entries, 3nat, 0nat, 0nat,
{
    class_rounds_fuel(entries, done, s, undone_count(entries, done))
}

/// A round with at least one winner strictly shrinks the number of
/// unresolved entries: this is why the classification rounds reach a fixed
/// point.
pub proof fn lemma_class_progress(
    entries: Seq<(Seq<char>, NodeView)>,
    done: Seq<(Seq<char>, OutputView)>,
    s: Seq<Seq<char>>,
)
    requires
        class_round(entries, 0, done, s).0 is Ok,
        winners_from(class_round(entries, 0, done, s).0->Ok_0, 0).len() > 0,
    ensures
        undone_count(
            entries,
            assoc_put_all(done, winners_from(class_round(entries, 0, done, s).0->Ok_0, 0)),
        ) < undone_count(entries, done),
{
    let pairs = class_round(entries, 0, done, s).0->Ok_0;
    let winners = winners_from(pairs, 0);
    let done2 = assoc_put_all(done, winners);
    lemma_round_names(entries, 0, done, s);
    lemma_winners_membership(pairs, 0);
    let w0 = winners[0];
    assert(exists|jj: int| 0 <= jj < pairs.len() && pairs[jj] == w0);
    let jj = choose|jj: int| 0 <= jj < pairs.len() && pairs[jj] == w0;
    assert(!assoc_has(done, pairs[jj].0));
    let idx = choose|idx: int| 0 <= idx < entries.len() && entries[idx].0 == pairs[jj].0;
    assert(assoc_has(winners, w0.0));
    assert forall|k: Seq<char>| assoc_has(done, k) implies assoc_has(done2, k) by {
        lemma_put_all_has(done, winners, k);
    }
    lemma_put_all_has(done, winners, entries[idx].0);
    lemma_undone_lt(entries, done, done2, idx);
}

/// Every attempt a round reports belongs to an entry that had no recorded
/// result when the round began.
pub proof fn lemma_round_names(
    entries: Seq<(Seq<char>, NodeView)>,
    i: int,
    done: Seq<(Seq<char>, OutputView)>,
    s: Seq<Seq<char>>,
)
    ensures
        class_round(entries, i, done, s).0 matches Result::Ok(pairs) ==> forall|j: int|
            0 <= j < pairs.len() ==> !assoc_has(done, #[trigger] pairs[j].0) && exists|idx: int|
                i <= idx < entries.len() && entries[idx].0 == pairs[j].0,
    decreases entries.len() - i,
{
    if i < 0 || i >= entries.len() {
    } else if assoc_has(done, entries[i].0) {
        lemma_round_names(entries, i + 1, done, s);
    } else {
        let (r, s2) = consume_spec(entries[i].1, s);
        match r {
            Result::Err(_) => {},
            Result::Ok(out) => {
                lemma_round_names(entries, i + 1, done, s2);
                let (rest, s3) = class_round(entries, i + 1, done, s2);
                match rest {
                    Result::Err(_) => {},
                    Result::Ok(pairs) => {
                        let full = seq![(entries[i].0, out)] + pairs;
                        assert forall|j: int| 0 <= j < full.len() implies !assoc_has(
                            done,
                            #[trigger] full[j].0,
                        ) && exists|idx: int|
                            i <= idx < entries.len() && entries[idx].0 == full[j].0 by {
                            if j == 0 {
                                assert(entries[i].0 == full[0].0 && i <= i < entries.len());
                            } else {
                                assert(full[j] == pairs[j - 1]);
                            }
                        }
                    },
                }
            },
        }
    }
}

/// Every winner is one of the round's attempts.
pub proof fn lemma_winners_membership(pairs: Seq<(Seq<char>, OutputView)>, i: int)
    ensures
        forall|j: int| 0 <= j < winners_from(pairs, i).len() ==> exists|jj: int|
            i <= jj < pairs.len() && pairs[jj] == #[trigger] winners_from(pairs, i)[j],
    decreases pairs.len() - i,
{
    if i < 0 || i >= pairs.len() {
    } else {
        lemma_winners_membership(pairs, i + 1);
        if !(pairs[i].1 is Empty) {
            let w = winners_from(pairs, i);
            assert forall|j: int| 0 <= j < w.len() implies exists|jj: int|
                i <= jj < pairs.len() && pairs[jj] == #[trigger] w[j] by {
                if j == 0 {
                    assert(pairs[i] == w[0]);
                } else {
                    assert(w[j] == winners_from(pairs, i + 1)[j - 1]);
                }
            }
        }
    }
}

/// Recording a result keeps every recorded name and adds the new one.
pub proof fn lemma_assoc_put_has(
    es: Seq<(Seq<char>, OutputView)>,
    k: Seq<char>,
    v: OutputView,
    k2: Seq<char>,
)
    ensures
        assoc_has(assoc_put(es, k, v), k2) <==> (k2 == k || assoc_has(es, k2)),
    decreases es.len(),
{
    let put = assoc_put(es, k, v);
    if es.len() == 0 {
        assert(put =~= seq![(k, v)]);
        assert(put[0].0 == k);
        assert(put.drop_first().len() == 0);
        assert(!assoc_has(put.drop_first(), k2));
        assert(assoc_has(put, k2) <==> k2 == k);
    } else if es[0].0 == k {
        assert(put =~= seq![(k, v)] + es.drop_first());
        assert(put[0] == (k, v));
        assert(put.drop_first() =~= es.drop_first());
        assert(assoc_has(put, k2) <==> (k2 == k || assoc_has(es.drop_first(), k2)));
        assert(assoc_has(es, k2) <==> (es[0].0 == k2 || assoc_has(es.drop_first(), k2)));
    } else {
        lemma_assoc_put_has(es.drop_first(), k, v, k2);
        assert(put =~= seq![es[0]] + assoc_put(es.drop_first(), k, v));
        assert(put[0] == es[0]);
        assert(put.drop_first() =~= assoc_put(es.drop_first(), k, v));
        assert(assoc_has(put, k2) <==> (es[0].0 == k2 || assoc_has(
            assoc_put(es.drop_first(), k, v),
            k2,
        )));
    }
}

/// The names recorded after a whole round are the old ones plus the winners'.
pub proof fn lemma_put_all_has(
    done: Seq<(Seq<char>, OutputView)>,
    pairs: Seq<(Seq<char>, OutputView)>,
    k: Seq<char>,
)
    ensures
        assoc_has(assoc_put_all(done, pairs), k) <==> (assoc_has(done, k) || assoc_has(pairs, k)),
    decreases pairs.len(),
{
    if pairs.len() > 0 {
        lemma_put_all_has(assoc_put(done, pairs[0].0, pairs[0].1), pairs.drop_first(), k);
        lemma_assoc_put_has(done, pairs[0].0, pairs[0].1, k);
    }
}

/// Recording more names never increases the number of unresolved entries.
pub proof fn lemma_undone_le(
    entries: Seq<(Seq<char>, NodeView)>,
    done: Seq<(Seq<char>, OutputView)>,
    done2: Seq<(Seq<char>, OutputView)>,
)
    requires
        forall|k: Seq<char>| assoc_has(done, k) ==> assoc_has(done2, k),
    ensures
        undone_count(entries, done2) <= undone_count(entries, done),
    decreases entries.len(),
{
    if entries.len() > 0 {
        lemma_undone_le(entries.drop_first(), done, done2);
    }
}

/// Recording the name of an unresolved entry strictly shrinks the number of
/// unresolved entries.
pub proof fn lemma_undone_lt(
    entries: Seq<(Seq<char>, NodeView)>,
    done: Seq<(Seq<char>, OutputView)>,
    done2: Seq<(Seq<char>, OutputView)>,
    idx: int,
)
    requires
        forall|k: Seq<char>| assoc_has(done, k) ==> assoc_has(done2, k),
        0 <= idx < entries.len(),
        !assoc_has(done, entries[idx].0),
        assoc_has(done2, entries[idx].0),
    ensures
        undone_count(entries, done2) < undone_count(entries, done),
    decreases entries.len(),
{
    if idx == 0 {
        lemma_undone_le(entries.drop_first(), done, done2);
    } else {
        assert(entries.drop_first()[idx - 1] == entries[idx]);
        lemma_undone_lt(entries.drop_first(), done, done2, idx - 1);
    }
}

/// The fuel bound never matters as long as it covers the unresolved entries.
pub proof fn lemma_class_rounds_fuel_irrelevant(
    entries: Seq<(Seq<char>, NodeView)>,
    done: Seq<(Seq<char>, OutputView)>,
    s: Seq<Seq<char>>,
    f1: nat,
    f2: nat,
)
    requires
        f1 >= undone_count(entries, done),
        f2 >= undone_count(entries, done),
    ensures
        class_rounds_fuel(entries, done, s, f1) == class_rounds_fuel(entries, done, s, f2),
    decreases f1,
{
    let (r, s2) = class_round(entries, 0, done, s);
    match r {
        Result::Err(_) => {},
        Result::Ok(pairs) => {
            let winners = winners_from(pairs, 0);
            if winners.len() > 0 {
                lemma_class_progress(entries, done, s);
                let done2 = assoc_put_all(done, winners);
                lemma_class_rounds_fuel_irrelevant(
                    entries,
                    done2,
                    s2,
                    (f1 - 1) as nat,
                    (f2 - 1) as nat,
                );
            }
        },
    }
}

/// One unfolding step of the classification fixed point.
pub proof fn lemma_class_rounds_unfold(
    entries: Seq<(Seq<char>, NodeView)>,
    done: Seq<(Seq<char>, OutputView)>,
    s: Seq<Seq<char>>,
)
    ensures
        ({
            let (r, s2) = class_round(entries, 0, done, s);
            match r {
                Result::Err(e) => class_rounds(entries, done, s) == (
                    Result::<OutputView, Seq<char>>::Err(e),
                    s2,
                ),
                Result::Ok(pairs) => {
                    let winners = winners_from(pairs, 0);
                    if winners.len() == 0 {
                        class_rounds(entries, done, s) == (
                            Result::<OutputView, Seq<char>>::Ok(
                                OutputView::Record(fill_missing(entries, 0, done)),
                            ),
                            s2,
                        )
                    } else {
                        class_rounds(entries, done, s) == class_rounds(
                            entries,
                            assoc_put_all(done, winners),
                            s2,
                        )
                    }
                },
            }
        }),
{
    let (r, s2) = class_round(entries, 0, done, s);
    match r {
        Result::Err(_) => {},
        Result::Ok(pairs) => {
            let winners = winners_from(pairs, 0);
            if winners.len() > 0 {
                lemma_class_progress(entries, done, s);
                let done2 = assoc_put_all(done, winners);
                let fuel0 = undone_count(entries, done);
                lemma_class_rounds_fuel_irrelevant(
                    entries,
                    done2,
                    s2,
                    (fuel0 - 1) as nat,
                    undone_count(entries, done2),
                );
            }
        },
    }
}

/// Restore property: a named gate whose accepted spellings do not include
/// the leading token reports no match and leaves the stream exactly as it
/// was.
pub proof fn lemma_named_gate_restores(
    names: Seq<Seq<char>>,
    inner: Box<NodeView>,
    s: Seq<Seq<char>>,
)
    requires
        s.len() > 0,
        !names.contains(s[0]),
    ensures
        consume_spec(NodeView::Named(names, inner), s) == (
            Result::<OutputView, Seq<char>>::Ok(OutputView::Empty),
            s,
        ),
{
}

/// A list bounded to `k` tokens fails fatally when fewer than `k` tokens
/// remain, and otherwise returns exactly the first `k` tokens as values,
/// consuming only those.
pub proof fn lemma_bounded_list(k: usize, s: Seq<Seq<char>>)
    ensures
        s.len() < k ==> consume_spec(NodeView::List(Option::Some(k)), s) == (
            Result::<OutputView, Seq<char>>::Err("not enough elements"@),
            Seq::<Seq<char>>::empty(),
        ),
        s.len() >= k ==> consume_spec(NodeView::List(Option::Some(k)), s) == (
            Result::<OutputView, Seq<char>>::Ok(OutputView::List(values_of(s.take(k as int)))),
            s.skip(k as int),
        ),
{
}

/// Alternation short-circuits: when the first alternative yields anything
/// but `Empty` — a success or a fatal error — that step is the whole
/// alternation's step, and no later alternative is attempted.
pub proof fn lemma_or_first_match(alts: Seq<NodeView>, s: Seq<Seq<char>>)
    requires
        alts.len() > 0,
        consume_spec(alts[0], s).0 != Result::<OutputView, Seq<char>>::Ok(OutputView::Empty),
    ensures
        consume_spec(NodeView::Or(alts), s) == consume_spec(alts[0], s),
{
    let step = consume_spec(alts[0], s);
    assert(step =~= (step.0, step.1));
    let (r, s2) = step;
    match r {
        Result::Ok(v) => {
            assert(!(v is Empty));
            assert(or_spec_from(alts, 0, s) == (Result::<OutputView, Seq<char>>::Ok(v), s2));
        },
        Result::Err(e) => {
            assert(or_spec_from(alts, 0, s) == (Result::<OutputView, Seq<char>>::Err(e), s2));
        },
    }
}

pub proof fn lemma_missing_name_none(
    map: Seq<(Seq<char>, OutputView)>,
    names: Seq<Seq<char>>,
    i: int,
)
    requires
        0 <= i <= names.len(),
    ensures
        missing_name_from(map, names, i) is None <==> (forall|j: int|
            i <= j < names.len() ==> assoc_has(map, #[trigger] names[j]) && !(assoc_get(
                map,
                names[j],
            ) is Empty)),
    decreases names.len() - i,
{
    if i < names.len() {
        lemma_missing_name_none(map, names, i + 1);
    }
}

/// The mandatory-items check fails exactly when the child's outcome is no
/// collection, or some required name is absent from its map or maps to
/// `Empty`; any other outcome for every required name — an empty list
/// included — passes.
pub proof fn lemma_mandatory_items(inner: Box<NodeView>, names: Seq<Seq<char>>, s: Seq<Seq<char>>)
    ensures
        ({
            let (r, s2) = consume_spec(*inner, s);
            match r {
                Result::Ok(out) => match builder_view_of(out) {
                    Option::Some((list, map)) => consume_spec(
                        NodeView::Mandatory(inner, names),
                        s,
                    ).0 is Ok <==> (forall|j: int|
                        0 <= j < names.len() ==> assoc_has(map, #[trigger] names[j]) && !(
                        assoc_get(map, names[j]) is Empty)),
                    Option::None => consume_spec(NodeView::Mandatory(inner, names), s).0 is Err,
                },
                Result::Err(_) => consume_spec(NodeView::Mandatory(inner, names), s).0 is Err,
            }
        }),
{
    let (r, s2) = consume_spec(*inner, s);
    match r {
        Result::Ok(out) => {
            match builder_view_of(out) {
                Option::Some((list, map)) => {
                    lemma_missing_name_none(map, names, 0);
                },
                Option::None => {},
            }
        },
        Result::Err(_) => {},
    }
}

} // verus!
