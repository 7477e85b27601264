use vstd::prelude::*;

use crate::error::HingeError;

verus! {

/// A token value extracted from the stream.
pub type Atom = String;

/// The mathematical model of a [`HingeOutput`].
///
/// A map is modelled as an association sequence of (name, value) pairs whose
/// names are looked up first-match-first; the consumers only ever build
/// association sequences with pairwise distinct names.
#[verifier::ext_equal]
pub enum OutputView {
    Record(Seq<(Seq<char>, OutputView)>),
    List(Seq<OutputView>),
    RecordList(Seq<(Seq<char>, OutputView)>, Seq<OutputView>),
    Value(Seq<char>),
    True,
    Empty,
}

/// The structured result of a single consumer invocation.
///
/// `Empty` is the sole no-match signal; every other variant is a committed
/// result. Maps are kept as vectors of (name, value) pairs in insertion
/// order, with one pair per name.
#[derive(Debug)]
pub enum HingeOutput {
    Record(Vec<(String, HingeOutput)>),
    List(Vec<HingeOutput>),
    RecordList(Vec<(String, HingeOutput)>, Vec<HingeOutput>),
    Value(Atom),
    True,
    Empty,
}

/// The model of output `o`.
pub open spec fn out_view(o: HingeOutput) -> OutputView
    decreases o, 0nat, 0nat,
{
    match o {
        HingeOutput::Record(m) => OutputView::Record(entries_view_from(m@, 0)),
        HingeOutput::List(l) => OutputView::List(outs_view_from(l@, 0)),
        HingeOutput::RecordList(m, l) => OutputView::RecordList(
            entries_view_from(m@, 0),
            outs_view_from(l@, 0),
        ),
        HingeOutput::Value(a) => OutputView::Value(a@),
        HingeOutput::True => OutputView::True,
        HingeOutput::Empty => OutputView::Empty,
    }
}

/// The models of the outputs `s[i..]`.
pub open spec fn outs_view_from(s: Seq<HingeOutput>, i: int) -> Seq<OutputView>
    decreases s, 1nat, s.len() - i,
{
    if i < 0 || i >= s.len() {
        Seq::empty()
    } else {
        seq![out_view(s[i])] + outs_view_from(s, i + 1)
    }
}

/// The models of the named entries `s[i..]`.
pub open spec fn entries_view_from(s: Seq<(String, HingeOutput)>, i: int) -> Seq<
    (Seq<char>, OutputView),
>
    decreases s, 1nat, s.len() - i,
{
    if i < 0 || i >= s.len() {
        Seq::empty()
    } else {
        seq![(s[i].0@, out_view(s[i].1))] + entries_view_from(s, i + 1)
    }
}

/// The models of all outputs in `s`.
pub open spec fn outs_view(s: Seq<HingeOutput>) -> Seq<OutputView> {
    outs_view_from(s, 0)
}

/// The models of all named entries in `s`.
pub open spec fn entries_view(s: Seq<(String, HingeOutput)>) -> Seq<(Seq<char>, OutputView)> {
    entries_view_from(s, 0)
}

pub broadcast proof fn lemma_outs_view_from(s: Seq<HingeOutput>, i: int)
    requires
        0 <= i <= s.len(),
    ensures
        (#[trigger] outs_view_from(s, i)).len() == s.len() - i,
        forall|j: int| 0 <= j < s.len() - i ==> outs_view_from(s, i)[j] == out_view(s[i + j]),
    decreases s.len() - i,
{
    if i < s.len() {
        lemma_outs_view_from(s, i + 1);
    }
}

pub broadcast proof fn lemma_entries_view_from(s: Seq<(String, HingeOutput)>, i: int)
    requires
        0 <= i <= s.len(),
    ensures
        (#[trigger] entries_view_from(s, i)).len() == s.len() - i,
        forall|j: int| 0 <= j < s.len() - i ==> entries_view_from(s, i)[j] == (
            s[i + j].0@,
            out_view(s[i + j].1),
        ),
    decreases s.len() - i,
{
    if i < s.len() {
        lemma_entries_view_from(s, i + 1);
    }
}

impl View for HingeOutput {
    type V = OutputView;

    open spec fn view(&self) -> OutputView {
        out_view(*self)
    }
}

/// Whether the association sequence `es` holds an entry named `k`.
pub open spec fn assoc_has(es: Seq<(Seq<char>, OutputView)>, k: Seq<char>) -> bool
    decreases es.len(),
{
    if es.len() == 0 {
        false
    } else if es[0].0 == k {
        true
    } else {
        assoc_has(es.drop_first(), k)
    }
}

pub proof fn lemma_assoc_has_exists(es: Seq<(Seq<char>, OutputView)>, k: Seq<char>)
    ensures
        assoc_has(es, k) <==> exists|i: int| 0 <= i < es.len() && es[i].0 == k,
    decreases es.len(),
{
    if es.len() > 0 {
        lemma_assoc_has_exists(es.drop_first(), k);
        if es[0].0 == k {
            assert(es[0].0 == k && 0 < es.len());
        } else {
            assert forall|i: int| 0 <= i < es.len() && es[i].0 == k implies assoc_has(es, k) by {
                assert(es.drop_first()[i - 1] == es[i]);
            }
            if assoc_has(es, k) {
                let i = choose|i: int| 0 <= i < es.drop_first().len() && es.drop_first()[i].0 == k;
                assert(es[i + 1].0 == k);
            }
        }
    }
}

/// The first value named `k` in the association sequence `es`.
pub open spec fn assoc_get(es: Seq<(Seq<char>, OutputView)>, k: Seq<char>) -> OutputView
    decreases es.len(),
{
    if es.len() == 0 {
        arbitrary()
    } else if es[0].0 == k {
        es[0].1
    } else {
        assoc_get(es.drop_first(), k)
    }
}

/// `es` with the first entry named `k` replaced by `v`, or with `(k, v)`
/// appended when no entry is named `k`.
pub open spec fn assoc_put(
    es: Seq<(Seq<char>, OutputView)>,
    k: Seq<char>,
    v: OutputView,
) -> Seq<(Seq<char>, OutputView)>
    decreases es.len(),
{
    if es.len() == 0 {
        seq![(k, v)]
    } else if es[0].0 == k {
        seq![(k, v)] + es.drop_first()
    } else {
        seq![es[0]] + assoc_put(es.drop_first(), k, v)
    }
}

pub proof fn lemma_assoc_get_at(es: Seq<(Seq<char>, OutputView)>, k: Seq<char>, i: int)
    requires
        0 <= i < es.len(),
        es[i].0 == k,
        forall|j: int| 0 <= j < i ==> es[j].0 != k,
    ensures
        assoc_has(es, k),
        assoc_get(es, k) == es[i].1,
    decreases i,
{
    if i > 0 {
        lemma_assoc_get_at(es.drop_first(), k, i - 1);
    }
}

pub proof fn lemma_assoc_put_update(
    es: Seq<(Seq<char>, OutputView)>,
    k: Seq<char>,
    v: OutputView,
    i: int,
)
    requires
        0 <= i < es.len(),
        es[i].0 == k,
        forall|j: int| 0 <= j < i ==> es[j].0 != k,
    ensures
        assoc_put(es, k, v) == es.update(i, (k, v)),
    decreases i,
{
    if i == 0 {
        assert(assoc_put(es, k, v) =~= es.update(0, (k, v)));
    } else {
        lemma_assoc_put_update(es.drop_first(), k, v, i - 1);
        assert(assoc_put(es, k, v) =~= es.update(i, (k, v)));
    }
}

pub proof fn lemma_assoc_put_append(es: Seq<(Seq<char>, OutputView)>, k: Seq<char>, v: OutputView)
    requires
        !assoc_has(es, k),
    ensures
        assoc_put(es, k, v) == es.push((k, v)),
    decreases es.len(),
{
    if es.len() == 0 {
        assert(assoc_put(es, k, v) =~= es.push((k, v)));
    } else {
        lemma_assoc_put_append(es.drop_first(), k, v);
        assert(assoc_put(es, k, v) =~= es.push((k, v)));
    }
}

impl HingeOutput {
    /// Extracts the raw token of a `Value`; any other shape is an error.
    pub fn get_value(self) -> (r: Result<Atom, HingeError>)
        ensures
            r is Ok <==> self@ is Value,
            r matches Ok(a) ==> self@ == OutputView::Value(a@),
            r matches Err(e) ==> e@ == "output is not a value"@,
    {
        match self {
            HingeOutput::Value(atom) => Ok(atom),
            _ => Err(HingeError::from_text("output is not a value")),
        }
    }

    /// Whether this output is the presence marker `True`.
    pub fn is_true(&self) -> (r: bool)
        ensures
            r == (self@ is True),
    {
        matches!(self, HingeOutput::True)
    }

    /// Whether this output is the no-match signal `Empty`.
    pub fn is_empty(&self) -> (r: bool)
        ensures
            r == (self@ is Empty),
    {
        matches!(self, HingeOutput::Empty)
    }

    /// Whether this output is a `Value`, and when `concrete` is given, whether
    /// it holds exactly that token.
    pub fn is_value(&self, concrete: Option<&str>) -> (r: bool)
        ensures
            match concrete {
                Option::Some(c) => r == (self@ matches OutputView::Value(v) && v == c@),
                Option::None => r == (self@ is Value),
            },
    {
        match (self, concrete) {
            (HingeOutput::Value(val), Option::Some(c)) => crate::token::str_eq(val.as_str(), c),
            (HingeOutput::Value(_), Option::None) => true,
            _ => false,
        }
    }

    /// Borrows the ordered items of a `List` or `RecordList`.
    pub fn get_list(&self) -> (r: Result<&Vec<HingeOutput>, HingeError>)
        ensures
            r is Ok <==> (self@ is List || self@ is RecordList),
            r matches Ok(l) ==> match self@ {
                OutputView::List(s) => s == outs_view(l@),
                OutputView::RecordList(_, s) => s == outs_view(l@),
                _ => false,
            },
            r matches Err(e) ==> e@ == "output is not a list"@,
    {
        match self {
            HingeOutput::List(list) => Ok(list),
            HingeOutput::RecordList(_, list) => Ok(list),
            _ => Err(HingeError::from_text("output is not a list")),
        }
    }

    /// Borrows item `index` of a `List` or `RecordList`.
    pub fn get_list_idx(&self, index: usize) -> (r: Result<&HingeOutput, HingeError>)
        ensures
            r matches Ok(o) ==> match self@ {
                OutputView::List(s) => index < s.len() && o@ == s[index as int],
                OutputView::RecordList(_, s) => index < s.len() && o@ == s[index as int],
                _ => false,
            },
            r is Err ==> match self@ {
                OutputView::List(s) => index >= s.len(),
                OutputView::RecordList(_, s) => index >= s.len(),
                _ => true,
            },
    {
        match self.get_list() {
            Ok(list) => {
                proof {
                    lemma_outs_view_from(list@, 0);
                }
                if index < list.len() {
                    Ok(&list[index])
                } else {
                    Err(HingeError::from_text("index out of bounds"))
                }
            },
            Err(e) => Err(e),
        }
    }

    /// Borrows the named entries of a `Map` or `RecordList`.
    pub fn get_map(&self) -> (r: Result<&Vec<(String, HingeOutput)>, HingeError>)
        ensures
            r is Ok <==> (self@ is Record || self@ is RecordList),
            r matches Ok(m) ==> match self@ {
                OutputView::Record(es) => es == entries_view(m@),
                OutputView::RecordList(es, _) => es == entries_view(m@),
                _ => false,
            },
            r matches Err(e) ==> e@ == "output is not a map"@,
    {
        match self {
            HingeOutput::Record(map) => Ok(map),
            HingeOutput::RecordList(map, _) => Ok(map),
            _ => Err(HingeError::from_text("output is not a map")),
        }
    }

    /// Borrows the entry named `name` of a `Map` or `RecordList`.
    pub fn get_item(&self, name: &str) -> (r: Result<&HingeOutput, HingeError>)
        ensures
            r matches Ok(o) ==> match self@ {
                OutputView::Record(es) => assoc_has(es, name@) && o@ == assoc_get(es, name@),
                OutputView::RecordList(es, _) => assoc_has(es, name@) && o@ == assoc_get(es, name@),
                _ => false,
            },
            r is Err ==> match self@ {
                OutputView::Record(es) => !assoc_has(es, name@),
                OutputView::RecordList(es, _) => !assoc_has(es, name@),
                _ => true,
            },
    {
        match self.get_map() {
            Ok(map) => match alist_find(map, name) {
                Option::Some(o) => Ok(o),
                Option::None => Err(HingeError::from_text("item does not exists")),
            },
            Err(e) => Err(e),
        }
    }
}

/// Finds the first entry of `m` whose name is `name`.
fn alist_find<'a>(m: &'a Vec<(String, HingeOutput)>, name: &str) -> (r: Option<&'a HingeOutput>)
    ensures
        match r {
            Option::Some(o) => assoc_has(entries_view(m@), name@) && o@ == assoc_get(
                entries_view(m@),
                name@,
            ),
            Option::None => !assoc_has(entries_view(m@), name@),
        },
{
    proof {
        lemma_entries_view_from(m@, 0);
    }
    let ghost es = entries_view(m@);
    let mut i: usize = 0;
    while i < m.len()
        invariant
            0 <= i <= m.len(),
            es == entries_view(m@),
            es.len() == m@.len(),
            forall|j: int| 0 <= j < m@.len() ==> es[j] == (m@[j].0@, out_view(m@[j].1)),
            forall|j: int| 0 <= j < i ==> es[j].0 != name@,
        decreases m.len() - i,
    {
        if crate::token::str_eq(m[i].0.as_str(), name) {
            proof {
                lemma_assoc_get_at(es, name@, i as int);
            }
            return Option::Some(&m[i].1);
        }
        i = i + 1;
    }
    proof {
        lemma_assoc_has_exists(es, name@);
    }
    Option::None
}

/// Replaces the first entry of `m` named `name` by `(name, value)`, or
/// appends the pair when no entry has that name.
fn alist_put(m: &mut Vec<(String, HingeOutput)>, name: &str, value: HingeOutput)
    ensures
        entries_view(final(m)@) == assoc_put(entries_view(old(m)@), name@, value@),
{
    proof {
        lemma_entries_view_from(old(m)@, 0);
    }
    let ghost es = entries_view(old(m)@);
    let ghost vv = value@;
    let mut i: usize = 0;
    while i < m.len()
        invariant
            0 <= i <= m.len(),
            m@ == old(m)@,
            vv == value@,
            es == entries_view(m@),
            es.len() == m@.len(),
            forall|j: int| 0 <= j < m@.len() ==> es[j] == (m@[j].0@, out_view(m@[j].1)),
            forall|j: int| 0 <= j < i ==> es[j].0 != name@,
        decreases m.len() - i,
    {
        if crate::token::str_eq(m[i].0.as_str(), name) {
            proof {
                lemma_assoc_put_update(es, name@, vv, i as int);
            }
            let _ = m.remove(i);
            let key: String = name.to_owned();
            proof {
                assert(key@ == name@);
            }
            let pair = (key, value);
            proof {
                assert(pair.0@ == name@ && out_view(pair.1) == vv);
            }
            m.insert(i, pair);
            proof {
                lemma_entries_view_from(m@, 0);
                assert(m@[i as int] == pair);
                assert(m@ =~= old(m)@.update(i as int, m@[i as int]));
                assert(m@[i as int].0@ == name@ && out_view(m@[i as int].1) == vv);
                assert forall|j: int| 0 <= j < es.len() implies entries_view(m@)[j]
                    == es.update(i as int, (name@, vv))[j] by {
                    if j != i {
                        assert(m@[j] == old(m)@[j]);
                    }
                }
                assert(entries_view(m@) =~= es.update(i as int, (name@, vv)));
            }
            return ;
        }
        i = i + 1;
    }
    proof {
        lemma_assoc_has_exists(es, name@);
        lemma_assoc_put_append(es, name@, vv);
    }
    m.push((name.to_owned(), value));
    proof {
        lemma_entries_view_from(m@, 0);
        assert(entries_view(m@) =~= es.push((name@, vv)));
    }
}

/// Collapses an ordered list and a named map into the minimal output shape.
pub open spec fn collect_view(
    list: Seq<OutputView>,
    map: Seq<(Seq<char>, OutputView)>,
) -> OutputView {
    if list.len() == 0 {
        OutputView::Record(map)
    } else if map.len() == 0 {
        OutputView::List(list)
    } else {
        OutputView::RecordList(map, list)
    }
}

/// The (list, map) pair a collection output opens up to, if any.
pub open spec fn builder_view_of(o: OutputView) -> Option<
    (Seq<OutputView>, Seq<(Seq<char>, OutputView)>),
> {
    match o {
        OutputView::Record(m) => Option::Some((Seq::<OutputView>::empty(), m)),
        OutputView::List(l) => Option::Some((l, Seq::<(Seq<char>, OutputView)>::empty())),
        OutputView::RecordList(m, l) => Option::Some((l, m)),
        _ => Option::None,
    }
}

/// A transient accumulator for one composite consumer invocation: an ordered
/// positional list and a name-to-output map with last-write-wins insertion.
#[derive(Debug)]
pub struct HingeCollectionBuilder {
    list: Vec<HingeOutput>,
    map: Vec<(String, HingeOutput)>,
}

impl HingeCollectionBuilder {
    /// The models of the accumulated positional outputs.
    pub closed spec fn spec_list(&self) -> Seq<OutputView> {
        outs_view(self.list@)
    }

    /// The models of the accumulated named outputs.
    pub closed spec fn spec_map(&self) -> Seq<(Seq<char>, OutputView)> {
        entries_view(self.map@)
    }

    /// Creates an empty builder.
    pub fn new() -> (b: HingeCollectionBuilder)
        ensures
            b.spec_list() == Seq::<OutputView>::empty(),
            b.spec_map() == Seq::<(Seq<char>, OutputView)>::empty(),
    {
        HingeCollectionBuilder { list: Vec::new(), map: Vec::new() }
    }

    /// Creates a builder over an existing list and map.
    pub fn new_from(list: Vec<HingeOutput>, map: Vec<(String, HingeOutput)>) -> (b:
        HingeCollectionBuilder)
        ensures
            b.spec_list() == outs_view(list@),
            b.spec_map() == entries_view(map@),
    {
        HingeCollectionBuilder { list, map }
    }

    /// Appends a positional output.
    pub fn add_value(&mut self, value: HingeOutput)
        ensures
            final(self).spec_list() == old(self).spec_list().push(value@),
            final(self).spec_map() == old(self).spec_map(),
    {
        let ghost vv = value@;
        self.list.push(value);
        proof {
            lemma_outs_view_from(old(self).list@, 0);
            lemma_outs_view_from(self.list@, 0);
            assert(outs_view(self.list@) =~= outs_view(old(self).list@).push(vv));
        }
    }

    /// Records a named output, overwriting any earlier output of that name.
    pub fn add_item(&mut self, name: &str, value: HingeOutput)
        ensures
            final(self).spec_map() == assoc_put(old(self).spec_map(), name@, value@),
            final(self).spec_list() == old(self).spec_list(),
    {
        alist_put(&mut self.map, name, value);
    }

    /// Whether a named output was already recorded under `name`.
    pub fn has_item(&self, name: &str) -> (r: bool)
        ensures
            r == assoc_has(self.spec_map(), name@),
    {
        matches!(alist_find(&self.map, name), Option::Some(_))
    }

    /// Borrows the output recorded under `name`, if any.
    pub fn get_item(&self, name: &str) -> (r: Option<&HingeOutput>)
        ensures
            match r {
                Option::Some(o) => assoc_has(self.spec_map(), name@) && o@ == assoc_get(
                    self.spec_map(),
                    name@,
                ),
                Option::None => !assoc_has(self.spec_map(), name@),
            },
    {
        alist_find(&self.map, name)
    }

    /// Collapses the accumulated results to the minimal concrete shape.
    pub fn collect(self) -> (r: HingeOutput)
        ensures
            r@ == collect_view(self.spec_list(), self.spec_map()),
    {
        proof {
            lemma_outs_view_from(self.list@, 0);
            lemma_entries_view_from(self.map@, 0);
        }
        if self.list.is_empty() {
            HingeOutput::Record(self.map)
        } else if self.map.is_empty() {
            HingeOutput::List(self.list)
        } else {
            HingeOutput::RecordList(self.map, self.list)
        }
    }
}

impl HingeOutput {
    /// Reopens a collection output as a builder; a non-collection shape is an
    /// error.
    pub fn into_builder(self) -> (r: Result<HingeCollectionBuilder, HingeError>)
        ensures
            r is Ok <==> builder_view_of(self@) is Some,
            r matches Ok(b) ==> builder_view_of(self@) == Option::Some(
                (b.spec_list(), b.spec_map()),
            ),
            r matches Err(e) ==> e@ == "result is not a collection"@,
    {
        match self {
            HingeOutput::Record(map) => Ok(HingeCollectionBuilder::new_from(Vec::new(), map)),
            HingeOutput::List(list) => Ok(HingeCollectionBuilder::new_from(list, Vec::new())),
            HingeOutput::RecordList(map, list) => Ok(HingeCollectionBuilder::new_from(list, map)),
            _ => Err(HingeError::from_text("result is not a collection")),
        }
    }
}

} // verus!
