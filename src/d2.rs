//! The outputs of a D2 diagram: how they are ordered and named, and how the
//! compiler's diagnostics are read and reported.
use vstd::prelude::*;

use core::cmp::Ordering;

use crate::block::{location_of, opt_view, SvgBlock};
use crate::compose::SvgOutput;
use crate::text::{chars_of, decimal, push_decimal, push_str, string_of};

verus! {

/// One step of the path from the root diagram to a nested one.
#[derive(Clone, Copy, PartialEq, Eq, Structural, PartialOrd, Ord, Hash, Debug)]
pub enum GraphPathComponent {
    Index { index: usize },
    Layers,
    Scenarios,
    Steps,
}

/// The position of a component kind in the order: an index, then layers, scenarios
/// and steps.
pub open spec fn rank(c: GraphPathComponent) -> nat {
    match c {
        GraphPathComponent::Index { .. } => 0,
        GraphPathComponent::Layers => 1,
        GraphPathComponent::Scenarios => 2,
        GraphPathComponent::Steps => 3,
    }
}

pub open spec fn cmp_nat(a: nat, b: nat) -> Ordering {
    if a < b {
        Ordering::Less
    } else if a == b {
        Ordering::Equal
    } else {
        Ordering::Greater
    }
}

/// Indices compare by value; otherwise the kinds compare by rank.
pub open spec fn component_cmp(a: GraphPathComponent, b: GraphPathComponent) -> Ordering {
    match (a, b) {
        (GraphPathComponent::Index { index: x }, GraphPathComponent::Index { index: y }) => cmp_nat(x as nat, y as nat),
        _ => cmp_nat(rank(a), rank(b)),
    }
}

/// Paths compare component by component; a path comes before its extensions.
pub open spec fn path_cmp(a: Seq<GraphPathComponent>, b: Seq<GraphPathComponent>) -> Ordering
    decreases a.len(),
{
    if a.len() == 0 {
        if b.len() == 0 {
            Ordering::Equal
        } else {
            Ordering::Less
        }
    } else if b.len() == 0 {
        Ordering::Greater
    } else {
        match component_cmp(a[0], b[0]) {
            Ordering::Equal => path_cmp(a.drop_first(), b.drop_first()),
            o => o,
        }
    }
}

impl GraphPathComponent {
    pub fn enum_index(&self) -> (r: usize)
        ensures
            r as nat == rank(*self),
    {
        match self {
            GraphPathComponent::Index { .. } => 0,
            GraphPathComponent::Layers => 1,
            GraphPathComponent::Scenarios => 2,
            GraphPathComponent::Steps => 3,
        }
    }

    pub fn compare(&self, other: &GraphPathComponent) -> (r: Ordering)
        ensures
            r == component_cmp(*self, *other),
    {
        match (self, other) {
            (GraphPathComponent::Index { index: x }, GraphPathComponent::Index { index: y }) => {
                if *x < *y {
                    Ordering::Less
                } else if *x == *y {
                    Ordering::Equal
                } else {
                    Ordering::Greater
                }
            },
            _ => {
                let a = self.enum_index();
                let b = other.enum_index();
                if a < b {
                    Ordering::Less
                } else if a == b {
                    Ordering::Equal
                } else {
                    Ordering::Greater
                }
            },
        }
    }
}

/// The path from the root diagram to a nested one.
#[derive(Clone, PartialEq, Eq, PartialOrd, Ord, Debug)]
pub struct GraphPath(pub Vec<GraphPathComponent>);

impl GraphPath {
    pub fn compare(&self, other: &GraphPath) -> (r: Ordering)
        ensures
            r == path_cmp(self.0@, other.0@),
    {
        let a = &self.0;
        let b = &other.0;
        let mut i: usize = 0;
        assert(a@.subrange(0, a@.len() as int) =~= a@);
        assert(b@.subrange(0, b@.len() as int) =~= b@);
        while i < a.len() && i < b.len()
            invariant
                a@ == self.0@,
                b@ == other.0@,
                i <= a@.len(),
                i <= b@.len(),
                path_cmp(a@, b@) == path_cmp(a@.subrange(i as int, a@.len() as int), b@.subrange(i as int, b@.len() as int)),
            decreases a.len() - i,
        {
            let ghost sa = a@.subrange(i as int, a@.len() as int);
            let ghost sb = b@.subrange(i as int, b@.len() as int);
            assert(sa.drop_first() =~= a@.subrange(i + 1, a@.len() as int));
            assert(sb.drop_first() =~= b@.subrange(i + 1, b@.len() as int));
            assert(sa[0] == a@[i as int] && sb[0] == b@[i as int]);
            let c = a[i].compare(&b[i]);
            match c {
                Ordering::Equal => {},
                Ordering::Less => {
                    assert(path_cmp(sa, sb) == component_cmp(sa[0], sb[0]));
                    assert(c == component_cmp(sa[0], sb[0]));
                    assert(path_cmp(self.0@, other.0@) == Ordering::Less);
                    return Ordering::Less;
                },
                Ordering::Greater => {
                    assert(path_cmp(sa, sb) == component_cmp(sa[0], sb[0]));
                    assert(c == component_cmp(sa[0], sb[0]));
                    assert(path_cmp(self.0@, other.0@) == Ordering::Greater);
                    return Ordering::Greater;
                },
            }
            i = i + 1;
        }
        let ghost sa = a@.subrange(i as int, a@.len() as int);
        let ghost sb = b@.subrange(i as int, b@.len() as int);
        assert(sa.len() == 0 || sb.len() == 0);
        if i < a.len() {
            Ordering::Greater
        } else if i < b.len() {
            Ordering::Less
        } else {
            Ordering::Equal
        }
    }
}

/// How a component reads in a relative id: `[i]`, `layers`, `scenarios`, `steps`.
pub open spec fn component_text(c: GraphPathComponent) -> Seq<char> {
    match c {
        GraphPathComponent::Index { index } => seq!['['] + decimal(index as nat) + seq![']'],
        GraphPathComponent::Layers => "layers"@,
        GraphPathComponent::Scenarios => "scenarios"@,
        GraphPathComponent::Steps => "steps"@,
    }
}

/// A path as text: components joined by `.`, except that an index follows its group
/// directly (`steps[1].layers[0]`).
pub open spec fn path_text(p: Seq<GraphPathComponent>) -> Seq<char>
    decreases p.len(),
{
    if p.len() == 0 {
        Seq::empty()
    } else {
        let acc = path_text(p.drop_last());
        let sep = if acc.len() == 0 || p.last() is Index { Seq::<char>::empty() } else { seq!['.'] };
        acc + sep + component_text(p.last())
    }
}

fn push_component(out: &mut Vec<char>, c: GraphPathComponent)
    ensures
        final(out)@ == old(out)@ + component_text(c),
{
    match c {
        GraphPathComponent::Index { index } => {
            out.push('[');
            push_decimal(out, index);
            out.push(']');
        },
        GraphPathComponent::Layers => push_str(out, "layers"),
        GraphPathComponent::Scenarios => push_str(out, "scenarios"),
        GraphPathComponent::Steps => push_str(out, "steps"),
    }
    assert(final(out)@ =~= old(out)@ + component_text(c));
}

/// The relative id of a nested diagram.
pub fn relative_id(path: &GraphPath) -> (r: String)
    ensures
        r@ == path_text(path.0@),
{
    let p = &path.0;
    let mut out: Vec<char> = Vec::new();
    let mut i: usize = 0;
    while i < p.len()
        invariant
            i <= p@.len(),
            out@ == path_text(p@.subrange(0, i as int)),
        decreases p.len() - i,
    {
        let ghost sub = p@.subrange(0, i + 1);
        assert(sub.drop_last() =~= p@.subrange(0, i as int));
        let c = p[i];
        let is_index = match c {
            GraphPathComponent::Index { .. } => true,
            _ => false,
        };
        if out.len() > 0 && !is_index {
            out.push('.');
        }
        push_component(&mut out, c);
        i = i + 1;
        assert(out@ =~= path_text(sub));
    }
    assert(p@.subrange(0, p@.len() as int) =~= p@);
    string_of(&out)
}

pub struct Scalar {
    pub value: String,
}

pub struct Attributes {
    pub label: Scalar,
}

pub struct Object {
    pub id: String,
    pub id_val: String,
    pub attributes: Attributes,
}

pub struct Edge {
    pub index: usize,
}

/// A compiled diagram: its objects and edges, and the diagrams nested in it.
pub struct Graph {
    pub name: String,
    pub is_folder_only: bool,
    pub root: Option<Object>,
    pub edges: Vec<Edge>,
    pub objects: Vec<Object>,
    pub layers: Option<Vec<Graph>>,
    pub scenarios: Option<Vec<Graph>>,
    pub steps: Option<Vec<Graph>>,
    pub root_level: usize,
}

/// A rendered diagram and the diagrams nested in it.
pub struct RenderResult {
    pub name: String,
    pub is_folder_only: bool,
    pub content: String,
    pub root: Option<Object>,
    pub layers: Vec<RenderResult>,
    pub scenarios: Vec<RenderResult>,
    pub steps: Vec<RenderResult>,
}

/// The root's label if it has one, else the diagram's name if it has one, else
/// `index`.
pub open spec fn title_of(r: RenderResult) -> Seq<char> {
    match r.root {
        Some(o) if o.attributes.label.value@.len() > 0 => o.attributes.label.value@,
        _ => if r.name@.len() > 0 {
            r.name@
        } else {
            "index"@
        },
    }
}

impl RenderResult {
    pub fn title(&self) -> (r: String)
        ensures
            r@ == title_of(*self),
    {
        match &self.root {
            Some(o) => {
                if !o.attributes.label.value.as_str().is_empty() {
                    return string_of(&chars_of(o.attributes.label.value.as_str()));
                }
            },
            None => {},
        }
        if !self.name.as_str().is_empty() {
            string_of(&chars_of(self.name.as_str()))
        } else {
            String::from_str("index")
        }
    }
}

/// The diagrams nested in a render under one group: layers, scenarios or steps.
pub open spec fn group_of(r: RenderResult, w: nat) -> Seq<RenderResult> {
    if w == 0 {
        r.layers@
    } else if w == 1 {
        r.scenarios@
    } else {
        r.steps@
    }
}

pub open spec fn group_component(w: nat) -> GraphPathComponent {
    if w == 0 {
        GraphPathComponent::Layers
    } else if w == 1 {
        GraphPathComponent::Scenarios
    } else {
        GraphPathComponent::Steps
    }
}

/// Every diagram of a render at `path`, with its path, title and SVG: the first `n`
/// diagrams of group `w` (each with what is nested in it), ...
pub open spec fn flat_children(r: RenderResult, w: nat, n: nat, path: Seq<GraphPathComponent>) -> Seq<(Seq<GraphPathComponent>, Seq<char>, Seq<char>)>
    decreases r, 0nat, w, n,
{
    if n == 0 || n > group_of(r, w).len() {
        Seq::empty()
    } else {
        flat_children(r, w, (n - 1) as nat, path) + flat_node(
            group_of(r, w)[n - 1],
            path.push(group_component(w)).push(GraphPathComponent::Index { index: (n - 1) as usize }),
        )
    }
}

/// ... the non-empty groups among the first `w`, ...
pub open spec fn flat_groups(r: RenderResult, w: nat, path: Seq<GraphPathComponent>) -> Seq<(Seq<GraphPathComponent>, Seq<char>, Seq<char>)>
    decreases r, 0nat, w, 0nat,
{
    if w == 0 {
        Seq::empty()
    } else {
        flat_groups(r, (w - 1) as nat, path) + flat_children(r, (w - 1) as nat, group_of(r, (w - 1) as nat).len(), path)
    }
}

/// ... and a render: its layers, scenarios and steps, then itself.
pub open spec fn flat_node(r: RenderResult, path: Seq<GraphPathComponent>) -> Seq<(Seq<GraphPathComponent>, Seq<char>, Seq<char>)>
    decreases r, 1nat, 0nat, 0nat,
{
    flat_groups(r, 3, path) + seq![(path, title_of(r), r.content@)]
}

/// One diagram of a render, where it sits, and what it shows.
pub struct D2Result {
    pub path: GraphPath,
    pub title: String,
    pub content: String,
}

pub open spec fn results_paths(v: Seq<D2Result>) -> Seq<Seq<GraphPathComponent>> {
    v.map_values(|r: D2Result| r.path.0@)
}

/// Each path is no greater than the next.
pub open spec fn paths_sorted(ps: Seq<Seq<GraphPathComponent>>) -> bool {
    forall|i: int| 0 <= i < ps.len() - 1 ==> #[trigger] path_cmp(ps[i], ps[i + 1]) != Ordering::Greater
}

pub proof fn lemma_component_cmp_antisymmetric(a: GraphPathComponent, b: GraphPathComponent)
    ensures
        component_cmp(a, b) == Ordering::Greater <==> component_cmp(b, a) == Ordering::Less,
        component_cmp(a, b) == Ordering::Equal <==> component_cmp(b, a) == Ordering::Equal,
{
}

pub proof fn lemma_path_cmp_antisymmetric(a: Seq<GraphPathComponent>, b: Seq<GraphPathComponent>)
    ensures
        path_cmp(a, b) == Ordering::Greater <==> path_cmp(b, a) == Ordering::Less,
    decreases a.len(),
{
    if a.len() > 0 && b.len() > 0 {
        lemma_component_cmp_antisymmetric(a[0], b[0]);
        lemma_path_cmp_antisymmetric(a.drop_first(), b.drop_first());
    }
}

pub open spec fn results_view(v: Seq<D2Result>) -> Seq<(Seq<GraphPathComponent>, Seq<char>, Seq<char>)> {
    v.map_values(|d: D2Result| (d.path.0@, d.title@, d.content@))
}

fn flatten_into(result: &RenderResult, path: &mut Vec<GraphPathComponent>, out: &mut Vec<D2Result>)
    ensures
        final(path)@ == old(path)@,
        results_view(final(out)@) == results_view(old(out)@) + flat_node(*result, old(path)@),
    decreases result,
{
    let ghost path0 = path@;
    let ghost out0 = results_view(out@);
    let mut g: usize = 0;
    while g < 3
        invariant
            g <= 3,
            path@ == path0,
            results_view(out@) == out0 + flat_groups(*result, g as nat, path0),
        decreases 3 - g,
    {
        let (children, group) = if g == 0 {
            (&result.layers, GraphPathComponent::Layers)
        } else if g == 1 {
            (&result.scenarios, GraphPathComponent::Scenarios)
        } else {
            (&result.steps, GraphPathComponent::Steps)
        };
        assert(children@ == group_of(*result, g as nat));
        assert(group == group_component(g as nat));
        let ghost before = results_view(out@);
        if children.len() > 0 {
            path.push(group);
            let mut i: usize = 0;
            while i < children.len()
                invariant
                    children@ == group_of(*result, g as nat),
                    group == group_component(g as nat),
                    i <= children@.len(),
                    path@ == path0.push(group),
                    results_view(out@) == before + flat_children(*result, g as nat, i as nat, path0),
                    children == &result.layers || children == &result.scenarios || children == &result.steps,
                decreases children.len() - i,
            {
                path.push(GraphPathComponent::Index { index: i });
                proof {
                    assert(decreases_to!(*result => children@[i as int]));
                }
                let ghost mid = results_view(out@);
                flatten_into(&children[i], path, out);
                path.pop();
                assert(path@ =~= path0.push(group));
                i = i + 1;
                assert(results_view(out@) =~= before + flat_children(*result, g as nat, i as nat, path0));
            }
            path.pop();
            assert(path@ =~= path0);
        }
        if children.len() == 0 {
            assert(flat_children(*result, g as nat, 0, path0) =~= Seq::empty());
        }
        assert(flat_groups(*result, (g + 1) as nat, path0) == flat_groups(*result, g as nat, path0)
            + flat_children(*result, g as nat, group_of(*result, g as nat).len(), path0));
        g = g + 1;
        assert(results_view(out@) =~= out0 + flat_groups(*result, g as nat, path0));
    }
    let title = result.title();
    let content = string_of(&chars_of(result.content.as_str()));
    let ghost prev = out@;
    let item = D2Result { path: GraphPath(copy_components(path)), title, content };
    assert((item.path.0@, item.title@, item.content@) == (path0, title_of(*result), result.content@));
    out.push(item);
    assert(results_view(out@) =~= results_view(prev).push((path0, title_of(*result), result.content@)));
    assert(flat_node(*result, path0) == flat_groups(*result, 3, path0) + seq![(path0, title_of(*result), result.content@)]);
    assert(results_view(out@) =~= out0 + flat_node(*result, path0));
}

fn copy_components(v: &Vec<GraphPathComponent>) -> (r: Vec<GraphPathComponent>)
    ensures
        r@ == v@,
{
    let mut out: Vec<GraphPathComponent> = Vec::new();
    let mut i: usize = 0;
    while i < v.len()
        invariant
            i <= v@.len(),
            out@ == v@.subrange(0, i as int),
        decreases v.len() - i,
    {
        out.push(v[i]);
        i = i + 1;
        assert(out@ =~= v@.subrange(0, i as int));
    }
    assert(v@.subrange(0, v@.len() as int) =~= v@);
    out
}

impl D2Result {
    /// Every diagram of a render with its path: the nested layers, scenarios and steps
    /// (each group in order, each diagram after those nested in it), then the root.
    pub fn from_render(result: &RenderResult) -> (r: Vec<D2Result>)
        ensures
            results_view(r@) == flat_node(*result, Seq::empty()),
    {
        let mut path: Vec<GraphPathComponent> = Vec::new();
        let mut out: Vec<D2Result> = Vec::new();
        flatten_into(result, &mut path, &mut out);
        assert(results_view(out@) =~= flat_node(*result, Seq::empty()));
        out
    }

    pub fn title(&self) -> (r: &str)
        ensures
            r@ == self.title@,
    {
        self.title.as_str()
    }

    pub fn relative_id(&self) -> (r: String)
        ensures
            r@ == path_text(self.path.0@),
    {
        relative_id(&self.path)
    }

    pub fn content(&self) -> (r: &str)
        ensures
            r@ == self.content@,
    {
        self.content.as_str()
    }
}

fn is_greater(o: Ordering) -> (r: bool)
    ensures
        r == (o == Ordering::Greater),
{
    match o {
        Ordering::Greater => true,
        _ => false,
    }
}

fn insert_sorted(r: &mut Vec<D2Result>, x: D2Result)
    requires
        paths_sorted(results_paths(old(r)@)),
    ensures
        paths_sorted(results_paths(final(r)@)),
        final(r)@.to_multiset() == old(r)@.to_multiset().insert(x),
        results_view(final(r)@).to_multiset() == results_view(old(r)@).to_multiset().insert((x.path.0@, x.title@, x.content@)),
{
    let mut p: usize = r.len();
    while p > 0 && is_greater(r[p - 1].path.compare(&x.path))
        invariant
            p <= r@.len(),
            forall|k: int| p <= k < r@.len() ==> #[trigger] path_cmp(r@[k].path.0@, x.path.0@) == Ordering::Greater,
        decreases p,
    {
        p = p - 1;
    }
    let ghost old_r = r@;
    let ghost xp = x.path.0@;
    r.insert(p, x);
    proof {
        assert(results_paths(r@) =~= results_paths(old_r).insert(p as int, xp));
        assert forall|k: int| p <= k < results_paths(old_r).len() implies #[trigger] path_cmp(results_paths(old_r)[k], xp) == Ordering::Greater by {
            assert(results_paths(old_r)[k] == old_r[k].path.0@);
        }
        if p > 0 {
            assert(results_paths(old_r)[p - 1] == old_r[p - 1].path.0@);
        }
        lemma_insert_keeps_sorted(results_paths(old_r), p as int, xp);
        vstd::seq_lib::to_multiset_insert(old_r, p as int, r@[p as int]);
        let xv = (r@[p as int].path.0@, r@[p as int].title@, r@[p as int].content@);
        assert(results_view(r@) =~= results_view(old_r).insert(p as int, xv));
        vstd::seq_lib::to_multiset_insert(results_view(old_r), p as int, xv);
    }
}

proof fn lemma_insert_keeps_sorted(qs: Seq<Seq<GraphPathComponent>>, p: int, xp: Seq<GraphPathComponent>)
    requires
        paths_sorted(qs),
        0 <= p <= qs.len(),
        p > 0 ==> path_cmp(qs[p - 1], xp) != Ordering::Greater,
        forall|k: int| p <= k < qs.len() ==> #[trigger] path_cmp(qs[k], xp) == Ordering::Greater,
    ensures
        paths_sorted(qs.insert(p, xp)),
{
    let ps = qs.insert(p, xp);
    assert(ps.len() == qs.len() + 1);
    assert forall|j: int| 0 <= j < p implies #[trigger] ps[j] == qs[j] by {}
    assert(ps[p] == xp);
    assert forall|j: int| p < j < ps.len() implies #[trigger] ps[j] == qs[j - 1] by {}
    assert forall|i: int| 0 <= i < ps.len() - 1 implies #[trigger] path_cmp(ps[i], ps[i + 1]) != Ordering::Greater by {
        if i + 1 < p {
            assert(ps[i] == qs[i] && ps[i + 1] == qs[i + 1]);
            assert(path_cmp(qs[i], qs[i + 1]) != Ordering::Greater);
        } else if i + 1 == p {
            assert(ps[i] == qs[i] && ps[i + 1] == xp);
        } else if i == p {
            assert(ps[i] == xp && ps[i + 1] == qs[i]);
            assert(path_cmp(qs[i], xp) == Ordering::Greater);
            lemma_path_cmp_antisymmetric(qs[i], xp);
        } else {
            assert(ps[i] == qs[i - 1] && ps[i + 1] == qs[i]);
            let j = i - 1;
            assert(path_cmp(qs[j], qs[j + 1]) != Ordering::Greater);
            assert(qs[j + 1] == qs[i]);
        }
    }
}

/// Orders diagrams by their paths, as a stable total order that does not depend on
/// how the render listed them.
pub fn sort_results(v: Vec<D2Result>) -> (r: Vec<D2Result>)
    ensures
        r@.to_multiset() == v@.to_multiset(),
        results_view(r@).to_multiset() == results_view(v@).to_multiset(),
        paths_sorted(results_paths(r@)),
{
    let ghost orig = v@;
    let mut v = v;
    let mut r: Vec<D2Result> = Vec::new();
    proof {
        r@.to_multiset_ensures();
        vstd::multiset::lemma_multiset_empty_len(r@.to_multiset());
        assert(r@.to_multiset().add(v@.to_multiset()) =~= orig.to_multiset());
        results_view(r@).to_multiset_ensures();
        vstd::multiset::lemma_multiset_empty_len(results_view(r@).to_multiset());
        assert(results_view(r@).to_multiset().add(results_view(v@).to_multiset()) =~= results_view(orig).to_multiset());
    }
    while v.len() > 0
        invariant
            r@.to_multiset().add(v@.to_multiset()) == orig.to_multiset(),
            results_view(r@).to_multiset().add(results_view(v@).to_multiset()) == results_view(orig).to_multiset(),
            paths_sorted(results_paths(r@)),
        decreases v.len(),
    {
        let ghost before = v@;
        let x = v.pop().unwrap();
        proof {
            assert(before =~= v@.push(x));
            vstd::seq_lib::to_multiset_build(v@, x);
            assert(results_view(before) =~= results_view(v@).push((x.path.0@, x.title@, x.content@)));
            vstd::seq_lib::to_multiset_build(results_view(v@), (x.path.0@, x.title@, x.content@));
        }
        insert_sorted(&mut r, x);
        assert(r@.to_multiset().add(v@.to_multiset()) =~= orig.to_multiset());
        assert(results_view(r@).to_multiset().add(results_view(v@).to_multiset()) =~= results_view(orig).to_multiset());
    }
    proof {
        v@.to_multiset_ensures();
        vstd::multiset::lemma_multiset_empty_len(v@.to_multiset());
        results_view(v@).to_multiset_ensures();
        vstd::multiset::lemma_multiset_empty_len(results_view(v@).to_multiset());
    }
    assert(r@.to_multiset() =~= orig.to_multiset());
    assert(results_view(r@).to_multiset() =~= results_view(orig).to_multiset());
    r
}

/// The relative id of the `i`-th of `n` outputs: none when a render gives one
/// diagram, its path otherwise.
pub open spec fn output_relative_id(n: nat, path: Seq<GraphPathComponent>) -> Option<Seq<char>> {
    if n == 1 {
        None
    } else {
        Some(path_text(path))
    }
}

/// The outputs of a render in path order: each with its relative id, title and SVG.
pub fn outputs_of(sorted: &Vec<D2Result>) -> (r: Vec<SvgOutput>)
    ensures
        r@.len() == sorted@.len(),
        forall|i: int| 0 <= i < r@.len() ==> {
            &&& opt_view((#[trigger] r@[i]).relative_id) == output_relative_id(sorted@.len(), sorted@[i].path.0@)
            &&& r@[i].title@ == sorted@[i].title@
            &&& r@[i].source@ == sorted@[i].content@
        },
{
    let n = sorted.len();
    let mut out: Vec<SvgOutput> = Vec::new();
    let mut i: usize = 0;
    while i < n
        invariant
            n == sorted@.len(),
            i <= n,
            out@.len() == i,
            forall|j: int| 0 <= j < i ==> {
                &&& opt_view((#[trigger] out@[j]).relative_id) == output_relative_id(n as nat, sorted@[j].path.0@)
                &&& out@[j].title@ == sorted@[j].title@
                &&& out@[j].source@ == sorted@[j].content@
            },
        decreases n - i,
    {
        let d = &sorted[i];
        let relative_id = if n == 1 {
            None
        } else {
            Some(d.relative_id())
        };
        out.push(SvgOutput {
            relative_id,
            title: string_of(&chars_of(d.title())),
            source: string_of(&chars_of(d.content())),
        });
        i = i + 1;
    }
    out
}

/// `outs` are the diagrams of a render (each with what is nested in it), ordered by
/// path: each with its relative id, title and SVG.
pub open spec fn outputs_of_render(result: RenderResult, outs: Seq<SvgOutput>) -> bool {
    &&& outs.len() >= 1
    &&& exists|sorted: Seq<D2Result>|
        #![trigger sorted.len()]
        sorted.len() == outs.len() && results_view(sorted).to_multiset() == flat_node(result, Seq::empty()).to_multiset()
            && paths_sorted(results_paths(sorted)) && forall|i: int|
            0 <= i < outs.len() ==> opt_view((#[trigger] outs[i]).relative_id) == output_relative_id(outs.len(), sorted[i].path.0@)
                && outs[i].title@ == sorted[i].title@ && outs[i].source@ == sorted[i].content@
}

/// Every diagram of a render as an output, in path order.
pub fn diagram_outputs(result: &RenderResult) -> (r: Vec<SvgOutput>)
    ensures
        outputs_of_render(*result, r@),
{
    let all = D2Result::from_render(result);
    proof {
        all@.to_multiset_ensures();
        assert(results_view(all@).len() == all@.len());
        assert(flat_node(*result, Seq::empty()).len() >= 1);
    }
    let sorted = sort_results(all);
    proof {
        sorted@.to_multiset_ensures();
    }
    let r = outputs_of(&sorted);
    assert(sorted@.len() == r@.len());
    r
}

/// Where in a source file: line, column and byte, as the compiler counts them.
pub struct Position {
    pub line: usize,
    pub column: usize,
    pub byte: usize,
}

pub struct Range {
    pub path: String,
    pub start: Position,
    pub end: Position,
}

pub struct AstError {
    pub range: Range,
    pub message: String,
}

pub struct ParseError {
    pub errors: Vec<AstError>,
}

/// How the diagram compiler failed.
pub enum D2Error {
    Parse(ParseError),
    D2(String),
    Internal(String),
}

/// The lines of a parse error's diagnostics, each `\n{location}: D2 {message}`, the
/// compiler's lines taken relative to the block's fence.
pub open spec fn diagnostics_text(b: SvgBlock, errs: Seq<AstError>) -> Seq<char>
    decreases errs.len(),
{
    if errs.len() == 0 {
        Seq::empty()
    } else {
        let e = errs.last();
        diagnostics_text(b, errs.drop_last()) + seq!['\n'] + location_of(
            b.chapter_relative_path@,
            (b.source_code_initial_line + e.range.start.line) as nat,
            Some((b.source_code_initial_line + e.range.end.line) as nat),
        ) + ": D2 "@ + e.message@
    }
}

/// The lines of every diagnostic stay within the machine's integers once shifted.
pub open spec fn diagnostics_fit(b: SvgBlock, errs: Seq<AstError>) -> bool {
    forall|i: int|
        0 <= i < errs.len() ==> b.source_code_initial_line + (#[trigger] errs[i]).range.start.line <= usize::MAX
            && b.source_code_initial_line + errs[i].range.end.line <= usize::MAX
}

/// The message for a failed parse: `Parse Error` and one line per diagnostic.
pub fn parse_error_message(block: &SvgBlock, error: &ParseError) -> (r: String)
    requires
        diagnostics_fit(*block, error.errors@),
    ensures
        r@ == "Parse Error"@ + diagnostics_text(*block, error.errors@),
{
    let errs = &error.errors;
    let mut out: Vec<char> = Vec::new();
    push_str(&mut out, "Parse Error");
    let mut i: usize = 0;
    while i < errs.len()
        invariant
            i <= errs@.len(),
            diagnostics_fit(*block, errs@),
            out@ == "Parse Error"@ + diagnostics_text(*block, errs@.subrange(0, i as int)),
        decreases errs.len() - i,
    {
        let ghost sub = errs@.subrange(0, i + 1);
        assert(sub.drop_last() =~= errs@.subrange(0, i as int));
        let e = &errs[i];
        assert(block.source_code_initial_line + errs@[i as int].range.start.line <= usize::MAX);
        let loc = block.location_string(Some(e.range.start.line), Some(e.range.end.line));
        out.push('\n');
        push_str(&mut out, loc.as_str());
        push_str(&mut out, ": D2 ");
        push_str(&mut out, e.message.as_str());
        i = i + 1;
        assert(out@ =~= "Parse Error"@ + diagnostics_text(*block, sub));
    }
    assert(errs@.subrange(0, errs@.len() as int) =~= errs@);
    string_of(&out)
}

pub open spec fn is_digit(c: char) -> bool {
    '0' <= c && c <= '9'
}

/// A non-empty run of ASCII digits.
pub open spec fn is_number(s: Seq<char>) -> bool {
    s.len() > 0 && forall|i: int| 0 <= i < s.len() ==> is_digit(#[trigger] s[i])
}

pub open spec fn digits_value(s: Seq<char>) -> nat
    decreases s.len(),
{
    if s.len() == 0 {
        0
    } else {
        digits_value(s.drop_last()) * 10 + ((s.last() as nat) - ('0' as nat)) as nat
    }
}

/// The parts of `s` between the occurrences of `sep` (one more than there are
/// separators).
pub open spec fn pieces(s: Seq<char>, sep: char) -> Seq<Seq<char>>
    decreases s.len(),
{
    if s.len() == 0 {
        seq![Seq::empty()]
    } else {
        let p = pieces(s.drop_last(), sep);
        if s.last() == sep {
            p.push(Seq::empty())
        } else {
            p.update(p.len() - 1, p.last().push(s.last()))
        }
    }
}

/// A position is written `line:column:byte`, three runs of digits.
pub open spec fn position_shape(s: Seq<char>) -> bool {
    let p = pieces(s, ':');
    p.len() == 3 && is_number(p[0]) && is_number(p[1]) && is_number(p[2])
}

pub open spec fn position_fits(s: Seq<char>) -> bool {
    let p = pieces(s, ':');
    digits_value(p[0]) <= usize::MAX && digits_value(p[1]) <= usize::MAX && digits_value(p[2]) <= usize::MAX
}

pub open spec fn position_is(pos: Position, s: Seq<char>) -> bool {
    let p = pieces(s, ':');
    pos.line as nat == digits_value(p[0]) && pos.column as nat == digits_value(p[1]) && pos.byte as nat
        == digits_value(p[2])
}

fn split_chars(s: &Vec<char>, sep: char) -> (r: Vec<Vec<char>>)
    ensures
        crate::svg::chars_view(r@) == pieces(s@, sep),
{
    let mut done: Vec<Vec<char>> = Vec::new();
    let mut cur: Vec<char> = Vec::new();
    let mut i: usize = 0;
    assert(s@.subrange(0, 0) =~= Seq::<char>::empty());
    assert(crate::svg::chars_view(done@).push(cur@) =~= pieces(Seq::<char>::empty(), sep));
    while i < s.len()
        invariant
            i <= s@.len(),
            crate::svg::chars_view(done@).push(cur@) == pieces(s@.subrange(0, i as int), sep),
        decreases s.len() - i,
    {
        let ghost sub = s@.subrange(0, i + 1);
        assert(sub.drop_last() =~= s@.subrange(0, i as int));
        let c = s[i];
        if c == sep {
            done.push(cur);
            cur = Vec::new();
        } else {
            cur.push(c);
        }
        i = i + 1;
        assert(crate::svg::chars_view(done@).push(cur@) =~= pieces(sub, sep));
    }
    assert(s@.subrange(0, s@.len() as int) =~= s@);
    done.push(cur);
    done
}

proof fn lemma_digits_prefix(s: Seq<char>, j: int)
    requires
        0 <= j <= s.len(),
    ensures
        digits_value(s.subrange(0, j)) <= digits_value(s),
    decreases s.len() - j,
{
    if j < s.len() {
        lemma_digits_prefix(s, j + 1);
        assert(s.subrange(0, j + 1).drop_last() =~= s.subrange(0, j));
    } else {
        assert(s.subrange(0, j) =~= s);
    }
}

/// The value of a run of digits, if it fits in a `usize`.
fn parse_number(s: &Vec<char>) -> (r: Option<usize>)
    requires
        is_number(s@),
    ensures
        r is Some <==> digits_value(s@) <= usize::MAX,
        r is Some ==> r->0 as nat == digits_value(s@),
{
    let mut v: u64 = 0;
    let mut i: usize = 0;
    while i < s.len()
        invariant
            is_number(s@),
            i <= s@.len(),
            v as nat == digits_value(s@.subrange(0, i as int)),
        decreases s.len() - i,
    {
        let ghost sub = s@.subrange(0, i + 1);
        assert(sub.drop_last() =~= s@.subrange(0, i as int));
        assert(is_digit(s@[i as int]));
        let d = ((s[i] as u32) - ('0' as u32)) as u64;
        if v > 1844674407370955161u64 || (v == 1844674407370955161u64 && d > 5) {
            proof {
                lemma_digits_prefix(s@, i + 1);
            }
            return None;
        }
        v = v * 10 + d;
        i = i + 1;
    }
    assert(s@.subrange(0, s@.len() as int) =~= s@);
    if v <= usize::MAX as u64 {
        Some(v as usize)
    } else {
        None
    }
}

fn all_numbers(p: &Vec<Vec<char>>) -> (r: bool)
    ensures
        r == (forall|i: int| 0 <= i < p@.len() ==> is_number(#[trigger] p@[i]@)),
{
    let mut i: usize = 0;
    while i < p.len()
        invariant
            i <= p@.len(),
            forall|j: int| 0 <= j < i ==> is_number(#[trigger] p@[j]@),
        decreases p.len() - i,
    {
        let q = &p[i];
        if q.len() == 0 {
            return false;
        }
        let mut k: usize = 0;
        while k < q.len()
            invariant
                i < p@.len(),
                q@ == p@[i as int]@,
                k <= q@.len(),
                forall|m: int| 0 <= m < k ==> is_digit(#[trigger] q@[m]),
            decreases q.len() - k,
        {
            if !('0' <= q[k] && q[k] <= '9') {
                assert(!is_digit(p@[i as int]@[k as int]));
                return false;
            }
            k = k + 1;
        }
        i = i + 1;
    }
    true
}

/// Reads `line:column:byte`.
pub fn string_to_position(raw_position: &str) -> (r: Result<Position, String>)
    ensures
        r is Ok <==> position_shape(raw_position@) && position_fits(raw_position@),
        r is Ok ==> position_is(r->Ok_0, raw_position@),
        r is Err ==> (r->Err_0@ == "Invalid Position String"@ <==> !position_shape(raw_position@)),
{
    let p = split_chars(&chars_of(raw_position), ':');
    proof {
        reveal_strlit("Invalid Position String");
        reveal_strlit("Not a number");
    }
    if p.len() != 3 || !all_numbers(&p) {
        proof {
            if p@.len() == 3 {
                let q = crate::svg::chars_view(p@);
                assert(q[0] == p@[0]@ && q[1] == p@[1]@ && q[2] == p@[2]@);
            }
        }
        return Err(String::from_str("Invalid Position String"));
    }
    assert(is_number(p@[0]@) && is_number(p@[1]@) && is_number(p@[2]@));
    let ghost q = crate::svg::chars_view(p@);
    assert(q[0] == p@[0]@ && q[1] == p@[1]@ && q[2] == p@[2]@);
    let line = parse_number(&p[0]);
    let column = parse_number(&p[1]);
    let byte = parse_number(&p[2]);
    match (line, column, byte) {
        (Some(line), Some(column), Some(byte)) => Ok(Position { line, column, byte }),
        _ => {
            let e = String::from_str("Not a number");
            assert(e@ != "Invalid Position String"@) by {
                assert(e@.len() != "Invalid Position String"@.len());
            }
            Err(e)
        },
    }
}

pub open spec fn is_position_char(c: char) -> bool {
    is_digit(c) || c == ':'
}

pub open spec fn position_chars(s: Seq<char>) -> bool {
    s.len() > 0 && forall|i: int| 0 <= i < s.len() ==> is_position_char(#[trigger] s[i])
}

/// A range is written `{path},{start}-{end}`: a path without commas, then two
/// non-empty runs of digits and colons.
pub open spec fn range_shape(s: Seq<char>) -> bool {
    let p = pieces(s, ',');
    p.len() == 2 && pieces(p[1], '-').len() == 2 && position_chars(pieces(p[1], '-')[0])
        && position_chars(pieces(p[1], '-')[1])
}

pub open spec fn range_path(s: Seq<char>) -> Seq<char> {
    pieces(s, ',')[0]
}

pub open spec fn range_start(s: Seq<char>) -> Seq<char> {
    pieces(pieces(s, ',')[1], '-')[0]
}

pub open spec fn range_end(s: Seq<char>) -> Seq<char> {
    pieces(pieces(s, ',')[1], '-')[1]
}

fn all_position_chars(q: &Vec<char>) -> (r: bool)
    ensures
        r == position_chars(q@),
{
    if q.len() == 0 {
        return false;
    }
    let mut k: usize = 0;
    while k < q.len()
        invariant
            k <= q@.len(),
            forall|m: int| 0 <= m < k ==> is_position_char(#[trigger] q@[m]),
        decreases q.len() - k,
    {
        if !(('0' <= q[k] && q[k] <= '9') || q[k] == ':') {
            return false;
        }
        k = k + 1;
    }
    true
}

/// Reads `{path},{line}:{column}:{byte}-{line}:{column}:{byte}`.
pub fn string_to_range(raw_range: &str) -> (r: Result<Range, String>)
    ensures
        !range_shape(raw_range@) ==> r is Err && r->Err_0@ == "Invalid Range String"@,
        range_shape(raw_range@) ==> {
            let a = range_start(raw_range@);
            let b = range_end(raw_range@);
            &&& (r is Ok <==> position_shape(a) && position_fits(a) && position_shape(b) && position_fits(b))
            &&& (r is Ok ==> r->Ok_0.path@ == range_path(raw_range@) && position_is(r->Ok_0.start, a)
                && position_is(r->Ok_0.end, b))
        },
{
    proof {
        reveal_strlit("Invalid Range String");
    }
    let p = split_chars(&chars_of(raw_range), ',');
    if p.len() != 2 {
        return Err(String::from_str("Invalid Range String"));
    }
    let ghost pv = crate::svg::chars_view(p@);
    assert(pv[0] == p@[0]@ && pv[1] == p@[1]@);
    let q = split_chars(&p[1], '-');
    if q.len() != 2 {
        return Err(String::from_str("Invalid Range String"));
    }
    let ghost qv = crate::svg::chars_view(q@);
    assert(qv[0] == q@[0]@ && qv[1] == q@[1]@);
    if !all_position_chars(&q[0]) || !all_position_chars(&q[1]) {
        return Err(String::from_str("Invalid Range String"));
    }
    let start = match string_to_position(string_of(&q[0]).as_str()) {
        Ok(pos) => pos,
        Err(e) => {
            return Err(e);
        },
    };
    let end = match string_to_position(string_of(&q[1]).as_str()) {
        Ok(pos) => pos,
        Err(e) => {
            return Err(e);
        },
    };
    Ok(Range { path: string_of(&p[0]), start, end })
}

} // verus!
