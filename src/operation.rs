//! Query introspection. Documents are read with apollo-parser, the parser
//! that apollo-compiler is built on: the compiler's lowering of field
//! arguments panics on malformed numbers (`1e`, a lone `-`), while the
//! parser reports them as syntax errors. What counts as a root field is
//! decided here, in verified code, from the syntax tree converted node for
//! node.

use apollo_parser::ast::{self, AstNode};
use apollo_parser::Parser;
use vstd::prelude::*;
use vstd::string::*;

use crate::error::AuthError;

verus! {

/// The three kinds of executable operation a query document may declare.
#[derive(Debug, Clone, Copy, PartialEq, Eq, Structural)]
pub enum OperationKind {
    Query,
    Mutation,
    Subscription,
}

/// One top-level selection of the chosen operation.
#[derive(Debug, Clone)]
pub struct RootField {
    pub name: String,
    pub kind: OperationKind,
}

/// What authorization learns of a request's query: the selected operation,
/// its kind and its root fields, each root field name listed at least once.
#[derive(Debug, Clone)]
pub struct OperationDescriptor {
    pub selected_operation_name: Option<String>,
    pub kind: OperationKind,
    pub root_fields: Vec<RootField>,
}

/// One selection of a selection set, as plain values: a field by name, an
/// inline fragment by the index of its selection set, a fragment spread by
/// the fragment's name.
#[derive(Debug, Clone)]
pub enum Selection {
    Field(String),
    InlineFragment(usize),
    FragmentSpread(String),
}

/// One operation of a parsed document: its name if it has one, its kind,
/// and the index of its selection set.
#[derive(Debug, Clone)]
pub struct ParsedOperation {
    pub name: Option<String>,
    pub kind: OperationKind,
    pub selection_set: usize,
}

/// One fragment definition: its name and the index of its selection set.
#[derive(Debug, Clone)]
pub struct ParsedFragment {
    pub name: String,
    pub selection_set: usize,
}

/// A parsed executable document: every selection set it holds, its
/// operations and its fragment definitions, in document order.
#[derive(Debug, Clone, Default)]
pub struct ParsedDocument {
    pub selection_sets: Vec<Vec<Selection>>,
    pub operations: Vec<ParsedOperation>,
    pub fragments: Vec<ParsedFragment>,
}

/// The mathematical shape of a selection, with a set index as an integer.
pub enum SelectionShape {
    Field(Seq<char>),
    InlineFragment(int),
    FragmentSpread(Seq<char>),
}

/// An operation: its name, its kind, the index of its selection set.
pub type OperationShape = (Option<Seq<char>>, OperationKind, int);

/// A fragment definition: its name, the index of its selection set.
pub type FragmentShape = (Seq<char>, int);

/// A document: its selection sets, operations and fragment definitions.
pub type DocumentShape = (Seq<Seq<SelectionShape>>, Seq<OperationShape>, Seq<FragmentShape>);

pub open spec fn opt_string_view(o: Option<String>) -> Option<Seq<char>> {
    match o {
        Some(s) => Some(s@),
        None => None,
    }
}

pub open spec fn strings_view(v: Seq<String>) -> Seq<Seq<char>> {
    v.map_values(|s: String| s@)
}

pub open spec fn opt_str_view(o: Option<&str>) -> Option<Seq<char>> {
    match o {
        Some(s) => Some(s@),
        None => None,
    }
}

impl Selection {
    pub open spec fn shape(&self) -> SelectionShape {
        match self {
            Selection::Field(n) => SelectionShape::Field(n@),
            Selection::InlineFragment(i) => SelectionShape::InlineFragment(*i as int),
            Selection::FragmentSpread(n) => SelectionShape::FragmentSpread(n@),
        }
    }
}

pub open spec fn set_shape(v: Seq<Selection>) -> Seq<SelectionShape> {
    v.map_values(|s: Selection| s.shape())
}

impl ParsedOperation {
    pub open spec fn shape(&self) -> OperationShape {
        (opt_string_view(self.name), self.kind, self.selection_set as int)
    }
}

pub open spec fn shapes(v: Seq<ParsedOperation>) -> Seq<OperationShape> {
    v.map_values(|o: ParsedOperation| o.shape())
}

impl ParsedDocument {
    pub open spec fn shape(&self) -> DocumentShape {
        (
            self.selection_sets@.map_values(|v: Vec<Selection>| set_shape(v@)),
            shapes(self.operations@),
            self.fragments@.map_values(|f: ParsedFragment| (f.name@, f.selection_set as int)),
        )
    }
}

/// The selection `item` leads to selection set `c`: an inline fragment with
/// that set, or a spread of a fragment defined with that set.
pub open spec fn leads_to(d: DocumentShape, item: SelectionShape, c: int) -> bool {
    match item {
        SelectionShape::Field(_) => false,
        SelectionShape::InlineFragment(i) => i == c,
        SelectionShape::FragmentSpread(n) => exists|j: int|
            0 <= j < d.2.len() && d.2[j].0 == n && d.2[j].1 == c,
    }
}

/// `v` holds every selection set that a selection of a set in `v` leads to.
pub open spec fn closed(d: DocumentShape, v: Set<int>) -> bool {
    forall|l: int, k: int, c: int|
        v.contains(l) && 0 <= l < d.0.len() && 0 <= k < d.0[l].len() && 0 <= c < d.0.len()
            && #[trigger] leads_to(d, d.0[l][k], c) ==> v.contains(c)
}

/// Selection set `l` is reached from set `root` through inline fragments and
/// fragment spreads, at any depth: it lies in every closed set holding `root`.
pub open spec fn reachable(d: DocumentShape, root: int, l: int) -> bool {
    forall|v: Set<int>| #[trigger] closed(d, v) && v.contains(root) ==> v.contains(l)
}

/// `n` is a top-level field of the selection set `root`: a field selected
/// in a set reached from it.
pub open spec fn root_field(d: DocumentShape, root: int, n: Seq<char>) -> bool {
    exists|l: int, k: int|
        0 <= l < d.0.len() && 0 <= k < d.0[l].len() && reachable(d, root, l)
            && #[trigger] d.0[l][k] == SelectionShape::Field(n)
}

impl OperationDescriptor {
    /// The root field names, in order.
    pub open spec fn field_names(&self) -> Seq<Seq<char>> {
        self.root_fields@.map_values(|f: RootField| f.name@)
    }

    /// The descriptor is the one derived from operation `op` of `d`: same
    /// name, same kind, and as root fields exactly the top-level fields of
    /// its selection set, each tagged with the kind.
    pub open spec fn describes(&self, d: DocumentShape, op: OperationShape) -> bool {
        &&& opt_string_view(self.selected_operation_name) == op.0
        &&& self.kind == op.1
        &&& forall|n: Seq<char>| self.field_names().contains(n) <==> root_field(d, op.2, n)
        &&& forall|i: int| 0 <= i < self.root_fields@.len() ==> #[trigger] self.root_fields@[i].kind == op.1
    }
}

/// The operation picked by the selection rule: the first declared one when
/// no name is given, else the first whose name is exactly the given one.
pub open spec fn is_selected(ops: Seq<OperationShape>, name: Option<Seq<char>>, i: int) -> bool {
    &&& 0 <= i < ops.len()
    &&& match name {
        None => i == 0,
        Some(n) => ops[i].0 == Some(n) && forall|j: int| 0 <= j < i ==> ops[j].0 != Some(n),
    }
}

/// Some operation is selectable: the document declares one (no name given),
/// or declares one of the given name.
pub open spec fn has_selectable(ops: Seq<OperationShape>, name: Option<Seq<char>>) -> bool {
    match name {
        None => ops.len() > 0,
        Some(n) => exists|i: int| 0 <= i < ops.len() && ops[i].0 == Some(n),
    }
}

pub open spec fn count_unset(s: Seq<bool>) -> nat
    decreases s.len(),
{
    if s.len() == 0 {
        0
    } else {
        count_unset(s.drop_last()) + if s.last() {
            0nat
        } else {
            1nat
        }
    }
}

proof fn lemma_count_unset_mark(s: Seq<bool>, i: int)
    requires
        0 <= i < s.len(),
        !s[i],
    ensures
        count_unset(s.update(i, true)) + 1 == count_unset(s),
    decreases s.len(),
{
    let t = s.update(i, true);
    if i == s.len() - 1 {
        assert(t.drop_last() =~= s.drop_last());
    } else {
        assert(t.drop_last() =~= s.drop_last().update(i, true));
        lemma_count_unset_mark(s.drop_last(), i);
    }
}

pub open spec fn marked(s: Seq<bool>) -> Set<int> {
    Set::new(|x: int| 0 <= x < s.len() && s[x])
}

fn clone_opt_string(o: &Option<String>) -> (r: Option<String>)
    ensures
        opt_string_view(r) == opt_string_view(*o),
{
    match o {
        Some(s) => Some(s.clone()),
        None => None,
    }
}

fn names_equal(a: &Option<String>, n: &String) -> (r: bool)
    ensures
        r == (opt_string_view(*a) == Some(n@)),
{
    match a {
        Some(s) => *s == *n,
        None => false,
    }
}

/// Marks set `c` as reached, when it is a set of the document not marked yet.
fn mark(
    doc: &ParsedDocument,
    root: usize,
    visited: &mut Vec<bool>,
    changed: &mut bool,
    c: usize,
    Ghost(from): Ghost<int>,
    Ghost(k): Ghost<int>,
)
    requires
        old(visited)@.len() == doc.selection_sets@.len(),
        0 <= from < old(visited)@.len(),
        old(visited)@[from],
        reachable(doc.shape(), root as int, from),
        0 <= k < doc.shape().0[from].len(),
        c < old(visited)@.len() ==> leads_to(doc.shape(), doc.shape().0[from][k], c as int),
        forall|x: int| 0 <= x < old(visited)@.len() && old(visited)@[x] ==> reachable(doc.shape(), root as int, x),
    ensures
        final(visited)@.len() == old(visited)@.len(),
        forall|x: int| 0 <= x < old(visited)@.len() && old(visited)@[x] ==> final(visited)@[x],
        forall|x: int| 0 <= x < final(visited)@.len() && final(visited)@[x] ==> reachable(doc.shape(), root as int, x),
        c < old(visited)@.len() ==> final(visited)@[c as int],
        *final(changed) == (*old(changed) || final(visited)@ != old(visited)@),
        final(visited)@ != old(visited)@ ==> count_unset(final(visited)@) < count_unset(old(visited)@),
{
    if c < visited.len() && !visited[c] {
        proof {
            let d = doc.shape();
            assert forall|v: Set<int>| #[trigger] closed(d, v) && v.contains(root as int) implies v.contains(c as int) by {
                assert(v.contains(from));
                assert(leads_to(d, d.0[from][k], c as int));
            }
            lemma_count_unset_mark(visited@, c as int);
        }
        visited.set(c, true);
        *changed = true;
    }
}

/// Marks every selection set that set `l`'s selections lead to.
fn mark_children(doc: &ParsedDocument, root: usize, visited: &mut Vec<bool>, changed: &mut bool, l: usize)
    requires
        old(visited)@.len() == doc.selection_sets@.len(),
        l < old(visited)@.len(),
        old(visited)@[l as int],
        forall|x: int| 0 <= x < old(visited)@.len() && old(visited)@[x] ==> reachable(doc.shape(), root as int, x),
    ensures
        final(visited)@.len() == old(visited)@.len(),
        forall|x: int| 0 <= x < old(visited)@.len() && old(visited)@[x] ==> final(visited)@[x],
        forall|x: int| 0 <= x < final(visited)@.len() && final(visited)@[x] ==> reachable(doc.shape(), root as int, x),
        forall|k: int, c: int|
            0 <= k < doc.shape().0[l as int].len() && 0 <= c < final(visited)@.len()
                && leads_to(doc.shape(), doc.shape().0[l as int][k], c) ==> final(visited)@[c],
        *final(changed) == (*old(changed) || final(visited)@ != old(visited)@),
        final(visited)@ != old(visited)@ ==> count_unset(final(visited)@) < count_unset(old(visited)@),
{
    let ghost d = doc.shape();
    let ghost start = visited@;
    let ghost changed0 = *changed;
    let items = &doc.selection_sets[l];
    assert(d.0[l as int] == set_shape(items@));
    let mut k: usize = 0;
    while k < items.len()
        invariant
            d == doc.shape(),
            items@ == doc.selection_sets@[l as int]@,
            d.0[l as int] == set_shape(items@),
            visited@.len() == start.len(),
            start.len() == doc.selection_sets@.len(),
            l < start.len(),
            start[l as int],
            k <= items@.len(),
            forall|x: int| 0 <= x < start.len() && start[x] ==> visited@[x],
            forall|x: int| 0 <= x < visited@.len() && visited@[x] ==> reachable(d, root as int, x),
            forall|k2: int, c: int|
                0 <= k2 < k && 0 <= c < visited@.len() && leads_to(d, d.0[l as int][k2], c) ==> visited@[c],
            *changed == (changed0 || visited@ != start),
            visited@ != start ==> count_unset(visited@) < count_unset(start),
        decreases items@.len() - k,
    {
        let ghost before = visited@;
        assert(d.0[l as int][k as int] == items@[k as int].shape());
        match &items[k] {
            Selection::Field(_) => {},
            Selection::InlineFragment(c) => {
                mark(doc, root, visited, changed, *c, Ghost(l as int), Ghost(k as int));
            },
            Selection::FragmentSpread(name) => {
                let mut j: usize = 0;
                while j < doc.fragments.len()
                    invariant
                        d == doc.shape(),
                        d.0[l as int] == set_shape(items@),
                        d.0[l as int][k as int] == SelectionShape::FragmentSpread(name@),
                        visited@.len() == start.len(),
                        start.len() == doc.selection_sets@.len(),
                        l < start.len(),
                        k < items@.len(),
                        start[l as int],
                        j <= doc.fragments@.len(),
                        forall|x: int| 0 <= x < start.len() && before[x] ==> visited@[x],
                        forall|x: int| 0 <= x < start.len() && start[x] ==> before[x],
                        before.len() == start.len(),
                        forall|x: int| 0 <= x < visited@.len() && visited@[x] ==> reachable(d, root as int, x),
                        forall|j2: int|
                            0 <= j2 < j && d.2[j2].0 == name@ && 0 <= d.2[j2].1 < visited@.len()
                                ==> visited@[d.2[j2].1],
                        *changed == (changed0 || visited@ != start),
                        visited@ != start ==> count_unset(visited@) < count_unset(start),
                        before != start ==> count_unset(before) < count_unset(start),
                        visited@ != before ==> count_unset(visited@) < count_unset(before),
                    decreases doc.fragments@.len() - j,
                {
                    let f = &doc.fragments[j];
                    assert(d.2[j as int] == (f.name@, f.selection_set as int));
                    if f.name == *name {
                        mark(doc, root, visited, changed, f.selection_set, Ghost(l as int), Ghost(k as int));
                    }
                    j += 1;
                }
                assert forall|c: int| 0 <= c < visited@.len() && leads_to(d, d.0[l as int][k as int], c) implies visited@[c] by {
                    let j2 = choose|j2: int| 0 <= j2 < d.2.len() && d.2[j2].0 == name@ && d.2[j2].1 == c;
                }
            },
        }
        k += 1;
    }
}

/// Which selection sets are reached from set `root`: exactly those in
/// every closed set holding it.
pub fn reached_sets(doc: &ParsedDocument, root: usize) -> (r: Vec<bool>)
    requires
        root < doc.selection_sets@.len(),
    ensures
        r@.len() == doc.selection_sets@.len(),
        forall|x: int| 0 <= x < r@.len() ==> (r@[x] <==> reachable(doc.shape(), root as int, x)),
{
    let ghost d = doc.shape();
    let n = doc.selection_sets.len();
    let mut visited: Vec<bool> = Vec::new();
    let mut i: usize = 0;
    while i < n
        invariant
            n == doc.selection_sets@.len(),
            i <= n,
            visited@.len() == i,
            forall|x: int| 0 <= x < i ==> !visited@[x],
        decreases n - i,
    {
        visited.push(false);
        i += 1;
    }
    visited.set(root, true);
    assert forall|x: int| 0 <= x < visited@.len() && visited@[x] implies reachable(d, root as int, x) by {
        assert(x == root);
    }
    let mut changed = true;
    while changed
        invariant
            d == doc.shape(),
            n == doc.selection_sets@.len(),
            visited@.len() == n,
            root < n,
            visited@[root as int],
            forall|x: int| 0 <= x < visited@.len() && visited@[x] ==> reachable(d, root as int, x),
            !changed ==> closed(d, marked(visited@)),
        decreases count_unset(visited@) + if changed { 1nat } else { 0nat },
    {
        let ghost start = visited@;
        changed = false;
        let mut l: usize = 0;
        while l < n
            invariant
                d == doc.shape(),
                n == doc.selection_sets@.len(),
                visited@.len() == n,
                root < n,
                l <= n,
                forall|x: int| 0 <= x < n && start[x] ==> visited@[x],
                forall|x: int| 0 <= x < visited@.len() && visited@[x] ==> reachable(d, root as int, x),
                changed == (visited@ != start),
                visited@ != start ==> count_unset(visited@) < count_unset(start),
                start.len() == n,
                start[root as int],
                !changed ==> forall|l2: int, k: int, c: int|
                    0 <= l2 < l && visited@[l2] && 0 <= k < d.0[l2].len() && 0 <= c < n
                        && leads_to(d, d.0[l2][k], c) ==> visited@[c],
            decreases n - l,
        {
            if visited[l] {
                mark_children(doc, root, &mut visited, &mut changed, l);
            }
            l += 1;
        }
        proof {
            if !changed {
                assert(visited@ == start);
                assert forall|a: int, k: int, c: int|
                    marked(visited@).contains(a) && 0 <= a < d.0.len() && 0 <= k < d.0[a].len() && 0 <= c < d.0.len()
                        && #[trigger] leads_to(d, d.0[a][k], c) implies marked(visited@).contains(c) by {
                    assert(visited@[a]);
                }
            }
        }
    }
    assert forall|x: int| 0 <= x < visited@.len() && reachable(d, root as int, x) implies visited@[x] by {
        assert(closed(d, marked(visited@)));
        assert(marked(visited@).contains(root as int));
    }
    visited
}

/// The top-level field names of selection set `root`: every field selected
/// in a set reached from it, and no other.
pub fn root_field_names(doc: &ParsedDocument, root: usize) -> (r: Vec<String>)
    ensures
        forall|n: Seq<char>| strings_view(r@).contains(n) <==> root_field(doc.shape(), root as int, n),
{
    let ghost d = doc.shape();
    let mut r: Vec<String> = Vec::new();
    if root >= doc.selection_sets.len() {
        assert forall|n: Seq<char>| !root_field(d, root as int, n) by {
            if root_field(d, root as int, n) {
                let (l, k) = choose|l: int, k: int|
                    0 <= l < d.0.len() && 0 <= k < d.0[l].len() && reachable(d, root as int, l)
                        && #[trigger] d.0[l][k] == SelectionShape::Field(n);
                let v = Set::empty().insert(root as int);
                assert(closed(d, v));
                assert(v.contains(l));
            }
        }
        assert(strings_view(r@) =~= Seq::<Seq<char>>::empty());
        return r;
    }
    let visited = reached_sets(doc, root);
    let mut l: usize = 0;
    while l < visited.len()
        invariant
            d == doc.shape(),
            visited@.len() == doc.selection_sets@.len(),
            forall|x: int| 0 <= x < visited@.len() ==> (visited@[x] <==> reachable(d, root as int, x)),
            l <= visited@.len(),
            forall|n: Seq<char>| strings_view(r@).contains(n) <==> exists|l2: int, k: int|
                0 <= l2 < l && 0 <= k < d.0[l2].len() && reachable(d, root as int, l2)
                    && #[trigger] d.0[l2][k] == SelectionShape::Field(n),
        decreases visited@.len() - l,
    {
        if visited[l] {
            let items = &doc.selection_sets[l];
            assert(d.0[l as int] == set_shape(items@));
            let mut k: usize = 0;
            while k < items.len()
                invariant
                    d == doc.shape(),
                    visited@.len() == doc.selection_sets@.len(),
                    l < visited@.len(),
                    reachable(d, root as int, l as int),
                    items@ == doc.selection_sets@[l as int]@,
                    d.0[l as int] == set_shape(items@),
                    k <= items@.len(),
                    forall|n: Seq<char>| strings_view(r@).contains(n) <==> exists|l2: int, k2: int|
                        ((0 <= l2 < l && 0 <= k2 < d.0[l2].len() && reachable(d, root as int, l2)) || (l2 == l && 0 <= k2 < k))
                            && #[trigger] d.0[l2][k2] == SelectionShape::Field(n),
                decreases items@.len() - k,
            {
                assert(d.0[l as int][k as int] == items@[k as int].shape());
                let ghost old_r = strings_view(r@);
                if let Selection::Field(name) = &items[k] {
                    r.push(name.clone());
                    assert(strings_view(r@) =~= old_r.push(name@));
                    assert forall|n: Seq<char>| strings_view(r@).contains(n) <==> exists|l2: int, k2: int|
                        ((0 <= l2 < l && 0 <= k2 < d.0[l2].len() && reachable(d, root as int, l2)) || (l2 == l && 0 <= k2 < k + 1))
                            && #[trigger] d.0[l2][k2] == SelectionShape::Field(n) by {
                        if n == name@ {
                            assert(strings_view(r@)[old_r.len() as int] == n);
                            assert(d.0[l as int][k as int] == SelectionShape::Field(n));
                        }
                        if old_r.contains(n) {
                            let i = choose|i: int| 0 <= i < old_r.len() && old_r[i] == n;
                            assert(strings_view(r@)[i] == n);
                        }
                        if strings_view(r@).contains(n) {
                            let i = choose|i: int| 0 <= i < r@.len() && #[trigger] strings_view(r@)[i] == n;
                            if i < old_r.len() {
                                assert(old_r[i] == n);
                            }
                        }
                    }
                }
                k += 1;
            }
        }
        l += 1;
    }
    r
}

/// Builds the descriptor of operation `i` of a parsed document.
pub fn describe(doc: &ParsedDocument, i: usize) -> (d: OperationDescriptor)
    requires
        i < doc.operations@.len(),
    ensures
        d.describes(doc.shape(), doc.shape().1[i as int]),
{
    let op = &doc.operations[i];
    assert(doc.shape().1[i as int] == op.shape());
    let names = root_field_names(doc, op.selection_set);
    let mut root_fields: Vec<RootField> = Vec::new();
    let mut k: usize = 0;
    while k < names.len()
        invariant
            k <= names@.len(),
            root_fields@.len() == k,
            forall|j: int| 0 <= j < k ==> (#[trigger] root_fields@[j]).name@ == names@[j]@
                && root_fields@[j].kind == op.kind,
        decreases names@.len() - k,
    {
        let name = names[k].clone();
        root_fields.push(RootField { name, kind: op.kind });
        assert(root_fields@[k as int].name@ == names@[k as int]@);
        k += 1;
    }
    let d = OperationDescriptor {
        selected_operation_name: clone_opt_string(&op.name),
        kind: op.kind,
        root_fields,
    };
    assert(d.field_names() =~= strings_view(names@));
    d
}

/// Applies the selection rule to the operations of a parsed document.
pub fn select_operation(ops: &Vec<ParsedOperation>, name: Option<&str>) -> (r: Result<usize, AuthError>)
    ensures
        r is Err <==> !has_selectable(shapes(ops@), opt_str_view(name)),
        r is Err ==> r == Err::<usize, AuthError>(AuthError::OperationNotFound),
        r is Ok ==> is_selected(shapes(ops@), opt_str_view(name), r->Ok_0 as int),
{
    match name {
        None => {
            if ops.len() == 0 {
                Err(AuthError::OperationNotFound)
            } else {
                Ok(0)
            }
        },
        Some(n) => {
            let wanted = String::from_str(n);
            let mut i: usize = 0;
            while i < ops.len()
                invariant
                    i <= ops@.len(),
                    wanted@ == n@,
                    name == Some(n),
                    forall|j: int| 0 <= j < i ==> #[trigger] shapes(ops@)[j].0 != Some(n@),
                decreases ops@.len() - i,
            {
                assert(shapes(ops@)[i as int] == ops@[i as int].shape());
                if names_equal(&ops[i].name, &wanted) {
                    return Ok(i);
                }
                i += 1;
            }
            assert forall|j: int| 0 <= j < ops@.len() implies shapes(ops@)[j].0 != Some(n@) by {}
            Err(AuthError::OperationNotFound)
        },
    }
}

/// The executable document `query`, as the query parser reads it.
pub uninterp spec fn document_of(query: Seq<char>) -> DocumentShape;

#[verifier::external_type_specification]
#[verifier::external_body]
pub struct ExAstName(ast::Name);

#[verifier::external_type_specification]
#[verifier::external_body]
pub struct ExAstOperationType(ast::OperationType);

#[verifier::external_type_specification]
#[verifier::external_body]
pub struct ExAstSelectionSet(ast::SelectionSet);

/// Relies on apollo_parser's Name node: the text of its first token, the
/// name itself (Name::text would panic on the empty node a syntax error
/// leaves).
#[verifier::external_body]
fn name_text(n: Option<ast::Name>) -> (r: String) {
    n.and_then(|n| n.syntax().first_token()).map(|t| t.text().to_string()).unwrap_or_default()
}

/// Relies on apollo_parser's OperationType node: tells its keyword apart;
/// an operation without one is a query.
#[verifier::external_body]
fn operation_kind(ty: Option<ast::OperationType>) -> (r: OperationKind) {
    match ty {
        Some(t) if t.mutation_token().is_some() => OperationKind::Mutation,
        Some(t) if t.subscription_token().is_some() => OperationKind::Subscription,
        _ => OperationKind::Query,
    }
}

/// Relies on apollo_parser's SelectionSet node: appends the set, and the sets
/// of its inline fragments after it, to `sets`, one selection for each
/// selection node; returns the set's index.
#[verifier::external_body]
fn convert_selection_set(set: Option<ast::SelectionSet>, sets: &mut Vec<Vec<Selection>>) -> (r: usize) {
    let index = sets.len();
    sets.push(Vec::new());
    let mut items = Vec::new();
    for sel in set.iter().flat_map(|s| s.selections()) {
        items.push(match sel {
            ast::Selection::Field(f) => Selection::Field(name_text(f.name())),
            ast::Selection::InlineFragment(i) => Selection::InlineFragment(convert_selection_set(i.selection_set(), sets)),
            ast::Selection::FragmentSpread(s) => Selection::FragmentSpread(name_text(s.fragment_name().and_then(|n| n.name()))),
        });
    }
    sets[index] = items;
    index
}

/// Relies on apollo_parser::Parser::parse, which reports syntax errors in the
/// tree rather than panicking, and on its Document node: each operation and
/// fragment definition becomes one entry, node for node.
#[verifier::external_body]
fn parse_document(query: &str) -> (r: ParsedDocument)
    ensures
        r.shape() == document_of(query@),
{
    let mut doc = ParsedDocument::default();
    for def in Parser::new(query).parse().document().definitions() {
        if let ast::Definition::OperationDefinition(op) = def {
            let selection_set = convert_selection_set(op.selection_set(), &mut doc.selection_sets);
            doc.operations.push(ParsedOperation { name: op.name().map(|n| name_text(Some(n))), kind: operation_kind(op.operation_type()), selection_set });
        } else if let ast::Definition::FragmentDefinition(f) = def {
            let selection_set = convert_selection_set(f.selection_set(), &mut doc.selection_sets);
            doc.fragments.push(ParsedFragment { name: name_text(f.fragment_name().and_then(|n| n.name())), selection_set });
        }
    }
    doc
}

/// The Query Introspector: parses `query` and describes the operation that
/// the selection rule picks, or fails with `OperationNotFound`.
pub fn introspect(query: &str, operation_name: Option<&str>) -> (r: Result<
    OperationDescriptor,
    AuthError,
>)
    ensures
        r is Err <==> !has_selectable(document_of(query@).1, opt_str_view(operation_name)),
        r is Err ==> r == Err::<OperationDescriptor, AuthError>(AuthError::OperationNotFound),
        r is Ok ==> exists|i: int|
            is_selected(document_of(query@).1, opt_str_view(operation_name), i)
                && r->Ok_0.describes(document_of(query@), #[trigger] document_of(query@).1[i]),
{
    let doc = parse_document(query);
    let i = select_operation(&doc.operations, operation_name)?;
    let d = describe(&doc, i);
    assert(is_selected(document_of(query@).1, opt_str_view(operation_name), i as int));
    Ok(d)
}

} // verus!
