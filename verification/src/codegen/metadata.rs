//! What the code generator knows of a schema beyond its definitions: which
//! definitions are recursive.

use crate::tl::definition::all_views;
use crate::text::string_views;
use crate::tl::category::Category;
use crate::tl::definition::Definition;
use crate::tl::definition::DefinitionView;
use crate::tl::parameter::ParameterType;
use crate::tl::parameter::ParameterTypeView;
use crate::tl::parameter::ParameterView;
use crate::tl::ty::Type;
use crate::tl::ty::TypeView;
use vstd::prelude::*;

verus! {

/// Whether the parameter holds a value of the boxed type `ty`.
pub open spec fn param_has_type(param: ParameterView, ty: TypeView) -> bool {
    match param.ty {
        ParameterTypeView::Normal { ty: held, flag } => held.namespace == ty.namespace
            && held.name == ty.name,
        ParameterTypeView::Flags => false,
    }
}

/// Whether one of the parameters of `def` holds a value of the boxed type
/// `ty`.
pub open spec fn has_param_of(def: DefinitionView, ty: TypeView) -> bool {
    exists|p: int| 0 <= p < def.params.len() && param_has_type(#[trigger] def.params[p], ty)
}

/// Whether a value of `from` can directly hold a value of `to`: whether `to`
/// is a constructor of the type of one of the parameters of `from`.
pub open spec fn holds(from: DefinitionView, to: DefinitionView) -> bool {
    to.category == Category::Types && has_param_of(from, to.ty)
}

/// Whether `path` lists definitions of `defs` by their index, two at least,
/// such that each can directly hold the next.
pub open spec fn is_chain(defs: Seq<DefinitionView>, path: Seq<int>) -> bool {
    &&& path.len() >= 2
    &&& forall|m: int| 0 <= m < path.len() ==> 0 <= #[trigger] path[m] < defs.len()
    &&& forall|m: int|
        0 <= m < path.len() - 1 ==> holds(defs[#[trigger] path[m]], defs[path[m + 1]])
}

/// Whether the definition at index `i` is recursive: whether one of its
/// parameters, directly or through other definitions, has a type of which
/// the definition itself is a constructor.
pub open spec fn recursive(defs: Seq<DefinitionView>, i: int) -> bool {
    exists|path: Seq<int>| #[trigger] is_chain(defs, path) && path[0] == i && path.last() == i
}

/// The identifiers of the recursive definitions among `defs`.
pub open spec fn recursive_ids(defs: Seq<DefinitionView>) -> Set<u32> {
    Set::new(|id: u32| exists|i: int| 0 <= i < defs.len() && #[trigger] defs[i].id == id && recursive(defs, i))
}

/// Whether a chain leads from `i` to `j` through definitions with an index
/// below `k` only.
pub open spec fn linked(defs: Seq<DefinitionView>, i: int, j: int, k: int) -> bool
    decreases k,
{
    if k <= 0 {
        holds(defs[i], defs[j])
    } else {
        linked(defs, i, j, k - 1) || (linked(defs, i, k - 1, k - 1) && linked(
            defs,
            k - 1,
            j,
            k - 1,
        ))
    }
}

/// Whether all the definitions of `path` but the first and the last have an
/// index below `k`.
pub open spec fn inner_below(path: Seq<int>, k: int) -> bool {
    forall|m: int| 0 < m < path.len() - 1 ==> #[trigger] path[m] < k
}

proof fn lemma_linked_grows_from_zero(defs: Seq<DefinitionView>, i: int, j: int, l: int)
    requires
        0 <= l,
        linked(defs, i, j, 0),
    ensures
        linked(defs, i, j, l),
    decreases l,
{
    if l > 0 {
        lemma_linked_grows_from_zero(defs, i, j, l - 1);
    }
}

/// What is linked is joined by a chain.
proof fn lemma_linked_chain(defs: Seq<DefinitionView>, i: int, j: int, k: int) -> (path: Seq<int>)
    requires
        0 <= i < defs.len(),
        0 <= j < defs.len(),
        0 <= k <= defs.len(),
        linked(defs, i, j, k),
    ensures
        is_chain(defs, path),
        path[0] == i,
        path.last() == j,
    decreases k,
{
    if k <= 0 {
        seq![i, j]
    } else if linked(defs, i, j, k - 1) {
        lemma_linked_chain(defs, i, j, k - 1)
    } else {
        let a = lemma_linked_chain(defs, i, k - 1, k - 1);
        let b = lemma_linked_chain(defs, k - 1, j, k - 1);
        let path = a + b.skip(1);
        assert forall|m: int| 0 <= m < path.len() - 1 implies holds(
            defs[#[trigger] path[m]],
            defs[path[m + 1]],
        ) by {
            if m < a.len() - 1 {
                assert(path[m] == a[m]);
                assert(path[m + 1] == a[m + 1]);
            } else {
                let r = m - a.len() + 1;
                assert(path[m + 1] == b[r + 1]);
                if r == 0 {
                    assert(path[m] == a.last());
                    assert(b[0] == a.last());
                } else {
                    assert(path[m] == b[r]);
                }
            }
        }
        path
    }
}

/// The first place after the start at which `path` holds `v`.
proof fn first_place(path: Seq<int>, v: int, start: int, place: int) -> (m: int)
    requires
        0 < start <= place < path.len() - 1,
        path[place] == v,
        forall|j: int| 0 < j < start ==> path[j] != v,
    ensures
        0 < m <= place,
        path[m] == v,
        forall|j: int| 0 < j < m ==> path[j] != v,
    decreases place - start,
{
    if path[start] == v {
        start
    } else {
        first_place(path, v, start + 1, place)
    }
}

/// The last place before the end at which `path` holds `v`.
proof fn last_place(path: Seq<int>, v: int, end: int, place: int) -> (m: int)
    requires
        0 < place <= end < path.len() - 1,
        path[place] == v,
        forall|j: int| end < j < path.len() - 1 ==> path[j] != v,
    ensures
        place <= m < path.len() - 1,
        path[m] == v,
        forall|j: int| m < j < path.len() - 1 ==> path[j] != v,
    decreases end - place,
{
    if path[end] == v {
        end
    } else {
        last_place(path, v, end - 1, place)
    }
}

/// The ends of a chain through definitions below `k` are linked.
proof fn lemma_chain_linked(defs: Seq<DefinitionView>, path: Seq<int>, k: int)
    requires
        is_chain(defs, path),
        inner_below(path, k),
        0 <= k <= defs.len(),
    ensures
        linked(defs, path[0], path.last(), k),
    decreases k,
{
    if path.len() == 2 {
        assert(holds(defs[path[0int]], defs[path[0int + 1]]));
        lemma_linked_grows_from_zero(defs, path[0], path.last(), k);
    } else if k == 0 {
        assert(path[1] < 0);
    } else if exists|m: int| 0 < m < path.len() - 1 && path[m] == k - 1 {
        let place = choose|m: int| 0 < m < path.len() - 1 && path[m] == k - 1;
        let first = first_place(path, k - 1, 1, place);
        let last = last_place(path, k - 1, path.len() - 2, place);
        let head = path.take(first + 1);
        let tail = path.skip(last);
        assert(is_chain(defs, head)) by {
            assert forall|m: int| 0 <= m < head.len() - 1 implies holds(
                defs[#[trigger] head[m]],
                defs[head[m + 1]],
            ) by {
                assert(head[m] == path[m]);
                assert(head[m + 1] == path[m + 1]);
            }
        }
        assert(is_chain(defs, tail)) by {
            assert forall|m: int| 0 <= m < tail.len() - 1 implies holds(
                defs[#[trigger] tail[m]],
                defs[tail[m + 1]],
            ) by {
                assert(tail[m] == path[last + m]);
                assert(tail[m + 1] == path[last + m + 1]);
            }
        }
        assert(inner_below(head, k - 1)) by {
            assert forall|m: int| 0 < m < head.len() - 1 implies #[trigger] head[m] < k - 1 by {
                assert(head[m] == path[m]);
            }
        }
        assert(inner_below(tail, k - 1)) by {
            assert forall|m: int| 0 < m < tail.len() - 1 implies #[trigger] tail[m] < k - 1 by {
                assert(tail[m] == path[last + m]);
            }
        }
        lemma_chain_linked(defs, head, k - 1);
        lemma_chain_linked(defs, tail, k - 1);
        assert(head.last() == k - 1);
        assert(tail[0] == k - 1);
        assert(tail.last() == path.last());
    } else {
        assert(inner_below(path, k - 1)) by {
            assert forall|m: int| 0 < m < path.len() - 1 implies #[trigger] path[m] < k - 1 by {
                assert(path[m] < k);
            }
        }
        lemma_chain_linked(defs, path, k - 1);
    }
}

/// A definition is recursive exactly if it is linked to itself through any
/// of the definitions.
pub proof fn lemma_recursive_linked(defs: Seq<DefinitionView>, i: int)
    requires
        0 <= i < defs.len(),
    ensures
        recursive(defs, i) == linked(defs, i, i, defs.len() as int),
{
    if recursive(defs, i) {
        let path = choose|path: Seq<int>| #[trigger]
            is_chain(defs, path) && path[0] == i && path.last() == i;
        assert(inner_below(path, defs.len() as int));
        lemma_chain_linked(defs, path, defs.len() as int);
    }
    if linked(defs, i, i, defs.len() as int) {
        let path = lemma_linked_chain(defs, i, i, defs.len() as int);
        assert(is_chain(defs, path) && path[0] == i && path.last() == i);
    }
}

/// Facts about the definitions of a schema.
pub struct Metadata {
    /// The identifiers of the recursive definitions.
    recursing_defs: Vec<u32>,
}

impl View for Metadata {
    type V = Set<u32>;

    /// The identifiers of the recursive definitions.
    closed spec fn view(&self) -> Set<u32> {
        self.recursing_defs@.to_set()
    }
}

/// Tests whether two paths of namespaces are the same.
fn namespaces_equal(a: &Vec<String>, b: &Vec<String>) -> (equal: bool)
    ensures
        equal == (string_views(a@) == string_views(b@)),
{
    if a.len() != b.len() {
        assert(string_views(a@).len() != string_views(b@).len());
        return false;
    }
    let mut i: usize = 0;
    while i < a.len()
        invariant
            i <= a@.len(),
            a@.len() == b@.len(),
            forall|j: int| 0 <= j < i ==> a@[j]@ == b@[j]@,
        decreases a@.len() - i,
    {
        if a[i] != b[i] {
            assert(string_views(a@)[i as int] != string_views(b@)[i as int]);
            return false;
        }
        i = i + 1;
    }
    assert(string_views(a@) =~= string_views(b@));
    true
}

/// Tests whether one of the parameters of `def` holds a value of the boxed
/// type `ty`.
fn holds_type(def: &Definition, ty: &Type) -> (found: bool)
    ensures
        found == has_param_of(def@, ty@),
{
    let mut p: usize = 0;
    while p < def.params.len()
        invariant
            p <= def.params@.len(),
            forall|q: int| 0 <= q < p ==> !param_has_type(#[trigger] def@.params[q], ty@),
        decreases def.params@.len() - p,
    {
        assert(def@.params[p as int] == def.params@[p as int]@);
        let same = match &def.params[p].ty {
            ParameterType::Normal { ty: held, flag } => namespaces_equal(
                &held.namespace,
                &ty.namespace,
            ) && held.name == ty.name,
            ParameterType::Flags => false,
        };
        if same {
            return true;
        }
        p = p + 1;
    }
    false
}

/// Whether `rows` tells for the first `done` definitions, and for all with
/// `level + 1` in place of `level`, which definitions they are linked to
/// through definitions below `level`.
spec fn links_at(rows: Seq<Vec<bool>>, defs: Seq<DefinitionView>, level: int, done: int) -> bool {
    &&& rows.len() == defs.len()
    &&& forall|i: int| 0 <= i < rows.len() ==> (#[trigger] rows[i])@.len() == defs.len()
    &&& forall|i: int, j: int|
        0 <= i < defs.len() && 0 <= j < defs.len() ==> #[trigger] rows[i]@[j] == linked(
            defs,
            i,
            j,
            if i < done {
                level + 1
            } else {
                level
            },
        )
}

/// For every definition, which definitions it can directly hold.
fn direct_links(definitions: &Vec<Definition>) -> (rows: Vec<Vec<bool>>)
    ensures
        links_at(rows@, all_views(definitions@), 0, 0),
{
    let ghost defs = all_views(definitions@);
    let n = definitions.len();
    let mut rows: Vec<Vec<bool>> = Vec::new();
    let mut i: usize = 0;
    while i < n
        invariant
            i <= n,
            n == definitions@.len(),
            defs == all_views(definitions@),
            rows@.len() == i,
            forall|a: int| 0 <= a < i ==> (#[trigger] rows@[a])@.len() == n,
            forall|a: int, b: int|
                0 <= a < i && 0 <= b < n ==> #[trigger] rows@[a]@[b] == holds(defs[a], defs[b]),
        decreases n - i,
    {
        let mut row: Vec<bool> = Vec::new();
        let mut j: usize = 0;
        while j < n
            invariant
                j <= n,
                i < n,
                n == definitions@.len(),
                defs == all_views(definitions@),
                row@.len() == j,
                forall|b: int| 0 <= b < j ==> #[trigger] row@[b] == holds(defs[i as int], defs[b]),
            decreases n - j,
        {
            let to = &definitions[j];
            let link = to.category == Category::Types && holds_type(&definitions[i], &to.ty);
            row.push(link);
            j = j + 1;
        }
        rows.push(row);
        i = i + 1;
    }
    rows
}

/// Adds to `row` what the definition `k` is linked to.
fn joined(row: &Vec<bool>, through: &Vec<bool>) -> (out: Vec<bool>)
    requires
        row@.len() == through@.len(),
    ensures
        out@.len() == row@.len(),
        forall|j: int| 0 <= j < out@.len() ==> #[trigger] out@[j] == (row@[j] || through@[j]),
{
    let mut out: Vec<bool> = Vec::new();
    let mut j: usize = 0;
    while j < row.len()
        invariant
            j <= row@.len(),
            row@.len() == through@.len(),
            out@.len() == j,
            forall|b: int| 0 <= b < j ==> #[trigger] out@[b] == (row@[b] || through@[b]),
        decreases row@.len() - j,
    {
        out.push(row[j] || through[j]);
        j = j + 1;
    }
    out
}

/// For every definition, which definitions it is linked to.
fn all_links(definitions: &Vec<Definition>) -> (rows: Vec<Vec<bool>>)
    ensures
        links_at(rows@, all_views(definitions@), definitions@.len() as int, 0),
{
    let ghost defs = all_views(definitions@);
    let n = definitions.len();
    let mut rows = direct_links(definitions);
    let mut k: usize = 0;
    while k < n
        invariant
            k <= n,
            n == definitions@.len(),
            defs == all_views(definitions@),
            links_at(rows@, defs, k as int, 0),
        decreases n - k,
    {
        let through = rows[k].clone();
        assert(through@ =~= rows@[k as int]@);
        let mut i: usize = 0;
        while i < n
            invariant
                i <= n,
                k < n,
                n == definitions@.len(),
                defs == all_views(definitions@),
                through@.len() == n,
                forall|j: int|
                    0 <= j < n ==> #[trigger] through@[j] == linked(defs, k as int, j, k as int),
                links_at(rows@, defs, k as int, i as int),
            decreases n - i,
        {
            if rows[i][k] {
                let row = joined(&rows[i], &through);
                rows[i] = row;
            }
            i = i + 1;
        }
        k = k + 1;
    }
    rows
}

impl Metadata {
    /// Finds the recursive definitions among `definitions`.
    pub fn new(definitions: &Vec<Definition>) -> (metadata: Metadata)
        ensures
            metadata@ == recursive_ids(all_views(definitions@)),
    {
        let ghost defs = all_views(definitions@);
        let n = definitions.len();
        let rows = all_links(definitions);
        let mut recursing_defs: Vec<u32> = Vec::new();
        let mut i: usize = 0;
        while i < n
            invariant
                i <= n,
                n == definitions@.len(),
                defs == all_views(definitions@),
                links_at(rows@, defs, n as int, 0),
                forall|id: u32|
                    recursing_defs@.contains(id) <==> exists|a: int|
                        0 <= a < i && #[trigger] defs[a].id == id && recursive(defs, a),
            decreases n - i,
        {
            proof {
                lemma_recursive_linked(defs, i as int);
            }
            let ghost before = recursing_defs@;
            if rows[i][i] {
                recursing_defs.push(definitions[i].id);
                assert forall|id: u32| recursing_defs@.contains(id) <==> exists|a: int|
                    0 <= a < i + 1 && #[trigger] defs[a].id == id && recursive(defs, a) by {
                    if recursing_defs@.contains(id) {
                        let at = choose|at: int|
                            0 <= at < recursing_defs@.len() && recursing_defs@[at] == id;
                        if at < before.len() {
                            assert(before.contains(id));
                        } else {
                            assert(defs[i as int].id == id);
                        }
                    }
                    if exists|a: int|
                        0 <= a < i + 1 && #[trigger] defs[a].id == id && recursive(defs, a) {
                        let a = choose|a: int|
                            0 <= a < i + 1 && #[trigger] defs[a].id == id && recursive(defs, a);
                        if a < i {
                            assert(before.contains(id));
                            let at = choose|at: int| 0 <= at < before.len() && before[at] == id;
                            assert(recursing_defs@[at] == id);
                        } else {
                            assert(recursing_defs@[before.len() as int] == id);
                        }
                    }
                }
            }
            i = i + 1;
        }
        let metadata = Metadata { recursing_defs };
        assert(metadata@ =~= recursive_ids(defs));
        metadata
    }

    /// Whether `def` is recursive: whether a value of it can hold, directly or
    /// through other definitions, another value of the same definition.
    pub fn is_recursive_def(&self, def: &Definition) -> (recursive: bool)
        ensures
            recursive == self@.contains(def.id),
    {
        let mut i: usize = 0;
        while i < self.recursing_defs.len()
            invariant
                i <= self.recursing_defs@.len(),
                forall|j: int| 0 <= j < i ==> self.recursing_defs@[j] != def.id,
            decreases self.recursing_defs@.len() - i,
        {
            if self.recursing_defs[i] == def.id {
                return true;
            }
            i = i + 1;
        }
        false
    }
}

} // verus!
