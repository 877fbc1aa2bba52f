//! The mark-sweep collector.
//!
//! The roots are the objects that a local or an operand of any frame refers
//! to. An object survives a collection if and only if a walk from a root
//! over the fields of objects on the heap reaches it. The pool of interned
//! strings is no root.

use crate::runtime::frame::FrameView;
use crate::runtime::heap::{value_views, Heap, HeapValue, HeapValueView, HeapView, ObjectRef};
use crate::runtime::stack::Stack;
use crate::runtime::string_map::StringMap;
use std::collections::HashSet;
use vstd::prelude::*;

verus! {

/// Whether one of `values` refers to the object `id`.
pub open spec fn refers(values: Seq<HeapValueView>, id: u64) -> bool {
    exists|i: int| 0 <= i < values.len() && #[trigger] values[i] == HeapValueView::Object(id)
}

/// Whether a local or an operand of `frame` refers to the object `id`.
pub open spec fn frame_refers(frame: FrameView, id: u64) -> bool {
    refers(frame.locals, id) || refers(frame.stack, id)
}

/// Whether a frame of `stack` refers to the object `id`.
pub open spec fn is_root(stack: Seq<FrameView>, id: u64) -> bool {
    exists|f: int| 0 <= f < stack.len() && frame_refers(#[trigger] stack[f], id)
}

/// Whether `from` is on the heap and one of its fields refers to `to`.
pub open spec fn edge(heap: HeapView, from: u64, to: u64) -> bool {
    heap.objects.contains_key(from) && heap.objects[from].refers_to(to)
}

/// Whether each object of `path` but the last refers to the one behind it.
pub open spec fn is_path(heap: HeapView, path: Seq<u64>) -> bool {
    forall|i: int| 0 <= i < path.len() - 1 ==> edge(heap, #[trigger] path[i], path[i + 1])
}

/// Whether `path` starts at a root and ends at `id`.
pub open spec fn leads_to(heap: HeapView, stack: Seq<FrameView>, path: Seq<u64>, id: u64) -> bool {
    &&& path.len() > 0
    &&& is_root(stack, path[0])
    &&& path.last() == id
    &&& is_path(heap, path)
}

/// Whether a walk from a root over the fields of objects reaches `id`.
pub open spec fn reachable(heap: HeapView, stack: Seq<FrameView>, id: u64) -> bool {
    exists|path: Seq<u64>| #[trigger] leads_to(heap, stack, path, id)
}

/// The ids that a walk from a root reaches.
pub open spec fn reachable_set(heap: HeapView, stack: Seq<FrameView>) -> Set<u64> {
    Set::new(|id: u64| reachable(heap, stack, id))
}

/// A root is reachable.
pub proof fn lemma_root_reachable(heap: HeapView, stack: Seq<FrameView>, id: u64)
    requires
        is_root(stack, id),
    ensures
        reachable(heap, stack, id),
{
    assert(leads_to(heap, stack, seq![id], id));
}

/// What a reachable object refers to is reachable.
pub proof fn lemma_edge_reachable(heap: HeapView, stack: Seq<FrameView>, from: u64, to: u64)
    requires
        reachable(heap, stack, from),
        edge(heap, from, to),
    ensures
        reachable(heap, stack, to),
{
    let path = choose|path: Seq<u64>| #[trigger] leads_to(heap, stack, path, from);
    let longer = path.push(to);
    assert forall|i: int| 0 <= i < longer.len() - 1 implies edge(
        heap,
        #[trigger] longer[i],
        longer[i + 1],
    ) by {
        if i < path.len() - 1 {
            assert(edge(heap, path[i], path[i + 1]));
        }
    }
    assert(leads_to(heap, stack, longer, to));
}

/// What a collection leaves of a heap.
pub open spec fn collected(heap: HeapView, stack: Seq<FrameView>) -> HeapView {
    heap.retain(reachable_set(heap, stack))
}

/// The objects that survive a collection are the objects on the heap that
/// a walk from a frame reaches, and each of them is as it was.
pub proof fn lemma_survivors(heap: HeapView, stack: Seq<FrameView>)
    ensures
        forall|id: u64|
            #[trigger] collected(heap, stack).objects.contains_key(id) <==> heap.objects.contains_key(
                id,
            ) && reachable(heap, stack, id),
        forall|id: u64|
            collected(heap, stack).objects.contains_key(id) ==> #[trigger] collected(
                heap,
                stack,
            ).objects[id] == heap.objects[id],
        collected(heap, stack).next_id == heap.next_id,
        collected(heap, stack).strings == heap.strings,
{
}

/// Where every reference that a walk from a frame comes by leads to an
/// object on the heap, the ids of the survivors are the reachable ids.
pub proof fn lemma_survivors_are_reachable_set(heap: HeapView, stack: Seq<FrameView>)
    requires
        forall|id: u64| reachable(heap, stack, id) ==> heap.objects.contains_key(id),
    ensures
        collected(heap, stack).objects.dom() == reachable_set(heap, stack),
{
    assert(collected(heap, stack).objects.dom() =~= reachable_set(heap, stack));
}

/// A collection cuts no reference of a survivor: what a surviving object
/// refers to survives too, if it was on the heap.
pub proof fn lemma_survivors_closed(heap: HeapView, stack: Seq<FrameView>, from: u64, to: u64)
    requires
        collected(heap, stack).objects.contains_key(from),
        edge(heap, from, to),
        heap.objects.contains_key(to),
    ensures
        collected(heap, stack).objects.contains_key(to),
{
    lemma_edge_reachable(heap, stack, from, to);
}

/// With no frame nothing is reachable, and a collection empties the heap.
pub proof fn lemma_no_roots(heap: HeapView, stack: Seq<FrameView>)
    requires
        forall|id: u64| !is_root(stack, id),
    ensures
        collected(heap, stack).objects == Map::<u64, crate::runtime::heap::ObjectView>::empty(),
{
    assert forall|id: u64| !reachable(heap, stack, id) by {
        if reachable(heap, stack, id) {
            let path = choose|path: Seq<u64>| #[trigger] leads_to(heap, stack, path, id);
            assert(is_root(stack, path[0]));
        }
    }
    assert(collected(heap, stack).objects =~= Map::<u64, crate::runtime::heap::ObjectView>::empty());
}

/// What holds of the marked set and the work list throughout marking: what
/// is marked is on the heap and reachable, and what waits is marked.
spec fn marking(heap: HeapView, stack: Seq<FrameView>, marked: Set<u64>, pending: Seq<u64>) -> bool {
    &&& marked.finite()
    &&& forall|id: u64| #[trigger]
        marked.contains(id) ==> heap.objects.contains_key(id) && reachable(heap, stack, id)
    &&& forall|i: int| 0 <= i < pending.len() ==> marked.contains(#[trigger] pending[i])
}

/// Every object on the heap that a marked object refers to is marked,
/// unless the marked object still waits or is the one being walked.
spec fn closed_except(heap: HeapView, marked: Set<u64>, pending: Seq<u64>, current: Option<u64>) -> bool {
    forall|a: u64, b: u64|
        #![trigger marked.contains(a), edge(heap, a, b)]
        marked.contains(a) && edge(heap, a, b) && heap.objects.contains_key(b) ==> marked.contains(
            b,
        ) || pending.contains(a) || current == Some(a)
}

/// Where the roots on the heap are marked and the marked set is closed,
/// every object on the heap along a walk from a root is marked.
proof fn lemma_walk_marked(
    heap: HeapView,
    stack: Seq<FrameView>,
    marked: Set<u64>,
    path: Seq<u64>,
    k: int,
)
    requires
        closed_except(heap, marked, Seq::empty(), None),
        forall|id: u64| is_root(stack, id) && heap.objects.contains_key(id) ==> marked.contains(id),
        path.len() > 0,
        is_root(stack, path[0]),
        is_path(heap, path),
        heap.objects.contains_key(path.last()),
        0 <= k < path.len(),
    ensures
        marked.contains(path[k]),
    decreases k,
{
    if k < path.len() - 1 {
        assert(edge(heap, path[k], path[k + 1]));
    }
    assert(heap.objects.contains_key(path[k]));
    if k > 0 {
        lemma_walk_marked(heap, stack, marked, path, k - 1);
        assert(edge(heap, path[k - 1], path[k]));
        assert(!Seq::<u64>::empty().contains(path[k - 1]));
    }
}

/// `value` refers to no object on the heap that is not marked.
spec fn settled(heap: HeapView, marked: Set<u64>, value: HeapValueView) -> bool {
    value matches HeapValueView::Object(id) ==> (heap.objects.contains_key(id) ==> marked.contains(
        id,
    ))
}

/// `frame` refers to no object on the heap that is not marked.
spec fn frame_settled(heap: HeapView, marked: Set<u64>, frame: FrameView) -> bool {
    forall|id: u64|
        frame_refers(frame, id) && heap.objects.contains_key(id) ==> #[trigger] marked.contains(id)
}

/// The collector.
pub struct Gc {
    pub debug_mode: bool,
}

impl Gc {
    /// A collector. `debug_mode` has no part in what is collected.
    pub fn new(debug_mode: bool) -> (gc: Gc)
        ensures
            gc.debug_mode == debug_mode,
    {
        Gc { debug_mode }
    }

    /// Drops from `heap` every object that no walk from a frame of `stack`
    /// reaches, and keeps the others as they are.
    pub fn collect(&self, heap: &mut Heap, stack: &Stack)
        requires
            old(heap).wf(),
        ensures
            final(heap).wf(),
            final(heap)@ == collected(old(heap)@, stack@),
    {
        let marked = Self::mark_from_stack(heap, stack);
        heap.retain_alive(&marked);
        assert(heap@.objects =~= old(heap)@.objects.restrict(reachable_set(old(heap)@, stack@)));
    }

    /// The ids of the objects on `heap` that a walk from a frame of `stack`
    /// reaches.
    fn mark_from_stack(heap: &Heap, stack: &Stack) -> (marked: HashSet<u64>)
        requires
            heap.wf(),
        ensures
            forall|id: u64|
                marked@.contains(id) <==> heap@.objects.contains_key(id) && reachable(
                    heap@,
                    stack@,
                    id,
                ),
    {
        let mut marked: HashSet<u64> = HashSet::new();
        let mut pending: Vec<u64> = Vec::new();
        let frames = stack.iter_frames();
        let mut f: usize = 0;
        while f < frames.len()
            invariant
                f <= frames.len(),
                heap.wf(),
                frames.deep_view() == stack@,
                marking(heap@, stack@, marked@, pending@),
                closed_except(heap@, marked@, pending@, None),
                forall|g: int| 0 <= g < f ==> frame_settled(heap@, marked@, #[trigger] stack@[g]),
            decreases frames.len() - f,
        {
            let frame = &frames[f];
            assert(frame@ == stack@[f as int]);
            proof {
                assert forall|id: u64| refers(value_views(frame.local_vars@), id) implies reachable(
                    heap@,
                    stack@,
                    id,
                ) by {
                    assert(frame_refers(stack@[f as int], id));
                    lemma_root_reachable(heap@, stack@, id);
                }
                assert forall|id: u64|
                    refers(value_views(frame.operand_stack@), id) implies reachable(
                    heap@,
                    stack@,
                    id,
                ) by {
                    assert(frame_refers(stack@[f as int], id));
                    lemma_root_reachable(heap@, stack@, id);
                }
            }
            Self::mark_values(heap, &frame.local_vars, &mut marked, &mut pending, Ghost(stack@));
            Self::mark_values(heap, &frame.operand_stack, &mut marked, &mut pending, Ghost(stack@));
            f += 1;
        }
        assert forall|id: u64| is_root(stack@, id) && heap@.objects.contains_key(id) implies marked@.contains(
            id,
        ) by {
            let g = choose|g: int| 0 <= g < stack@.len() && frame_refers(#[trigger] stack@[g], id);
            assert(frame_settled(heap@, marked@, stack@[g]));
        }
        proof {
            heap.lemma_view_wf();
        }
        while pending.len() > 0
            invariant
                heap.wf(),
                heap@.objects.dom().finite(),
                marking(heap@, stack@, marked@, pending@),
                closed_except(heap@, marked@, pending@, None),
                forall|id: u64|
                    is_root(stack@, id) && heap@.objects.contains_key(id) ==> marked@.contains(id),
            decreases heap@.objects.dom().len() - marked@.len(), pending@.len(),
        {
            proof {
                heap.lemma_view_wf();
            }
            let ghost marked_before = marked@;
            let ghost pending_before = pending@;
            let id = pending.pop().unwrap();
            assert(marked@.contains(id)) by {
                assert(marked@.contains(pending_before[pending_before.len() - 1]));
            }
            assert(closed_except(heap@, marked@, pending@, Some(id))) by {
                assert forall|a: u64, b: u64|
                    #![trigger marked@.contains(a), edge(heap@, a, b)]
                    marked@.contains(a) && edge(heap@, a, b) && heap@.objects.contains_key(
                        b,
                    ) implies marked@.contains(b) || pending@.contains(a) || Some(id) == Some(a) by {
                    if !marked@.contains(b) && a != id {
                        assert(pending_before.contains(a));
                        let i = choose|i: int| 0 <= i < pending_before.len() && pending_before[i] == a;
                        assert(pending@[i] == a);
                    }
                }
            }
            match heap.get(id) {
                Some(object) => {
                    Self::mark_fields(heap, object, id, &mut marked, &mut pending, Ghost(stack@));
                },
                None => {},
            }
            proof {
                vstd::set_lib::lemma_len_subset(marked@, heap@.objects.dom());
                vstd::set_lib::lemma_len_subset(marked_before, marked@);
            }
        }
        proof {
            assert(pending@ =~= Seq::<u64>::empty());
            assert forall|id: u64|
                heap@.objects.contains_key(id) && reachable(heap@, stack@, id) implies marked@.contains(
                id,
            ) by {
                let path = choose|path: Seq<u64>| #[trigger] leads_to(heap@, stack@, path, id);
                lemma_walk_marked(heap@, stack@, marked@, path, path.len() - 1);
            }
        }
        marked
    }

    /// Marks the objects on the heap that `values` refer to, and lets the
    /// newly marked wait for their walk.
    fn mark_values(
        heap: &Heap,
        values: &Vec<HeapValue>,
        marked: &mut HashSet<u64>,
        pending: &mut Vec<u64>,
        Ghost(stack): Ghost<Seq<FrameView>>,
    )
        requires
            heap.wf(),
            marking(heap@, stack, old(marked)@, old(pending)@),
            closed_except(heap@, old(marked)@, old(pending)@, None),
            forall|id: u64| refers(value_views(values@), id) ==> reachable(heap@, stack, id),
        ensures
            marking(heap@, stack, final(marked)@, final(pending)@),
            closed_except(heap@, final(marked)@, final(pending)@, None),
            old(marked)@.subset_of(final(marked)@),
            forall|id: u64|
                refers(value_views(values@), id) && heap@.objects.contains_key(id) ==> final(marked)@.contains(id),
    {
        let mut i: usize = 0;
        while i < values.len()
            invariant
                i <= values.len(),
                heap.wf(),
                marking(heap@, stack, marked@, pending@),
                closed_except(heap@, marked@, pending@, None),
                old(marked)@.subset_of(marked@),
                forall|id: u64| refers(value_views(values@), id) ==> reachable(heap@, stack, id),
                forall|j: int|
                    0 <= j < i ==> settled(heap@, marked@, #[trigger] value_views(values@)[j]),
            decreases values.len() - i,
        {
            proof {
                if let HeapValueView::Object(id) = values[i as int]@ {
                    assert(value_views(values@)[i as int] == HeapValueView::Object(id));
                    assert(refers(value_views(values@), id));
                }
            }
            Self::mark_value(heap, &values[i], marked, pending, Ghost(stack), Ghost(None));
            i += 1;
        }
    }

    /// Marks the objects on the heap that the fields of `object`, which is
    /// marked and has the id `id`, refer to.
    fn mark_fields(
        heap: &Heap,
        object: &ObjectRef,
        id: u64,
        marked: &mut HashSet<u64>,
        pending: &mut Vec<u64>,
        Ghost(stack): Ghost<Seq<FrameView>>,
    )
        requires
            heap.wf(),
            object.wf(),
            heap@.objects.contains_key(id),
            heap@.objects[id] == object@,
            old(marked)@.contains(id),
            marking(heap@, stack, old(marked)@, old(pending)@),
            closed_except(heap@, old(marked)@, old(pending)@, Some(id)),
        ensures
            marking(heap@, stack, final(marked)@, final(pending)@),
            closed_except(heap@, final(marked)@, final(pending)@, None),
            old(marked)@.subset_of(final(marked)@),
            final(marked)@.len() - old(marked)@.len() == final(pending)@.len() - old(pending)@.len(),
    {
        let count = object.fields.len();
        let ghost names = object.fields.keys();
        let ghost values = object.fields.values();
        let mut i: usize = 0;
        while i < count
            invariant
                i <= count,
                count == values.len(),
                heap.wf(),
                object.wf(),
                values == object.fields.values(),
                StringMap::lists(object.fields@, names, values),
                heap@.objects.contains_key(id),
                heap@.objects[id] == object@,
                marked@.contains(id),
                marking(heap@, stack, marked@, pending@),
                closed_except(heap@, marked@, pending@, Some(id)),
                old(marked)@.subset_of(marked@),
                marked@.len() - old(marked)@.len() == pending@.len() - old(pending)@.len(),
                forall|j: int| 0 <= j < i ==> settled(heap@, marked@, (#[trigger] values[j])@),
            decreases count - i,
        {
            let value = object.fields.value_at(i);
            proof {
                if let HeapValueView::Object(b) = value@ {
                    assert(object.fields@.contains_key(names[i as int]));
                    assert(object@.fields.contains_key(names[i as int]));
                    assert(object@.refers_to(b));
                    assert(edge(heap@, id, b));
                    lemma_edge_reachable(heap@, stack, id, b);
                }
            }
            Self::mark_value(heap, value, marked, pending, Ghost(stack), Ghost(Some(id)));
            i += 1;
        }
        proof {
            assert forall|a: u64, b: u64|
                #![trigger marked@.contains(a), edge(heap@, a, b)]
                marked@.contains(a) && edge(heap@, a, b) && heap@.objects.contains_key(
                    b,
                ) implies marked@.contains(b) || pending@.contains(a) by {
                if a == id {
                    let name = choose|name: Seq<char>| #[trigger]
                        object@.fields.contains_key(name) && object@.fields[name]
                            == HeapValueView::Object(b);
                    assert(object.fields@.contains_key(name));
                    assert(names.contains(name));
                    let j = choose|j: int| 0 <= j < names.len() && names[j] == name;
                    assert(object.fields@[names[j]] == values[j]);
                    assert(values[j]@ == HeapValueView::Object(b));
                }
            }
        }
    }

    /// Marks the object that `value` refers to, if it is on the heap and
    /// not marked yet, and lets it wait for its walk.
    fn mark_value(
        heap: &Heap,
        value: &HeapValue,
        marked: &mut HashSet<u64>,
        pending: &mut Vec<u64>,
        Ghost(stack): Ghost<Seq<FrameView>>,
        Ghost(current): Ghost<Option<u64>>,
    )
        requires
            heap.wf(),
            marking(heap@, stack, old(marked)@, old(pending)@),
            closed_except(heap@, old(marked)@, old(pending)@, current),
            value@ matches HeapValueView::Object(id) ==> reachable(heap@, stack, id),
        ensures
            marking(heap@, stack, final(marked)@, final(pending)@),
            closed_except(heap@, final(marked)@, final(pending)@, current),
            old(marked)@.subset_of(final(marked)@),
            value@ matches HeapValueView::Object(id) ==> (heap@.objects.contains_key(id)
                ==> final(marked)@.contains(id)),
            final(marked)@.len() - old(marked)@.len() == final(pending)@.len() - old(pending)@.len(),
    {
        if let HeapValue::Object(id) = value {
            let id = *id;
            if heap.get(id).is_some() && !marked.contains(&id) {
                marked.insert(id);
                pending.push(id);
                proof {
                    assert(pending@[pending@.len() - 1] == id);
                    assert forall|a: u64, b: u64|
                        #![trigger marked@.contains(a), edge(heap@, a, b)]
                        marked@.contains(a) && edge(heap@, a, b) && heap@.objects.contains_key(
                            b,
                        ) implies marked@.contains(b) || pending@.contains(a) || current == Some(
                        a,
                    ) by {
                        if a == id {
                            assert(pending@[pending@.len() - 1] == a);
                        } else if !marked@.contains(b) && current != Some(a) {
                            assert(old(marked)@.contains(a));
                            assert(old(pending)@.contains(a));
                            let i = choose|i: int|
                                0 <= i < old(pending)@.len() && old(pending)@[i] == a;
                            assert(pending@[i] == a);
                        }
                    }
                }
            }
        }
    }
}

} // verus!
