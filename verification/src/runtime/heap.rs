//! Values, objects and the heap that holds them.
//!
//! An object is known by its id. A value that refers to an object holds the
//! id, not the object, so that every holder of a reference sees what is
//! written through any of them.

use crate::runtime::numeric::{
    abs32, abs64, double_to_int, narrow64, single_to_int, to_abs32, to_abs64, to_double_int,
    to_narrow64, to_single_int,
};
use crate::runtime::string_map::StringMap;
use std::collections::HashMap;
use std::collections::HashSet;
use vstd::prelude::*;
use vstd::std_specs::iter::IteratorSpec;

verus! {

/// A value in a local variable, on an operand stack or in a field.
///
/// `Float` and `Double` hold the IEEE-754 bit pattern of the number, and
/// `Object` the id of the object referred to.
#[derive(Debug, PartialEq)]
pub enum HeapValue {
    Int(i32),
    Long(i64),
    Float(u32),
    Double(u64),
    Object(u64),
    String(String),
    Null,
}

/// A value as a mathematical value.
pub ghost enum HeapValueView {
    Int(i32),
    Long(i64),
    Float(u32),
    Double(u64),
    Object(u64),
    String(Seq<char>),
    Null,
}

impl HeapValueView {
    /// The value as a 32-bit integer: a number narrowed to one, 0 for what
    /// is no number.
    pub open spec fn as_int(self) -> i32 {
        match self {
            HeapValueView::Int(v) => v,
            HeapValueView::Long(v) => narrow64(v),
            HeapValueView::Float(bits) => single_to_int(bits),
            HeapValueView::Double(bits) => double_to_int(bits),
            _ => 0,
        }
    }

    /// The value as a 64-bit integer: an integer widened to one, 0 for
    /// anything else.
    pub open spec fn as_long(self) -> i64 {
        match self {
            HeapValueView::Long(v) => v,
            HeapValueView::Int(v) => v as i64,
            _ => 0,
        }
    }

    /// Whether the value is a number. What is no number reads as 0.
    pub open spec fn is_numeric(self) -> bool {
        self is Int || self is Long || self is Float || self is Double
    }

    /// The absolute value of an integer, `Null` for anything else.
    pub open spec fn abs(self) -> HeapValueView {
        match self {
            HeapValueView::Int(v) => HeapValueView::Int(abs32(v)),
            HeapValueView::Long(v) => HeapValueView::Long(abs64(v)),
            _ => HeapValueView::Null,
        }
    }
}

impl View for HeapValue {
    type V = HeapValueView;

    open spec fn view(&self) -> HeapValueView {
        match *self {
            HeapValue::Int(v) => HeapValueView::Int(v),
            HeapValue::Long(v) => HeapValueView::Long(v),
            HeapValue::Float(v) => HeapValueView::Float(v),
            HeapValue::Double(v) => HeapValueView::Double(v),
            HeapValue::Object(id) => HeapValueView::Object(id),
            HeapValue::String(s) => HeapValueView::String(s@),
            HeapValue::Null => HeapValueView::Null,
        }
    }
}

impl DeepView for HeapValue {
    type V = HeapValueView;

    open spec fn deep_view(&self) -> HeapValueView {
        self@
    }
}

impl Clone for HeapValue {
    fn clone(&self) -> (copy: HeapValue)
        ensures
            copy == *self,
    {
        match self {
            HeapValue::Int(v) => HeapValue::Int(*v),
            HeapValue::Long(v) => HeapValue::Long(*v),
            HeapValue::Float(v) => HeapValue::Float(*v),
            HeapValue::Double(v) => HeapValue::Double(*v),
            HeapValue::Object(id) => HeapValue::Object(*id),
            HeapValue::String(s) => HeapValue::String(s.clone()),
            HeapValue::Null => HeapValue::Null,
        }
    }
}

impl HeapValue {
    /// The value as a 32-bit integer.
    pub fn as_int(&self) -> (r: i32)
        ensures
            r == self@.as_int(),
    {
        match self {
            HeapValue::Int(v) => *v,
            HeapValue::Long(v) => to_narrow64(*v),
            HeapValue::Float(bits) => to_single_int(*bits),
            HeapValue::Double(bits) => to_double_int(*bits),
            _ => 0,
        }
    }

    /// The value as a 64-bit integer.
    pub fn as_long(&self) -> (r: i64)
        ensures
            r == self@.as_long(),
    {
        match self {
            HeapValue::Long(v) => *v,
            HeapValue::Int(v) => *v as i64,
            _ => 0,
        }
    }

    /// The absolute value of an integer, `Null` for anything else.
    pub fn abs(&self) -> (r: HeapValue)
        ensures
            r@ == self@.abs(),
    {
        match self {
            HeapValue::Int(v) => HeapValue::Int(to_abs32(*v)),
            HeapValue::Long(v) => HeapValue::Long(to_abs64(*v)),
            _ => HeapValue::Null,
        }
    }

    /// Whether the value is a number. What is no number reads as 0.
    pub fn is_numeric(&self) -> (b: bool)
        ensures
            b == self@.is_numeric(),
    {
        match self {
            HeapValue::Int(_) => true,
            HeapValue::Long(_) => true,
            HeapValue::Float(_) => true,
            HeapValue::Double(_) => true,
            _ => false,
        }
    }

    /// Whether the value is an `Int`.
    pub fn is_int(&self) -> (b: bool)
        ensures
            b == (self@ is Int),
    {
        match self {
            HeapValue::Int(_) => true,
            _ => false,
        }
    }

    /// Whether the value is a `Long`.
    pub fn is_long(&self) -> (b: bool)
        ensures
            b == (self@ is Long),
    {
        match self {
            HeapValue::Long(_) => true,
            _ => false,
        }
    }

    /// Whether the value is `Null`.
    pub fn is_null(&self) -> (b: bool)
        ensures
            b == (self@ is Null),
    {
        match self {
            HeapValue::Null => true,
            _ => false,
        }
    }

    /// Whether the value refers to an object.
    pub fn is_object(&self) -> (b: bool)
        ensures
            b == (self@ is Object),
    {
        match self {
            HeapValue::Object(_) => true,
            _ => false,
        }
    }
}

/// The views of the values of `values`.
pub open spec fn value_views(values: Seq<HeapValue>) -> Seq<HeapValueView> {
    Seq::new(values.len(), |i: int| values[i]@)
}

/// The views of the values of `fields`, under their names.
pub open spec fn field_views(fields: Map<Seq<char>, HeapValue>) -> Map<Seq<char>, HeapValueView> {
    Map::new(|name: Seq<char>| fields.contains_key(name), |name: Seq<char>| fields[name]@)
}

/// An object on the heap: its identity, its class and its fields.
#[derive(Debug)]
pub struct ObjectRef {
    pub id: u64,
    pub class_name: String,
    pub fields: StringMap<HeapValue>,
}

/// An object as a mathematical value.
pub ghost struct ObjectView {
    pub id: u64,
    pub class_name: Seq<char>,
    pub fields: Map<Seq<char>, HeapValueView>,
}

impl ObjectView {
    /// The object with `value` in its field `name`.
    pub open spec fn set_field(self, name: Seq<char>, value: HeapValueView) -> ObjectView {
        ObjectView { fields: self.fields.insert(name, value), ..self }
    }

    /// Whether a field of the object refers to the object `id`.
    pub open spec fn refers_to(self, id: u64) -> bool {
        exists|name: Seq<char>| #[trigger]
            self.fields.contains_key(name) && self.fields[name] == HeapValueView::Object(id)
    }
}

impl View for ObjectRef {
    type V = ObjectView;

    open spec fn view(&self) -> ObjectView {
        ObjectView {
            id: self.id,
            class_name: self.class_name@,
            fields: field_views(self.fields@),
        }
    }
}

impl ObjectRef {
    /// The fields hold no name twice.
    pub open spec fn wf(&self) -> bool {
        self.fields.wf()
    }

    /// An object of class `class_name` with the identity `id` and no fields.
    pub fn new(id: u64, class_name: &str) -> (object: ObjectRef)
        ensures
            object.wf(),
            object@ == (ObjectView { id, class_name: class_name@, fields: Map::empty() }),
    {
        let object = ObjectRef { id, class_name: class_name.to_owned(), fields: StringMap::new() };
        assert(object@.fields =~= Map::empty());
        object
    }

    /// The value of the field `name`, if the object has that field.
    pub fn get_field(&self, name: &str) -> (r: Option<&HeapValue>)
        requires
            self.wf(),
        ensures
            match r {
                Some(value) => self@.fields.contains_key(name@) && value@ == self@.fields[name@],
                None => !self@.fields.contains_key(name@),
            },
    {
        self.fields.get(name)
    }

    /// Sets the field `name` to `value`, adding the field where the object
    /// has none of that name.
    pub fn set_field(&mut self, name: &str, value: HeapValue)
        requires
            old(self).wf(),
        ensures
            final(self).wf(),
            final(self)@ == old(self)@.set_field(name@, value@),
    {
        self.fields.insert(name.to_owned(), value);
        assert(self@.fields =~= old(self)@.fields.insert(name@, value@));
    }
}

/// The views of the objects of `objects`, under their ids.
pub open spec fn object_views(objects: Map<u64, ObjectRef>) -> Map<u64, ObjectView> {
    Map::new(|id: u64| objects.contains_key(id), |id: u64| objects[id]@)
}

/// The heap: the objects by id, the id that the next object gets, and the
/// pool of interned strings by content.
pub struct Heap {
    next_id: u64,
    objects: HashMap<u64, ObjectRef>,
    string_pool: StringMap<u64>,
}

/// A heap as a mathematical value.
pub ghost struct HeapView {
    pub next_id: u64,
    pub objects: Map<u64, ObjectView>,
    pub strings: Map<Seq<char>, u64>,
}

impl HeapView {
    /// Every object has an id that was given out, and stands under it.
    pub open spec fn wf(self) -> bool {
        &&& self.next_id >= 1
        &&& self.objects.dom().finite()
        &&& forall|id: u64| #[trigger]
            self.objects.contains_key(id) ==> 1 <= id < self.next_id && self.objects[id].id == id
    }

    /// The heap before anything was allocated.
    pub open spec fn empty() -> HeapView {
        HeapView { next_id: 1, objects: Map::empty(), strings: Map::empty() }
    }

    /// Whether the ids have run out.
    pub open spec fn is_full(self) -> bool {
        self.next_id == u64::MAX
    }

    /// The heap with a new object of class `class_name`, and the object's id.
    pub open spec fn alloc_object(self, class_name: Seq<char>) -> (HeapView, u64) {
        let id = self.next_id;
        let object = ObjectView { id, class_name, fields: Map::empty() };
        (
            HeapView {
                next_id: (id + 1) as u64,
                objects: self.objects.insert(id, object),
                strings: self.strings,
            },
            id,
        )
    }

    /// The id of the live object that the pool holds for `text`.
    pub open spec fn interned(self, text: Seq<char>) -> Option<u64> {
        if self.strings.contains_key(text) && self.objects.contains_key(self.strings[text]) {
            Some(self.strings[text])
        } else {
            None
        }
    }

    /// Whether `text` can be interned: it is in the pool with a live
    /// object, or an id is left for a new one.
    pub open spec fn can_intern(self, text: Seq<char>) -> bool {
        self.interned(text) is Some || !self.is_full()
    }

    /// The heap after `text` was interned, and the id of its object: the
    /// live object of the pool where there is one, else a new object of class
    /// `java/lang/String` whose field `value` holds the text, which the pool
    /// then holds for that text.
    pub open spec fn alloc_string(self, text: Seq<char>) -> (HeapView, u64) {
        match self.interned(text) {
            Some(id) => (self, id),
            None => {
                let id = self.next_id;
                let object = ObjectView {
                    id,
                    class_name: "java/lang/String"@,
                    fields: Map::empty().insert("value"@, HeapValueView::String(text)),
                };
                (
                    HeapView {
                        next_id: (id + 1) as u64,
                        objects: self.objects.insert(id, object),
                        strings: self.strings.insert(text, id),
                    },
                    id,
                )
            },
        }
    }

    /// The heap with `value` in the field `name` of the object `id`; the
    /// heap itself where it has no such object.
    pub open spec fn set_field(self, id: u64, name: Seq<char>, value: HeapValueView) -> HeapView {
        if self.objects.contains_key(id) {
            HeapView { objects: self.objects.insert(id, self.objects[id].set_field(name, value)), ..self }
        } else {
            self
        }
    }

    /// The value of the field `name` of the object `id`.
    pub open spec fn get_field(self, id: u64, name: Seq<char>) -> Option<HeapValueView> {
        if self.objects.contains_key(id) && self.objects[id].fields.contains_key(name) {
            Some(self.objects[id].fields[name])
        } else {
            None
        }
    }

    /// The text that `value` stands for: its own where it is a `String`,
    /// and that in the field `value` of its object where it refers to an
    /// object on the heap that holds a `String` there.
    pub open spec fn text_of(self, value: HeapValueView) -> Option<Seq<char>> {
        match value {
            HeapValueView::String(text) => Some(text),
            HeapValueView::Object(id) => match self.get_field(id, "value"@) {
                Some(HeapValueView::String(text)) => Some(text),
                _ => None,
            },
            _ => None,
        }
    }

    /// The heap without the objects whose ids are not in `marked`.
    pub open spec fn retain(self, marked: Set<u64>) -> HeapView {
        HeapView { objects: self.objects.restrict(marked), ..self }
    }
}

/// Something that is done to a heap.
pub ghost enum HeapOp {
    /// An object of this class is allocated.
    AllocObject(Seq<char>),
    /// This text is interned.
    AllocString(Seq<char>),
    /// The field of this name of the object of this id is set to this value.
    SetField(u64, Seq<char>, HeapValueView),
    /// The objects whose ids are not in this set are dropped.
    Retain(Set<u64>),
}

impl HeapOp {
    /// Whether the operation leaves the object `id` on a heap that has it.
    pub open spec fn keeps(self, id: u64) -> bool {
        self matches HeapOp::Retain(marked) ==> marked.contains(id)
    }
}

impl HeapView {
    /// The heap after `op`. Where the ids have run out, nothing is
    /// allocated and the heap stays as it is.
    pub open spec fn apply(self, op: HeapOp) -> HeapView {
        match op {
            HeapOp::AllocObject(class_name) => if self.is_full() {
                self
            } else {
                self.alloc_object(class_name).0
            },
            HeapOp::AllocString(text) => if self.can_intern(text) {
                self.alloc_string(text).0
            } else {
                self
            },
            HeapOp::SetField(id, name, value) => self.set_field(id, name, value),
            HeapOp::Retain(marked) => self.retain(marked),
        }
    }

    /// The id of the object that `op` adds to the heap, if it adds one.
    pub open spec fn allocated_by(self, op: HeapOp) -> Option<u64> {
        if self.apply(op).next_id != self.next_id {
            Some(self.next_id)
        } else {
            None
        }
    }

    /// The heap after the operations of `ops`, one after the other.
    pub open spec fn apply_all(self, ops: Seq<HeapOp>) -> HeapView
        decreases ops.len(),
    {
        if ops.len() == 0 {
            self
        } else {
            self.apply(ops[0]).apply_all(ops.drop_first())
        }
    }

    /// The ids of the objects that the operations of `ops` add to the heap,
    /// in the order in which they are added.
    pub open spec fn allocated_by_all(self, ops: Seq<HeapOp>) -> Seq<u64>
        decreases ops.len(),
    {
        if ops.len() == 0 {
            Seq::empty()
        } else {
            let rest = self.apply(ops[0]).allocated_by_all(ops.drop_first());
            match self.allocated_by(ops[0]) {
                Some(id) => seq![id] + rest,
                None => rest,
            }
        }
    }
}

/// An operation keeps a heap in order, never takes back an id, and gives a
/// new object the id that was next.
pub proof fn lemma_apply(heap: HeapView, op: HeapOp)
    requires
        heap.wf(),
    ensures
        heap.apply(op).wf(),
        heap.apply(op).next_id >= heap.next_id,
        forall|id: u64|
            heap.apply(op).objects.contains_key(id) && !heap.objects.contains_key(id) ==> Some(id)
                == heap.allocated_by(op),
        heap.allocated_by(op) is Some ==> heap.apply(op).next_id == heap.next_id + 1,
{
    match op {
        HeapOp::Retain(marked) => {
            assert(heap.apply(op).objects.dom() =~= heap.objects.dom().intersect(marked));
        },
        _ => {},
    }
}

/// Whatever is done to a heap, in whatever order, the ids of the objects
/// it allocates are strictly increasing, and none of them is an id that was
/// given out before, whether its object is still on the heap or not.
pub proof fn lemma_ids_increase(heap: HeapView, ops: Seq<HeapOp>)
    requires
        heap.wf(),
    ensures
        heap.apply_all(ops).wf(),
        heap.apply_all(ops).next_id >= heap.next_id,
        forall|i: int|
            0 <= i < heap.allocated_by_all(ops).len() ==> heap.next_id <= #[trigger] heap.allocated_by_all(
                ops,
            )[i] < heap.apply_all(ops).next_id,
        forall|i: int, j: int|
            0 <= i < j < heap.allocated_by_all(ops).len() ==> heap.allocated_by_all(ops)[i]
                < heap.allocated_by_all(ops)[j],
    decreases ops.len(),
{
    if ops.len() > 0 {
        let next = heap.apply(ops[0]);
        let rest = next.allocated_by_all(ops.drop_first());
        lemma_apply(heap, ops[0]);
        lemma_ids_increase(next, ops.drop_first());
        let all = heap.allocated_by_all(ops);
        match heap.allocated_by(ops[0]) {
            Some(id) => {
                assert(all == seq![id] + rest);
                assert forall|i: int| 0 <= i < all.len() implies heap.next_id <= #[trigger] all[i]
                    < heap.apply_all(ops).next_id by {
                    if i > 0 {
                        assert(all[i] == rest[i - 1]);
                    }
                }
                assert forall|i: int, j: int| 0 <= i < j < all.len() implies all[i] < all[j] by {
                    assert(all[j] == rest[j - 1]);
                    if i > 0 {
                        assert(all[i] == rest[i - 1]);
                    }
                }
            },
            None => {},
        }
    }
}

/// Interning a text gives an object on the heap that the pool holds for
/// that text.
pub proof fn lemma_interned(heap: HeapView, text: Seq<char>)
    requires
        heap.wf(),
        heap.can_intern(text),
    ensures
        heap.alloc_string(text).0.interned(text) == Some(heap.alloc_string(text).1),
{
}

/// An operation that leaves the object of an interned text on the heap
/// leaves the text with that object.
pub proof fn lemma_interned_stays(heap: HeapView, op: HeapOp, text: Seq<char>)
    requires
        heap.wf(),
        heap.interned(text) is Some,
        op.keeps(heap.interned(text)->Some_0),
    ensures
        heap.apply(op).interned(text) == heap.interned(text),
{
}

/// Operations that leave the object of an interned text on the heap leave
/// the text with that object.
pub proof fn lemma_interned_kept(heap: HeapView, text: Seq<char>, ops: Seq<HeapOp>)
    requires
        heap.wf(),
        heap.interned(text) is Some,
        forall|i: int| 0 <= i < ops.len() ==> (#[trigger] ops[i]).keeps(heap.interned(text)->Some_0),
    ensures
        heap.apply_all(ops).interned(text) == heap.interned(text),
    decreases ops.len(),
{
    if ops.len() > 0 {
        assert(ops[0].keeps(heap.interned(text)->Some_0));
        lemma_interned_stays(heap, ops[0], text);
        lemma_apply(heap, ops[0]);
        assert forall|i: int| 0 <= i < ops.drop_first().len() implies (#[trigger] ops.drop_first()[i]).keeps(
            heap.interned(text)->Some_0,
        ) by {
            assert(ops.drop_first()[i] == ops[i + 1]);
        }
        lemma_interned_kept(heap.apply(ops[0]), text, ops.drop_first());
    }
}

/// Two calls to intern the same text give the same object, whatever is
/// done to the heap between them, as long as that object is not dropped.
/// The second call leaves the heap as it finds it.
pub proof fn lemma_intern_same(heap: HeapView, text: Seq<char>, between: Seq<HeapOp>)
    requires
        heap.wf(),
        heap.can_intern(text),
        forall|i: int|
            0 <= i < between.len() ==> (#[trigger] between[i]).keeps(heap.alloc_string(text).1),
    ensures
        ({
            let (first, id) = heap.alloc_string(text);
            let later = first.apply_all(between);
            later.alloc_string(text) == (later, id)
        }),
{
    lemma_interned(heap, text);
    lemma_apply(heap, HeapOp::AllocString(text));
    lemma_interned_kept(heap.alloc_string(text).0, text, between);
}

impl View for Heap {
    type V = HeapView;

    closed spec fn view(&self) -> HeapView {
        HeapView {
            next_id: self.next_id,
            objects: object_views(self.objects@),
            strings: self.string_pool@,
        }
    }
}

/// `HashMap::get_mut`: the value under `id`, to be changed in place, if the
/// map has that key. What the caller leaves in the value is what the map
/// then holds under the key; nothing else changes.
#[verifier::external_body]
fn value_mut(objects: &mut HashMap<u64, ObjectRef>, id: u64) -> (r: Option<&mut ObjectRef>)
    ensures
        match r {
            Some(object) => old(objects)@.contains_key(id) && *object == old(objects)@[id]
                && final(objects)@ == old(objects)@.insert(id, *final(object)),
            None => !old(objects)@.contains_key(id) && final(objects)@ == old(objects)@,
        },
{
    objects.get_mut(&id)
}

fn keys_of(objects: &HashMap<u64, ObjectRef>) -> (ids: Vec<u64>)
    ensures
        ids@.to_set() == objects@.dom(),
        ids@.no_duplicates(),
{
    let mut ids: Vec<u64> = Vec::new();
    let ghost all = objects.keys().remaining().unref();
    for id in it: objects.keys()
        invariant
            it.seq().unref() == all,
            ids@ == all.take(it.index()),
    {
        ids.push(*id);
    }
    assert(ids@ =~= all);
    ids
}

impl Heap {
    /// The heap is in order: its view is, and no object or pool holds a
    /// name twice.
    pub closed spec fn wf(&self) -> bool {
        &&& self@.wf()
        &&& self.string_pool.wf()
        &&& forall|id: u64| #[trigger] self.objects@.contains_key(id) ==> self.objects@[id].wf()
    }

    /// The view of a heap in order is in order.
    pub proof fn lemma_view_wf(&self)
        requires
            self.wf(),
        ensures
            self@.wf(),
    {
    }

    /// An empty heap, whose first object will get the id 1.
    pub fn new() -> (heap: Heap)
        ensures
            heap.wf(),
            heap@ == HeapView::empty(),
    {
        let heap = Heap { next_id: 1, objects: HashMap::new(), string_pool: StringMap::new() };
        assert(heap@.objects =~= Map::empty());
        heap
    }

    /// Whether the ids have run out, so that nothing more can be allocated.
    pub fn is_full(&self) -> (b: bool)
        ensures
            b == self@.is_full(),
    {
        self.next_id == u64::MAX
    }

    /// Allocates an object of class `class_name` without fields, under the
    /// next id, and gives its id.
    pub fn alloc_object(&mut self, class_name: &str) -> (id: u64)
        requires
            old(self).wf(),
            !old(self)@.is_full(),
        ensures
            final(self).wf(),
            (final(self)@, id) == old(self)@.alloc_object(class_name@),
    {
        let id = self.next_id;
        self.next_id = id + 1;
        let object = ObjectRef::new(id, class_name);
        let ghost object_view = object@;
        self.objects.insert(id, object);
        assert(self@.objects =~= old(self)@.objects.insert(id, object_view));
        id
    }

    /// The id of the live object that the pool holds for `value`.
    pub fn interned(&self, value: &str) -> (r: Option<u64>)
        requires
            self.wf(),
        ensures
            r == self@.interned(value@),
    {
        match self.string_pool.get(value) {
            Some(pooled) => {
                let id = *pooled;
                if self.objects.contains_key(&id) {
                    Some(id)
                } else {
                    None
                }
            },
            None => None,
        }
    }

    /// Gives the object that holds the text `value`: the one the pool has
    /// for it, if that object is still on the heap, else a new one.
    pub fn alloc_string(&mut self, value: &str) -> (r: HeapValue)
        requires
            old(self).wf(),
            old(self)@.can_intern(value@),
        ensures
            final(self).wf(),
            final(self)@ == old(self)@.alloc_string(value@).0,
            r@ == HeapValueView::Object(old(self)@.alloc_string(value@).1),
    {
        match self.interned(value) {
            Some(id) => {
                return HeapValue::Object(id);
            },
            None => {},
        }
        let id = self.next_id;
        self.next_id = id + 1;
        let mut object = ObjectRef::new(id, "java/lang/String");
        object.set_field("value", HeapValue::String(value.to_owned()));
        let ghost object_view = object@;
        self.objects.insert(id, object);
        self.string_pool.insert(value.to_owned(), id);
        assert(self@.objects =~= old(self)@.objects.insert(id, object_view));
        HeapValue::Object(id)
    }

    /// The object with the id `id`, if it is on the heap.
    pub fn get(&self, id: u64) -> (r: Option<&ObjectRef>)
        requires
            self.wf(),
        ensures
            match r {
                Some(object) => self@.objects.contains_key(id) && object@ == self@.objects[id]
                    && object.wf(),
                None => !self@.objects.contains_key(id),
            },
    {
        self.objects.get(&id)
    }

    /// The object with the id `id`, to be changed in place, if it is on the
    /// heap. The heap stays in order as long as the object keeps its id and
    /// its fields stay in order.
    pub fn get_mut(&mut self, id: u64) -> (r: Option<&mut ObjectRef>)
        requires
            old(self).wf(),
        ensures
            match r {
                Some(object) => {
                    &&& old(self)@.objects.contains_key(id)
                    &&& object@ == old(self)@.objects[id]
                    &&& object.wf()
                    &&& final(self)@ == (HeapView {
                        objects: old(self)@.objects.insert(id, final(object)@),
                        ..old(self)@
                    })
                    &&& final(object).wf() && final(object).id == id ==> final(self).wf()
                },
                None => !old(self)@.objects.contains_key(id) && final(self)@ == old(self)@
                    && final(self).wf(),
            },
    {
        let r = value_mut(&mut self.objects, id);
        assert(r matches Some(object) ==> object_views(
            old(self).objects@.insert(id, *final(object)),
        ) =~= old(self)@.objects.insert(id, final(object)@));
        assert(r matches Some(object) ==> object_views(
            old(self).objects@.insert(id, *final(object)),
        ).dom() =~= old(self)@.objects.dom());
        assert(r is None ==> object_views(old(self).objects@) =~= old(self)@.objects);
        r
    }

    /// The text that `value` stands for, if it stands for one.
    pub fn text_of<'a>(&'a self, value: &'a HeapValue) -> (r: Option<&'a str>)
        requires
            self.wf(),
        ensures
            match self@.text_of(value@) {
                Some(text) => r is Some && r->Some_0@ == text,
                None => r is None,
            },
    {
        match value {
            HeapValue::String(text) => Some(text.as_str()),
            HeapValue::Object(id) => match self.get(*id) {
                Some(object) => match object.get_field("value") {
                    Some(HeapValue::String(text)) => Some(text.as_str()),
                    _ => None,
                },
                None => None,
            },
            _ => None,
        }
    }

    /// The pool of interned strings: the id that each text was last given.
    pub fn string_pool(&self) -> (pool: &StringMap<u64>)
        requires
            self.wf(),
        ensures
            pool.wf(),
            pool@ == self@.strings,
    {
        &self.string_pool
    }

    /// Sets the field `name` of the object `id` to `value`, and says whether
    /// the heap has that object.
    pub fn set_field(&mut self, id: u64, name: &str, value: HeapValue) -> (found: bool)
        requires
            old(self).wf(),
        ensures
            final(self).wf(),
            final(self)@ == old(self)@.set_field(id, name@, value@),
            found == old(self)@.objects.contains_key(id),
    {
        match self.objects.remove(&id) {
            Some(object) => {
                let mut object = object;
                object.set_field(name, value);
                let ghost object_view = object@;
                self.objects.insert(id, object);
                assert(self@.objects =~= old(self)@.objects.insert(id, object_view));
                true
            },
            None => {
                assert(self@.objects =~= old(self)@.objects);
                false
            },
        }
    }

    /// The number of objects on the heap.
    pub fn object_count(&self) -> (n: usize)
        requires
            self.wf(),
        ensures
            n == self@.objects.dom().len(),
    {
        assert(self@.objects.dom() =~= self.objects@.dom());
        self.objects.len()
    }

    /// Drops every object whose id is not in `marked`.
    pub fn retain_alive(&mut self, marked: &HashSet<u64>)
        requires
            old(self).wf(),
        ensures
            final(self).wf(),
            final(self)@ == old(self)@.retain(marked@),
    {
        let ids = keys_of(&self.objects);
        let ghost before = self.objects@;
        let mut i: usize = 0;
        while i < ids.len()
            invariant
                i <= ids.len(),
                ids@.to_set() == before.dom(),
                ids@.no_duplicates(),
                self.next_id == old(self).next_id,
                self.string_pool == old(self).string_pool,
                self.objects@.dom().finite(),
                forall|id: u64| #[trigger]
                    self.objects@.contains_key(id) <==> before.contains_key(id) && (
                    marked@.contains(id) || exists|j: int| i <= j < ids.len() && ids[j] == id),
                forall|id: u64|
                    self.objects@.contains_key(id) ==> #[trigger] self.objects@[id] == before[id],
            decreases ids.len() - i,
        {
            let id = ids[i];
            if !marked.contains(&id) {
                self.objects.remove(&id);
            }
            i += 1;
        }
        assert(self.objects@ =~= before.restrict(marked@));
        assert(self@.objects =~= old(self)@.objects.restrict(marked@));
        assert(self@.objects.dom() =~= self.objects@.dom());
        assert forall|id: u64| #[trigger] self@.objects.contains_key(id) implies 1 <= id
            < self@.next_id && self@.objects[id].id == id by {
            assert(old(self)@.objects.contains_key(id));
        }
        assert forall|id: u64| #[trigger] self.objects@.contains_key(id) implies self.objects@[id].wf() by {
            assert(old(self).objects@.contains_key(id));
        }
    }

    /// The ids of the objects on the heap, each once, in no particular
    /// order.
    pub fn iter_objects(&self) -> (ids: Vec<u64>)
        requires
            self.wf(),
        ensures
            ids@.to_set() == self@.objects.dom(),
            ids@.no_duplicates(),
    {
        assert(self@.objects.dom() =~= self.objects@.dom());
        keys_of(&self.objects)
    }
}

} // verus!
