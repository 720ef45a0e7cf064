//! The data of one object: its type, its operations and its parent.

use crate::op_tree::{spec_keys, spec_keys_at, spec_search, OpTreeInternal, TreeQuery};
use crate::types::{Clock, Key, ObjId, ObjType, Op, OpSetMetadata};
use vstd::prelude::*;

verus! {

/// The types of object that map keys to values.
#[derive(Debug, Clone, Copy, PartialEq, Eq, Structural)]
pub enum MapType {
    MapObj,
    Table,
}

/// The object type that a map type stands for.
pub open spec fn spec_map_obj_type(m: MapType) -> ObjType {
    match m {
        MapType::MapObj => ObjType::MapObj,
        MapType::Table => ObjType::Table,
    }
}

impl From<MapType> for ObjType {
    fn from(m: MapType) -> (r: ObjType) {
        match m {
            MapType::MapObj => ObjType::MapObj,
            MapType::Table => ObjType::Table,
        }
    }
}

impl vstd::std_specs::convert::FromSpecImpl<MapType> for ObjType {
    open spec fn obeys_from_spec() -> bool {
        true
    }

    open spec fn from_spec(m: MapType) -> ObjType {
        spec_map_obj_type(m)
    }
}

/// The types of object that hold a sequence.
#[derive(Debug, Clone, Copy, PartialEq, Eq, Structural)]
pub enum SeqType {
    List,
    Text,
}

/// The object type that a sequence type stands for.
pub open spec fn spec_seq_obj_type(s: SeqType) -> ObjType {
    match s {
        SeqType::List => ObjType::List,
        SeqType::Text => ObjType::Text,
    }
}

impl From<SeqType> for ObjType {
    fn from(s: SeqType) -> (r: ObjType) {
        match s {
            SeqType::List => ObjType::List,
            SeqType::Text => ObjType::Text,
        }
    }
}

impl vstd::std_specs::convert::FromSpecImpl<SeqType> for ObjType {
    open spec fn obeys_from_spec() -> bool {
        true
    }

    open spec fn from_spec(s: SeqType) -> ObjType {
        spec_seq_obj_type(s)
    }
}

/// Whether an object is a map or a sequence, and of which type.
#[derive(Debug, Clone, Copy, PartialEq, Eq, Structural)]
pub enum ObjectDataInternal {
    MapLike {
        /// The type of this object.
        typ: MapType,
    },
    SeqLike {
        /// The type of this object.
        typ: SeqType,
    },
}

/// The object type that the shape of an object stands for.
pub open spec fn spec_internal_obj_type(i: ObjectDataInternal) -> ObjType {
    match i {
        ObjectDataInternal::MapLike { typ } => spec_map_obj_type(typ),
        ObjectDataInternal::SeqLike { typ } => spec_seq_obj_type(typ),
    }
}

/// Stores the data for an object.
#[derive(Debug, Clone, PartialEq)]
pub struct ObjectData {
    internal: ObjectDataInternal,
    /// The operations pertaining to this object.
    ops: OpTreeInternal,
    /// The id of the parent object, root has no parent.
    pub parent: Option<ObjId>,
}

impl ObjectData {
    /// The type of this object.
    pub closed spec fn spec_typ(&self) -> ObjType {
        spec_internal_obj_type(self.internal)
    }

    /// The id of the parent of this object.
    pub closed spec fn spec_parent(&self) -> Option<ObjId> {
        self.parent
    }

    /// The operations of this object, in document order.
    pub closed spec fn op_seq(&self) -> Seq<Op> {
        self.ops@
    }

    /// The data of the root object: an empty map without a parent.
    pub fn root() -> (r: Self)
        ensures
            r.spec_typ() == ObjType::MapObj,
            r.op_seq() == Seq::<Op>::empty(),
            r.spec_parent() is None,
    {
        ObjectData {
            internal: ObjectDataInternal::MapLike { typ: MapType::MapObj },
            ops: OpTreeInternal::new(),
            parent: None,
        }
    }

    /// The data of a new, empty object of type `typ` under `parent`.
    pub fn new(typ: ObjType, parent: Option<ObjId>) -> (r: Self)
        ensures
            r.spec_typ() == typ,
            r.op_seq() == Seq::<Op>::empty(),
            r.spec_parent() == parent,
    {
        let internal = match typ {
            ObjType::MapObj => ObjectDataInternal::MapLike { typ: MapType::MapObj },
            ObjType::Table => ObjectDataInternal::MapLike { typ: MapType::Table },
            ObjType::List => ObjectDataInternal::SeqLike { typ: SeqType::List },
            ObjType::Text => ObjectDataInternal::SeqLike { typ: SeqType::Text },
        };
        ObjectData { internal, ops: OpTreeInternal::new(), parent }
    }

    /// The keys of the visible operations of this object, in order and given
    /// once where they repeat; nothing where the object has no operations.
    pub fn keys(&self) -> (r: Option<Vec<Key>>)
        ensures
            self.op_seq().len() == 0 ==> r is None,
            self.op_seq().len() > 0 ==> (r matches Some(v) && v@ == spec_keys(self.op_seq())),
    {
        self.ops.keys()
    }

    /// The keys of the operations of this object that are visible at the
    /// point in history `clock`, in order and given once where they repeat;
    /// nothing where the object has no operations.
    pub fn keys_at(&self, clock: Clock) -> (r: Option<Vec<Key>>)
        ensures
            self.op_seq().len() == 0 ==> r is None,
            self.op_seq().len() > 0 ==> (r matches Some(v) && v@ == spec_keys_at(
                self.op_seq(),
                clock@,
            )),
    {
        self.ops.keys_at(clock)
    }

    fn ops(&self) -> (r: &OpTreeInternal)
        ensures
            r@ == self.op_seq(),
    {
        &self.ops
    }

    fn ops_mut(&mut self) -> (r: &mut OpTreeInternal)
        ensures
            *r == old(self).ops,
            final(self).ops == *final(r),
            final(self).internal == old(self).internal,
            final(self).parent == old(self).parent,
    {
        &mut self.ops
    }

    /// Walks over the operations of this object in order, showing each to
    /// `query`, until the query says `Finish`; returns the query.
    pub fn search<Q: TreeQuery>(&self, query: Q, metadata: &OpSetMetadata) -> (r: Q)
        ensures
            r == spec_search(query, self.op_seq(), *metadata),
    {
        self.ops().search(query, metadata)
    }

    /// Lets `f` change the operation at `index` in place; does nothing where
    /// there is no operation at `index`.
    pub fn replace<F>(&mut self, index: usize, f: F) where F: FnMut(&mut Op)
        requires
            index < old(self).op_seq().len() ==> forall|o: &mut Op|
                *o == old(self).op_seq()[index as int] ==> #[trigger] f.requires((o,)),
        ensures
            final(self).spec_typ() == old(self).spec_typ(),
            final(self).spec_parent() == old(self).spec_parent(),
            final(self).op_seq().len() == old(self).op_seq().len(),
            forall|j: int|
                0 <= j < old(self).op_seq().len() && j != index
                    ==> #[trigger] final(self).op_seq()[j] == old(self).op_seq()[j],
            index < old(self).op_seq().len() ==> exists|o: &mut Op|
                *o == old(self).op_seq()[index as int] && *final(o) == final(self).op_seq()[index as int]
                    && #[trigger] f.ensures((o,), ()),
            index >= old(self).op_seq().len() ==> final(self).op_seq() == old(self).op_seq(),
    {
        self.ops_mut().replace(index, f)
    }

    /// Removes the operation at `index` and returns it.
    pub fn remove(&mut self, index: usize) -> (r: Op)
        requires
            index < old(self).op_seq().len(),
        ensures
            r == old(self).op_seq()[index as int],
            final(self).op_seq() == old(self).op_seq().remove(index as int),
            final(self).spec_typ() == old(self).spec_typ(),
            final(self).spec_parent() == old(self).spec_parent(),
    {
        self.ops_mut().remove(index)
    }

    /// Inserts `op` at `index`, moving the operations from there on one place
    /// up.
    pub fn insert(&mut self, index: usize, op: Op)
        requires
            index <= old(self).op_seq().len(),
        ensures
            final(self).op_seq() == old(self).op_seq().insert(index as int, op),
            final(self).spec_typ() == old(self).spec_typ(),
            final(self).spec_parent() == old(self).spec_parent(),
    {
        self.ops_mut().insert(index, op)
    }

    /// The type of this object.
    pub fn typ(&self) -> (r: ObjType)
        ensures
            r == self.spec_typ(),
    {
        match self.internal {
            ObjectDataInternal::MapLike { typ } => typ.into(),
            ObjectDataInternal::SeqLike { typ } => typ.into(),
        }
    }

    /// The operation at `index`, if there is one.
    pub fn get(&self, index: usize) -> (r: Option<&Op>)
        ensures
            index < self.op_seq().len() ==> r == Some(&self.op_seq()[index as int]),
            index >= self.op_seq().len() ==> r is None,
    {
        self.ops().get(index)
    }
}


/// Each object type is stood for by exactly one shape of object: the shapes
/// of two objects that report the same type are the same, and every type has
/// a shape.
pub proof fn lemma_obj_type_shapes(a: ObjectDataInternal, b: ObjectDataInternal, t: ObjType)
    ensures
        spec_internal_obj_type(a) == spec_internal_obj_type(b) ==> a == b,
        exists|i: ObjectDataInternal| spec_internal_obj_type(i) == t,
{
    let w = match t {
        ObjType::MapObj => ObjectDataInternal::MapLike { typ: MapType::MapObj },
        ObjType::Table => ObjectDataInternal::MapLike { typ: MapType::Table },
        ObjType::List => ObjectDataInternal::SeqLike { typ: SeqType::List },
        ObjType::Text => ObjectDataInternal::SeqLike { typ: SeqType::Text },
    };
    assert(spec_internal_obj_type(w) == t);
}

/// Reading the position where an operation was inserted gives that
/// operation; the operations before it stay where they were, and those after
/// it move one place up.
pub proof fn lemma_get_after_insert(ops: Seq<Op>, index: int, op: Op)
    requires
        0 <= index <= ops.len(),
    ensures
        ops.insert(index, op).len() == ops.len() + 1,
        ops.insert(index, op)[index] == op,
        forall|j: int| 0 <= j < index ==> #[trigger] ops.insert(index, op)[j] == ops[j],
        forall|j: int| index < j <= ops.len() ==> #[trigger] ops.insert(index, op)[j] == ops[j - 1],
{
}

/// Removing an operation right after inserting it at the same position
/// gives it back and leaves the operations as they were.
pub proof fn lemma_remove_undoes_insert(ops: Seq<Op>, index: int, op: Op)
    requires
        0 <= index <= ops.len(),
    ensures
        ops.insert(index, op)[index] == op,
        ops.insert(index, op).remove(index) == ops,
{
    assert(ops.insert(index, op).remove(index) =~= ops);
}

/// Inserting the removed operation back at the position it was removed from
/// leaves the operations as they were.
pub proof fn lemma_insert_undoes_remove(ops: Seq<Op>, index: int)
    requires
        0 <= index < ops.len(),
    ensures
        ops.remove(index).insert(index, ops[index]) == ops,
{
    assert(ops.remove(index).insert(index, ops[index]) =~= ops);
}

} // verus!
