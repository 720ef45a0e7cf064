//! Observers of the operations applied to a document, and the patches that
//! record them.

use crate::types::{ExId, Prop, Value};
use vstd::prelude::*;

verus! {

/// The path from an object up to the root of the document: the property at
/// which each object on the way stands in its parent, starting with the
/// object itself.
#[derive(Debug, Clone, PartialEq)]
pub struct Path(pub Vec<Prop>);

impl View for Path {
    type V = Seq<Prop>;

    open spec fn view(&self) -> Seq<Prop> {
        self.0@
    }
}

/// The properties of `path`, from the root down to the object.
fn root_first(path: Path) -> (r: Vec<Prop>)
    ensures
        r@ == path@.reverse(),
{
    let Path(mut rest) = path;
    let ghost orig = rest@;
    let mut res: Vec<Prop> = Vec::new();
    while rest.len() > 0
        invariant
            res@.len() + rest@.len() == orig.len(),
            rest@ == orig.take(rest@.len() as int),
            forall|j: int| 0 <= j < res@.len() ==> #[trigger] res@[j] == orig[orig.len() - 1 - j],
        decreases rest@.len(),
    {
        let p = rest.pop().unwrap();
        assert(rest@ =~= orig.take(rest@.len() as int));
        res.push(p);
    }
    assert(res@ =~= orig.reverse());
    res
}

/// An observer of operations applied to the document.
pub trait OpObserver {
    /// A new value has been inserted into the given object.
    ///
    /// - `obj`: the object that has been inserted into.
    /// - `index`: the index the new value has been inserted at.
    /// - `tagged_value`: the value that has been inserted and the id of the operation that did the
    /// insert.
    fn insert(&mut self, obj: ExId, path: Path, index: usize, tagged_value: (Value, ExId));

    /// A new value has been put into the given object.
    ///
    /// - `obj`: the object that has been put into.
    /// - `key`: the key that the value as been put at.
    /// - `tagged_value`: the value that has been put into the object and the id of the operation
    /// that did the put.
    /// - `conflict`: whether this put conflicts with other operations.
    fn put(
        &mut self,
        obj: ExId,
        path: Path,
        key: Prop,
        tagged_value: (Value, ExId),
        conflict: bool,
    );

    /// A counter has been incremented.
    ///
    /// - `obj`: the object that contains the counter.
    /// - `key`: they key that the chounter is at.
    /// - `tagged_value`: the amount the counter has been incremented by, and the the id of the
    /// increment operation.
    fn increment(&mut self, obj: ExId, path: Path, key: Prop, tagged_value: (i64, ExId));

    /// A value has beeen deleted.
    ///
    /// - `obj`: the object that has been deleted in.
    /// - `key`: the key of the value that has been deleted.
    fn delete(&mut self, obj: ExId, path: Path, key: Prop);
}

/// The observer that ignores everything.
impl OpObserver for () {
    fn insert(&mut self, _obj: ExId, _path: Path, _index: usize, _tagged_value: (Value, ExId)) {
    }

    fn put(
        &mut self,
        _obj: ExId,
        _path: Path,
        _key: Prop,
        _tagged_value: (Value, ExId),
        _conflict: bool,
    ) {
    }

    fn increment(&mut self, _obj: ExId, _path: Path, _key: Prop, _tagged_value: (i64, ExId)) {
    }

    fn delete(&mut self, _obj: ExId, _path: Path, _key: Prop) {
    }
}

/// A notification to the application that something has changed in a document.
#[derive(Debug, PartialEq)]
pub enum Patch {
    /// Associating a new value with a key in a map, or an existing list element
    Put {
        /// The object that was put into.
        obj: ExId,
        /// The path to the object, from the root down.
        path: Vec<Prop>,
        /// The key that the new value was put at.
        key: Prop,
        /// The value that was put, and the id of the operation that put it there.
        value: (Value, ExId),
        /// Whether this put conflicts with another.
        conflict: bool,
    },
    /// Inserting a new element into a list/text
    Insert {
        /// The object that was inserted into.
        obj: ExId,
        /// The path to the object, from the root down.
        path: Vec<Prop>,
        /// The index that the new value was inserted at.
        index: usize,
        /// The value that was inserted, and the id of the operation that inserted it there.
        value: (Value, ExId),
    },
    /// Incrementing a counter.
    Increment {
        /// The object that was incremented in.
        obj: ExId,
        /// The path to the object, from the root down.
        path: Vec<Prop>,
        /// The key that was incremented.
        key: Prop,
        /// The amount that the counter was incremented by, and the id of the operation that
        /// did the increment.
        value: (i64, ExId),
    },
    /// Deleting an element from a list/text
    Delete {
        /// The object that was deleted from.
        obj: ExId,
        /// The path to the object, from the root down.
        path: Vec<Prop>,
        /// The key that was deleted.
        key: Prop,
    },
}

impl Clone for Patch {
    fn clone(&self) -> (r: Patch) {
        match self {
            Patch::Put { obj, path, key, value, conflict } => Patch::Put {
                obj: obj.clone(),
                path: path.clone(),
                key: key.clone(),
                value: (value.0.clone(), value.1.clone()),
                conflict: *conflict,
            },
            Patch::Insert { obj, path, index, value } => Patch::Insert {
                obj: obj.clone(),
                path: path.clone(),
                index: *index,
                value: (value.0.clone(), value.1.clone()),
            },
            Patch::Increment { obj, path, key, value } => Patch::Increment {
                obj: obj.clone(),
                path: path.clone(),
                key: key.clone(),
                value: (value.0, value.1.clone()),
            },
            Patch::Delete { obj, path, key } => Patch::Delete {
                obj: obj.clone(),
                path: path.clone(),
                key: key.clone(),
            },
        }
    }
}

/// Whether `p` records an insert of `tagged_value` at `index` into `obj`,
/// reached by `path` from the root down.
pub open spec fn is_insert_patch(
    p: Patch,
    obj: ExId,
    path: Seq<Prop>,
    index: usize,
    tagged_value: (Value, ExId),
) -> bool {
    p matches Patch::Insert { obj: o, path: pp, index: i, value: v } && o == obj && pp@ == path
        && i == index && v == tagged_value
}

/// Whether `p` records a put of `tagged_value` at `key` into `obj`, reached by
/// `path` from the root down, with the conflict flag `conflict`.
pub open spec fn is_put_patch(
    p: Patch,
    obj: ExId,
    path: Seq<Prop>,
    key: Prop,
    tagged_value: (Value, ExId),
    conflict: bool,
) -> bool {
    p matches Patch::Put { obj: o, path: pp, key: k, value: v, conflict: c } && o == obj && pp@
        == path && k == key && v == tagged_value && c == conflict
}

/// Whether `p` records an increment by `tagged_value` of the counter at `key`
/// in `obj`, reached by `path` from the root down.
pub open spec fn is_increment_patch(
    p: Patch,
    obj: ExId,
    path: Seq<Prop>,
    key: Prop,
    tagged_value: (i64, ExId),
) -> bool {
    p matches Patch::Increment { obj: o, path: pp, key: k, value: v } && o == obj && pp@ == path
        && k == key && v == tagged_value
}

/// Whether `p` records a delete at `key` in `obj`, reached by `path` from the
/// root down.
pub open spec fn is_delete_patch(p: Patch, obj: ExId, path: Seq<Prop>, key: Prop) -> bool {
    p matches Patch::Delete { obj: o, path: pp, key: k } && o == obj && pp@ == path && k == key
}

/// Capture operations into a [`Vec`] and store them as patches.
#[derive(Debug, Clone)]
pub struct VecOpObserver {
    patches: Vec<Patch>,
}

impl View for VecOpObserver {
    type V = Seq<Patch>;

    closed spec fn view(&self) -> Seq<Patch> {
        self.patches@
    }
}

impl Default for VecOpObserver {
    fn default() -> (r: VecOpObserver)
        ensures
            r@ == Seq::<Patch>::empty(),
    {
        VecOpObserver { patches: Vec::new() }
    }
}

impl VecOpObserver {
    /// Take the current list of patches, leaving the internal list empty and ready for new
    /// patches.
    pub fn take_patches(&mut self) -> (r: Vec<Patch>)
        ensures
            r@ == old(self)@,
            final(self)@ == Seq::<Patch>::empty(),
    {
        let mut taken: Vec<Patch> = Vec::new();
        std::mem::swap(&mut taken, &mut self.patches);
        taken
    }
}

impl OpObserver for VecOpObserver {
    fn insert(&mut self, obj_id: ExId, path: Path, index: usize, tagged_value: (Value, ExId))
        ensures
            final(self)@.len() == old(self)@.len() + 1,
            final(self)@.drop_last() == old(self)@,
            is_insert_patch(final(self)@.last(), obj_id, path@.reverse(), index, tagged_value),
    {
        let (value, id) = tagged_value;
        let path = root_first(path);
        self.patches.push(Patch::Insert { obj: obj_id, path, index, value: (value, id) });
        assert(self.patches@.drop_last() =~= old(self).patches@);
    }

    fn put(
        &mut self,
        obj: ExId,
        path: Path,
        key: Prop,
        tagged_value: (Value, ExId),
        conflict: bool,
    )
        ensures
            final(self)@.len() == old(self)@.len() + 1,
            final(self)@.drop_last() == old(self)@,
            is_put_patch(final(self)@.last(), obj, path@.reverse(), key, tagged_value, conflict),
    {
        let (value, id) = tagged_value;
        let path = root_first(path);
        self.patches.push(Patch::Put { obj, path, key, value: (value, id), conflict });
        assert(self.patches@.drop_last() =~= old(self).patches@);
    }

    fn increment(&mut self, obj: ExId, path: Path, key: Prop, tagged_value: (i64, ExId))
        ensures
            final(self)@.len() == old(self)@.len() + 1,
            final(self)@.drop_last() == old(self)@,
            is_increment_patch(final(self)@.last(), obj, path@.reverse(), key, tagged_value),
    {
        let path = root_first(path);
        self.patches.push(Patch::Increment { obj, path, key, value: tagged_value });
        assert(self.patches@.drop_last() =~= old(self).patches@);
    }

    fn delete(&mut self, obj: ExId, path: Path, key: Prop)
        ensures
            final(self)@.len() == old(self)@.len() + 1,
            final(self)@.drop_last() == old(self)@,
            is_delete_patch(final(self)@.last(), obj, path@.reverse(), key),
    {
        let path = root_first(path);
        self.patches.push(Patch::Delete { obj, path, key });
        assert(self.patches@.drop_last() =~= old(self).patches@);
    }
}

/// The path a patch records runs the other way from the path the observer
/// was handed: it starts with the property nearest the root, ends with the
/// property of the object itself, and read backwards it is the handed path.
pub proof fn lemma_patch_path_root_first(path: Seq<Prop>)
    ensures
        path.reverse().len() == path.len(),
        forall|i: int| 0 <= i < path.len() ==> #[trigger] path.reverse()[i] == path[path.len() - 1 - i],
        path.len() > 0 ==> path.reverse()[0] == path.last() && path.reverse().last() == path[0],
        path.reverse().reverse() == path,
{
    assert(path.reverse().reverse() =~= path);
}

/// A recorded put carries exactly what the observer was handed: the object,
/// the path from the root down, the key, the value with its operation id, and
/// the conflict flag; so two puts recorded with different conflict flags are
/// different patches.
pub proof fn lemma_put_patch_fields(
    p: Patch,
    q: Patch,
    obj: ExId,
    path: Seq<Prop>,
    key: Prop,
    tagged_value: (Value, ExId),
    conflict: bool,
    other_conflict: bool,
)
    ensures
        is_put_patch(p, obj, path, key, tagged_value, conflict) ==> (p matches Patch::Put {
            obj: o,
            path: pp,
            key: k,
            value: v,
            conflict: c,
        } && o == obj && pp@ == path && k == key && v == tagged_value && c == conflict),
        is_put_patch(p, obj, path, key, tagged_value, conflict) && is_put_patch(
            q,
            obj,
            path,
            key,
            tagged_value,
            other_conflict,
        ) && conflict != other_conflict ==> p != q,
{
}

/// A recorded insert carries exactly the object, the path from the root
/// down, the index and the value with its operation id that the observer was
/// handed.
pub proof fn lemma_insert_patch_fields(
    p: Patch,
    obj: ExId,
    path: Seq<Prop>,
    index: usize,
    tagged_value: (Value, ExId),
)
    ensures
        is_insert_patch(p, obj, path, index, tagged_value) ==> (p matches Patch::Insert {
            obj: o,
            path: pp,
            index: i,
            value: v,
        } && o == obj && pp@ == path && i == index && v == tagged_value),
{
}

/// A recorded increment carries exactly the object, the path from the root
/// down, the key and the amount with its operation id that the observer was
/// handed.
pub proof fn lemma_increment_patch_fields(
    p: Patch,
    obj: ExId,
    path: Seq<Prop>,
    key: Prop,
    tagged_value: (i64, ExId),
)
    ensures
        is_increment_patch(p, obj, path, key, tagged_value) ==> (p matches Patch::Increment {
            obj: o,
            path: pp,
            key: k,
            value: v,
        } && o == obj && pp@ == path && k == key && v == tagged_value),
{
}

/// A recorded delete carries exactly the object, the path from the root down
/// and the key that the observer was handed.
pub proof fn lemma_delete_patch_fields(p: Patch, obj: ExId, path: Seq<Prop>, key: Prop)
    ensures
        is_delete_patch(p, obj, path, key) ==> (p matches Patch::Delete { obj: o, path: pp, key: k }
            && o == obj && pp@ == path && k == key),
{
}

} // verus!
