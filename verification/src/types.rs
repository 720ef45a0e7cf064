//! The data that the document model is built from: object types, operation
//! ids, keys, values and operations, together with the rules that say when an
//! operation is visible.

use std::collections::HashMap;
use vstd::prelude::*;

verus! {

broadcast use vstd::std_specs::hash::group_hash_axioms;

/// The type of an object in a document.
#[derive(Debug, Clone, Copy, PartialEq, Eq, Hash, Structural)]
pub enum ObjType {
    /// A map from string keys to values.
    MapObj,
    /// A map from string keys to values, used as a table.
    Table,
    /// A list of values.
    List,
    /// A sequence of characters.
    Text,
}

/// The id of an operation: its counter and the index of the actor that made it.
#[derive(Debug, Clone, Copy, PartialEq, Eq, Hash, Structural)]
pub struct OpId(pub u64, pub usize);

/// The id of an object: the id of the operation that created it.
#[derive(Debug, Clone, Copy, PartialEq, Eq, Hash, Structural)]
pub struct ObjId(pub OpId);

impl ObjId {
    /// The id of the root object.
    pub fn root() -> (r: ObjId)
        ensures
            r == ObjId(OpId(0, 0)),
    {
        ObjId(OpId(0, 0))
    }
}

/// The id of an element in a sequence: the id of the operation that inserted it.
#[derive(Debug, Clone, Copy, PartialEq, Eq, Hash, Structural)]
pub struct ElemId(pub OpId);

/// Where an operation applies inside its object: a map key, by its index in
/// the property table, or a sequence element.
#[derive(Debug, Clone, Copy, PartialEq, Eq, Hash, Structural)]
pub enum Key {
    MapKey(usize),
    SeqElem(ElemId),
}

/// A counter together with the number of increments applied to it.
#[derive(Debug, Clone, Copy, PartialEq, Eq, Hash, Structural)]
pub struct Counter {
    pub start: i64,
    pub current: i64,
    pub increments: usize,
}

/// A primitive value.
#[derive(Debug, Clone, PartialEq)]
pub enum ScalarValue {
    Bytes(Vec<u8>),
    Str(String),
    Int(i64),
    Uint(u64),
    Counter(Counter),
    Timestamp(i64),
    Boolean(bool),
    Unknown { type_code: u8, bytes: Vec<u8> },
    Null,
}

/// A value in a document: an object of some type, or a primitive value.
#[derive(Debug, Clone, PartialEq)]
pub enum Value {
    Object(ObjType),
    Scalar(ScalarValue),
}

/// What an operation does.
#[derive(Debug, Clone, PartialEq)]
pub enum OpType {
    Make(ObjType),
    Delete,
    Increment(i64),
    Put(ScalarValue),
}

/// An operation stored in an object.
#[derive(Debug, Clone, PartialEq)]
pub struct Op {
    pub id: OpId,
    pub action: OpType,
    pub key: Key,
    /// The operations that overwrote this one.
    pub succ: Vec<OpId>,
    /// The operations that this one overwrote.
    pub pred: Vec<OpId>,
    /// Whether this operation inserted a new sequence element.
    pub insert: bool,
}

/// The key an operation stands at: the element it created, if it inserted
/// one, and its key otherwise.
pub open spec fn spec_elemid_or_key(op: Op) -> Key {
    if op.insert {
        Key::SeqElem(ElemId(op.id))
    } else {
        op.key
    }
}

/// The number of increments recorded in a counter that an operation puts.
pub open spec fn spec_incs(op: Op) -> nat {
    match op.action {
        OpType::Put(ScalarValue::Counter(c)) => c.increments as nat,
        _ => 0,
    }
}

/// Whether an operation is an increment.
pub open spec fn spec_is_inc(op: Op) -> bool {
    op.action is Increment
}

/// Whether an operation puts a counter.
pub open spec fn spec_is_counter(op: Op) -> bool {
    op.action matches OpType::Put(ScalarValue::Counter(_))
}

/// Whether an operation is visible in the current state: increments never
/// are; a counter stays visible as long as all its successors are its
/// increments; any other operation is visible while nothing overwrote it.
pub open spec fn spec_visible(op: Op) -> bool {
    if spec_is_inc(op) {
        false
    } else if spec_is_counter(op) {
        op.succ@.len() <= spec_incs(op)
    } else {
        op.succ@.len() == 0
    }
}

impl Op {
    /// Whether this operation is an increment.
    pub fn is_inc(&self) -> (r: bool)
        ensures
            r == spec_is_inc(*self),
    {
        match self.action {
            OpType::Increment(_) => true,
            _ => false,
        }
    }

    /// Whether this operation puts a counter.
    pub fn is_counter(&self) -> (r: bool)
        ensures
            r == spec_is_counter(*self),
    {
        match &self.action {
            OpType::Put(ScalarValue::Counter(_)) => true,
            _ => false,
        }
    }

    /// The number of increments recorded in the counter this operation puts
    /// (zero for any other operation).
    pub fn incs(&self) -> (r: usize)
        ensures
            r == spec_incs(*self),
    {
        match &self.action {
            OpType::Put(ScalarValue::Counter(c)) => c.increments,
            _ => 0,
        }
    }

    /// Whether this operation is visible in the current state.
    pub fn visible(&self) -> (r: bool)
        ensures
            r == spec_visible(*self),
    {
        if self.is_inc() {
            false
        } else if self.is_counter() {
            self.succ.len() <= self.incs()
        } else {
            self.succ.len() == 0
        }
    }

    /// The key this operation stands at.
    pub fn elemid_or_key(&self) -> (r: Key)
        ensures
            r == spec_elemid_or_key(*self),
    {
        if self.insert {
            Key::SeqElem(ElemId(self.id))
        } else {
            self.key
        }
    }
}

/// What a clock knows of one actor.
#[derive(Debug, Clone, Copy, PartialEq, Eq, Structural)]
pub struct ClockData {
    /// The largest operation counter of the actor that the clock covers.
    pub max_op: u64,
    /// The largest change sequence number of the actor that the clock covers.
    pub seq: u64,
}

/// A point in the history of a document: for each actor, how far it goes.
#[derive(Debug, Clone)]
pub struct Clock(pub HashMap<usize, ClockData>);

impl View for Clock {
    type V = Map<usize, ClockData>;

    open spec fn view(&self) -> Map<usize, ClockData> {
        self.0@
    }
}

/// Whether a clock covers an operation: it knows the operation's actor, up
/// to at least the operation's counter.
pub open spec fn spec_covers(clock: Map<usize, ClockData>, id: OpId) -> bool {
    clock.contains_key(id.1) && clock[id.1].max_op >= id.0
}

impl Clock {
    /// The clock that covers nothing.
    pub fn new() -> (r: Clock)
        ensures
            r@ == Map::<usize, ClockData>::empty(),
    {
        Clock(HashMap::new())
    }

    /// Records what is known of an actor, keeping the entry with the larger
    /// operation counter where the clock already knows the actor.
    pub fn record(&mut self, actor: usize, data: ClockData)
        ensures
            final(self)@ == if old(self)@.contains_key(actor) && old(self)@[actor].max_op
                >= data.max_op {
                old(self)@
            } else {
                old(self)@.insert(actor, data)
            },
    {
        let keep = match self.0.get(&actor) {
            Some(d) => d.max_op >= data.max_op,
            None => false,
        };
        if !keep {
            self.0.insert(actor, data);
        }
    }

    /// Whether this clock covers the operation `id`.
    pub fn covers(&self, id: &OpId) -> (r: bool)
        ensures
            r == spec_covers(self@, *id),
    {
        match self.0.get(&id.1) {
            Some(d) => d.max_op >= id.0,
            None => false,
        }
    }

    /// Whether this clock covers any of the operations in `ids`.
    pub fn covers_any(&self, ids: &Vec<OpId>) -> (r: bool)
        ensures
            r == exists|i: int| 0 <= i < ids@.len() && spec_covers(self@, #[trigger] ids@[i]),
    {
        let mut i: usize = 0;
        while i < ids.len()
            invariant
                i <= ids@.len(),
                forall|j: int| 0 <= j < i ==> !spec_covers(self@, #[trigger] ids@[j]),
            decreases ids@.len() - i,
        {
            if self.covers(&ids[i]) {
                return true;
            }
            i = i + 1;
        }
        false
    }
}

/// Whether an operation is visible at a point in history: the clock covers
/// it, it is no increment, and the clock covers none of its successors.
pub open spec fn spec_visible_at(op: Op, clock: Map<usize, ClockData>) -> bool {
    &&& spec_covers(clock, op.id)
    &&& !spec_is_inc(op)
    &&& forall|i: int| 0 <= i < op.succ@.len() ==> !spec_covers(clock, #[trigger] op.succ@[i])
}

impl Op {
    /// Whether this operation is visible at the point in history `clock`.
    pub fn visible_at(&self, clock: &Clock) -> (r: bool)
        ensures
            r == spec_visible_at(*self, clock@),
    {
        clock.covers(&self.id) && !self.is_inc() && !clock.covers_any(&self.succ)
    }
}

/// The caches of a document that operations refer to by index: the actors and
/// the property names.
#[derive(Debug, Clone)]
pub struct OpSetMetadata {
    pub actors: Vec<ActorId>,
    pub props: Vec<String>,
}

/// The id of an actor: the bytes that name it.
#[derive(Debug, Clone, PartialEq, Eq, Hash)]
pub struct ActorId(pub Vec<u8>);

/// The id of an object or operation as the application sees it.
#[derive(Debug, Clone, PartialEq, Eq, Hash)]
pub enum ExId {
    Root,
    Id(u64, ActorId, usize),
}

/// A property of an object: a key of a map, or an index of a sequence.
#[derive(Debug, Clone, PartialEq, Eq, Hash)]
pub enum Prop {
    MapKey(String),
    SeqIndex(usize),
}

/// When an operation is visible, by what it does and what overwrote it: an
/// increment never is; a counter put is while it has no more successors than
/// recorded increments; any other operation is while nothing overwrote it.
pub proof fn lemma_visible_rule(op: Op)
    ensures
        (op.action is Increment) ==> !spec_visible(op),
        forall|c: Counter|
            op.action == OpType::Put(ScalarValue::Counter(c)) ==> (spec_visible(op) <==> op.succ@.len()
                <= c.increments),
        !(op.action is Increment) && !(op.action matches OpType::Put(ScalarValue::Counter(_)))
            ==> (spec_visible(op) <==> op.succ@.len() == 0),
{
}

/// When an operation is visible at a point in history: exactly when the clock
/// knows its actor up to at least its counter, it is no increment, and for no
/// successor does the clock know the successor's actor up to its counter.
pub proof fn lemma_visible_at_rule(op: Op, clock: Map<usize, ClockData>)
    ensures
        spec_visible_at(op, clock) <==> {
            &&& clock.contains_key(op.id.1)
            &&& clock[op.id.1].max_op >= op.id.0
            &&& !(op.action is Increment)
            &&& forall|i: int|
                0 <= i < op.succ@.len() ==> !(clock.contains_key(#[trigger] op.succ@[i].1)
                    && clock[op.succ@[i].1].max_op >= op.succ@[i].0)
        },
{
}

} // verus!
