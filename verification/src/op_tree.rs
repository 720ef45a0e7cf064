//! The operations of one object, in document order, and the ways of reading
//! them: by position, by key and by a query that walks over them.

use crate::types::{
    lemma_visible_at_rule, lemma_visible_rule, spec_elemid_or_key, spec_visible, spec_visible_at,
    Clock, ClockData, Counter, ElemId, Key, Op, OpId, OpSetMetadata, OpType, ScalarValue,
};
use vstd::prelude::*;

verus! {

/// The keys of the visible operations in `ops`, in order, where a key that
/// repeats the one before it is given once.
pub open spec fn spec_keys(ops: Seq<Op>) -> Seq<Key>
    decreases ops.len(),
{
    if ops.len() == 0 {
        Seq::empty()
    } else {
        let prev = spec_keys(ops.drop_last());
        let op = ops.last();
        let k = spec_elemid_or_key(op);
        if spec_visible(op) && (prev.len() == 0 || prev.last() != k) {
            prev.push(k)
        } else {
            prev
        }
    }
}

/// The keys of the operations in `ops` that are visible at the point in
/// history `clock`, in order, where a key that repeats the one before it is
/// given once.
pub open spec fn spec_keys_at(ops: Seq<Op>, clock: Map<usize, ClockData>) -> Seq<Key>
    decreases ops.len(),
{
    if ops.len() == 0 {
        Seq::empty()
    } else {
        let prev = spec_keys_at(ops.drop_last(), clock);
        let op = ops.last();
        let k = spec_elemid_or_key(op);
        if spec_visible_at(op, clock) && (prev.len() == 0 || prev.last() != k) {
            prev.push(k)
        } else {
            prev
        }
    }
}

/// What a query tells the walk after it has seen an operation.
#[derive(Debug, Clone, Copy, PartialEq, Eq, Structural)]
pub enum QueryResult {
    /// Go on with the next operation.
    Next,
    /// Stop here.
    Finish,
}

/// A query that walks over the operations of an object in order.
pub trait TreeQuery: Sized {
    /// The query after it has seen `op`, and what it tells the walk.
    spec fn spec_step(self, op: Op, m: OpSetMetadata) -> (Self, QueryResult);

    /// Shows the query one operation.
    fn query_element_with_metadata(&mut self, op: &Op, m: &OpSetMetadata) -> (r: QueryResult)
        ensures
            (*final(self), r) == old(self).spec_step(*op, *m),
    ;
}

/// The query `q` after a walk over `ops` that stops at the first operation
/// after which the query says `Finish`.
pub open spec fn spec_search<Q: TreeQuery>(q: Q, ops: Seq<Op>, m: OpSetMetadata) -> Q
    decreases ops.len(),
{
    if ops.len() == 0 {
        q
    } else {
        let (next, r) = q.spec_step(ops[0], m);
        if r is Finish {
            next
        } else {
            spec_search(next, ops.drop_first(), m)
        }
    }
}

/// A query for the first visible operation at a key.
#[derive(Debug, Clone, Copy, PartialEq, Eq, Structural)]
pub struct FirstVisible {
    pub key: Key,
    pub found: Option<OpId>,
}

impl FirstVisible {
    /// A query for `key` that has found nothing yet.
    pub fn new(key: Key) -> (r: FirstVisible)
        ensures
            r == (FirstVisible { key, found: None }),
    {
        FirstVisible { key, found: None }
    }
}

impl TreeQuery for FirstVisible {
    open spec fn spec_step(self, op: Op, m: OpSetMetadata) -> (Self, QueryResult) {
        if spec_visible(op) && spec_elemid_or_key(op) == self.key {
            (FirstVisible { key: self.key, found: Some(op.id) }, QueryResult::Finish)
        } else {
            (self, QueryResult::Next)
        }
    }

    fn query_element_with_metadata(&mut self, op: &Op, m: &OpSetMetadata) -> (r: QueryResult) {
        if op.visible() && op.elemid_or_key() == self.key {
            self.found = Some(op.id);
            QueryResult::Finish
        } else {
            QueryResult::Next
        }
    }
}

/// The operations of one object, in document order.
#[derive(Debug, Clone, PartialEq)]
pub struct OpTreeInternal {
    ops: Vec<Op>,
}

impl View for OpTreeInternal {
    type V = Seq<Op>;

    closed spec fn view(&self) -> Seq<Op> {
        self.ops@
    }
}

impl OpTreeInternal {
    /// An empty sequence of operations.
    pub fn new() -> (r: OpTreeInternal)
        ensures
            r@ == Seq::<Op>::empty(),
    {
        OpTreeInternal { ops: Vec::new() }
    }

    /// The number of operations.
    pub fn len(&self) -> (r: usize)
        ensures
            r == self@.len(),
    {
        self.ops.len()
    }

    /// The operation at `index`, if there is one.
    pub fn get(&self, index: usize) -> (r: Option<&Op>)
        ensures
            index < self@.len() ==> r == Some(&self@[index as int]),
            index >= self@.len() ==> r is None,
    {
        if index < self.ops.len() {
            Some(&self.ops[index])
        } else {
            None
        }
    }

    /// Inserts `op` at `index`, moving the operations from there on one place
    /// up.
    pub fn insert(&mut self, index: usize, op: Op)
        requires
            index <= old(self)@.len(),
        ensures
            final(self)@ == old(self)@.insert(index as int, op),
    {
        self.ops.insert(index, op);
    }

    /// Removes the operation at `index` and returns it.
    pub fn remove(&mut self, index: usize) -> (r: Op)
        requires
            index < old(self)@.len(),
        ensures
            r == old(self)@[index as int],
            final(self)@ == old(self)@.remove(index as int),
    {
        self.ops.remove(index)
    }

    /// Lets `f` change the operation at `index` in place; does nothing where
    /// there is no operation at `index`.
    pub fn replace<F: FnMut(&mut Op)>(&mut self, index: usize, f: F)
        requires
            index < old(self)@.len() ==> forall|o: &mut Op|
                *o == old(self)@[index as int] ==> #[trigger] f.requires((o,)),
        ensures
            final(self)@.len() == old(self)@.len(),
            forall|j: int|
                0 <= j < old(self)@.len() && j != index ==> #[trigger] final(self)@[j]
                    == old(self)@[j],
            index < old(self)@.len() ==> exists|o: &mut Op|
                *o == old(self)@[index as int] && *final(o) == final(self)@[index as int]
                    && #[trigger] f.ensures((o,), ()),
            index >= old(self)@.len() ==> final(self)@ == old(self)@,
    {
        if index < self.ops.len() {
            let mut f = f;
            let op = &mut self.ops[index];
            f(op);
        }
    }

    /// The keys of the visible operations, in order and given once where
    /// they repeat; nothing where there are no operations.
    pub fn keys(&self) -> (r: Option<Vec<Key>>)
        ensures
            self@.len() == 0 ==> r is None,
            self@.len() > 0 ==> (r matches Some(v) && v@ == spec_keys(self@)),
    {
        if self.ops.len() == 0 {
            return None;
        }
        let mut res: Vec<Key> = Vec::new();
        let mut i: usize = 0;
        while i < self.ops.len()
            invariant
                i <= self.ops@.len(),
                res@ == spec_keys(self.ops@.take(i as int)),
            decreases self.ops@.len() - i,
        {
            let op = &self.ops[i];
            assert(self.ops@.take(i + 1).drop_last() =~= self.ops@.take(i as int));
            if op.visible() {
                let k = op.elemid_or_key();
                if res.len() == 0 || res[res.len() - 1] != k {
                    res.push(k);
                }
            }
            i = i + 1;
        }
        assert(self.ops@.take(self.ops@.len() as int) =~= self.ops@);
        Some(res)
    }

    /// The keys of the operations visible at the point in history `clock`, in
    /// order and given once where they repeat; nothing where there are no
    /// operations.
    pub fn keys_at(&self, clock: Clock) -> (r: Option<Vec<Key>>)
        ensures
            self@.len() == 0 ==> r is None,
            self@.len() > 0 ==> (r matches Some(v) && v@ == spec_keys_at(self@, clock@)),
    {
        if self.ops.len() == 0 {
            return None;
        }
        let mut res: Vec<Key> = Vec::new();
        let mut i: usize = 0;
        while i < self.ops.len()
            invariant
                i <= self.ops@.len(),
                res@ == spec_keys_at(self.ops@.take(i as int), clock@),
            decreases self.ops@.len() - i,
        {
            let op = &self.ops[i];
            assert(self.ops@.take(i + 1).drop_last() =~= self.ops@.take(i as int));
            if op.visible_at(&clock) {
                let k = op.elemid_or_key();
                if res.len() == 0 || res[res.len() - 1] != k {
                    res.push(k);
                }
            }
            i = i + 1;
        }
        assert(self.ops@.take(self.ops@.len() as int) =~= self.ops@);
        Some(res)
    }

    /// Walks over the operations in order, showing each to `query`, until the
    /// query says `Finish` or the operations run out; returns the query.
    pub fn search<Q: TreeQuery>(&self, query: Q, m: &OpSetMetadata) -> (r: Q)
        ensures
            r == spec_search(query, self@, *m),
    {
        let mut q = query;
        let mut i: usize = 0;
        assert(self.ops@.skip(0) =~= self.ops@);
        while i < self.ops.len()
            invariant
                i <= self.ops@.len(),
                spec_search(q, self.ops@.skip(i as int), *m) == spec_search(query, self.ops@, *m),
            decreases self.ops@.len() - i,
        {
            assert(self.ops@.skip(i as int).drop_first() =~= self.ops@.skip(i + 1));
            let r = q.query_element_with_metadata(&self.ops[i], m);
            match r {
                QueryResult::Finish => {
                    return q;
                },
                QueryResult::Next => {},
            }
            i = i + 1;
        }
        q
    }
}


/// Taking one more operation into account keeps the keys found so far, and
/// adds at most the key of that operation, where it is visible.
proof fn lemma_keys_extend(ops: Seq<Op>)
    requires
        ops.len() > 0,
    ensures
        spec_keys(ops.drop_last()).is_prefix_of(spec_keys(ops)),
        spec_keys(ops).len() <= spec_keys(ops.drop_last()).len() + 1,
        spec_visible(ops.last()) ==> spec_keys(ops).len() > 0 && spec_keys(ops).last()
            == spec_elemid_or_key(ops.last()),
        spec_keys(ops).len() == spec_keys(ops.drop_last()).len() + 1 ==> spec_visible(ops.last())
            && spec_keys(ops).last() == spec_elemid_or_key(ops.last()),
{
}

/// The keys of an object never give the same key twice in a row.
pub proof fn lemma_keys_no_adjacent_repeats(ops: Seq<Op>)
    ensures
        forall|i: int|
            0 <= i < spec_keys(ops).len() - 1 ==> #[trigger] spec_keys(ops)[i] != spec_keys(ops)[i
                + 1],
    decreases ops.len(),
{
    if ops.len() > 0 {
        lemma_keys_no_adjacent_repeats(ops.drop_last());
        lemma_keys_extend(ops);
    }
}

/// Every key the keys of an object give is the key of one of its visible
/// operations, and the key of each visible operation is among them.
pub proof fn lemma_keys_are_visible_keys(ops: Seq<Op>)
    ensures
        forall|i: int|
            0 <= i < spec_keys(ops).len() ==> exists|j: int|
                0 <= j < ops.len() && spec_visible(ops[j]) && #[trigger] spec_keys(ops)[i]
                    == spec_elemid_or_key(ops[j]),
        forall|j: int|
            0 <= j < ops.len() && spec_visible(ops[j]) ==> spec_keys(ops).contains(
                #[trigger] spec_elemid_or_key(ops[j]),
            ),
    decreases ops.len(),
{
    if ops.len() > 0 {
        let prev = ops.drop_last();
        lemma_keys_are_visible_keys(prev);
        lemma_keys_extend(ops);
        let ks = spec_keys(ops);
        let pk = spec_keys(prev);
        assert forall|i: int| 0 <= i < ks.len() implies exists|j: int|
            0 <= j < ops.len() && spec_visible(ops[j]) && #[trigger] ks[i] == spec_elemid_or_key(
                ops[j],
            ) by {
            if i < pk.len() {
                assert(ks[i] == pk[i]);
                let j = choose|j: int|
                    0 <= j < prev.len() && spec_visible(prev[j]) && pk[i] == spec_elemid_or_key(
                        prev[j],
                    );
                assert(prev[j] == ops[j]);
            } else {
                assert(spec_visible(ops[ops.len() - 1]));
            }
        }
        assert forall|j: int| 0 <= j < ops.len() && spec_visible(ops[j]) implies ks.contains(
            #[trigger] spec_elemid_or_key(ops[j]),
        ) by {
            if j < ops.len() - 1 {
                assert(prev[j] == ops[j]);
                let k = choose|k: int| 0 <= k < pk.len() && pk[k] == spec_elemid_or_key(prev[j]);
                assert(ks[k] == pk[k]);
            } else {
                assert(ks[ks.len() - 1] == spec_elemid_or_key(ops[j]));
            }
        }
    }
}

/// Taking one more operation into account keeps the keys at a clock found so
/// far, and adds at most the key of that operation, where it is visible at
/// the clock.
proof fn lemma_keys_at_extend(ops: Seq<Op>, clock: Map<usize, ClockData>)
    requires
        ops.len() > 0,
    ensures
        spec_keys_at(ops.drop_last(), clock).is_prefix_of(spec_keys_at(ops, clock)),
        spec_keys_at(ops, clock).len() <= spec_keys_at(ops.drop_last(), clock).len() + 1,
        spec_visible_at(ops.last(), clock) ==> spec_keys_at(ops, clock).len() > 0 && spec_keys_at(ops, clock).last()
            == spec_elemid_or_key(ops.last()),
        spec_keys_at(ops, clock).len() == spec_keys_at(ops.drop_last(), clock).len() + 1 ==> spec_visible_at(ops.last(), clock)
            && spec_keys_at(ops, clock).last() == spec_elemid_or_key(ops.last()),
{
}

/// The keys of an object at a point in history never give the same key twice
/// in a row.
pub proof fn lemma_keys_at_no_adjacent_repeats(ops: Seq<Op>, clock: Map<usize, ClockData>)
    ensures
        forall|i: int|
            0 <= i < spec_keys_at(ops, clock).len() - 1 ==> #[trigger] spec_keys_at(ops, clock)[i] != spec_keys_at(ops, clock)[i
                + 1],
    decreases ops.len(),
{
    if ops.len() > 0 {
        lemma_keys_at_no_adjacent_repeats(ops.drop_last(), clock);
        lemma_keys_at_extend(ops, clock);
    }
}

/// Every key the keys of an object at a point in history give is the key of
/// one of its operations visible there, and the key of each such operation is
/// among them.
pub proof fn lemma_keys_at_are_visible_keys(ops: Seq<Op>, clock: Map<usize, ClockData>)
    ensures
        forall|i: int|
            0 <= i < spec_keys_at(ops, clock).len() ==> exists|j: int|
                0 <= j < ops.len() && spec_visible_at(ops[j], clock) && #[trigger] spec_keys_at(ops, clock)[i]
                    == spec_elemid_or_key(ops[j]),
        forall|j: int|
            0 <= j < ops.len() && spec_visible_at(ops[j], clock) ==> spec_keys_at(ops, clock).contains(
                #[trigger] spec_elemid_or_key(ops[j]),
            ),
    decreases ops.len(),
{
    if ops.len() > 0 {
        let prev = ops.drop_last();
        lemma_keys_at_are_visible_keys(prev, clock);
        lemma_keys_at_extend(ops, clock);
        let ks = spec_keys_at(ops, clock);
        let pk = spec_keys_at(prev, clock);
        assert forall|i: int| 0 <= i < ks.len() implies exists|j: int|
            0 <= j < ops.len() && spec_visible_at(ops[j], clock) && #[trigger] ks[i] == spec_elemid_or_key(
                ops[j],
            ) by {
            if i < pk.len() {
                assert(ks[i] == pk[i]);
                let j = choose|j: int|
                    0 <= j < prev.len() && spec_visible_at(prev[j], clock) && pk[i] == spec_elemid_or_key(
                        prev[j],
                    );
                assert(prev[j] == ops[j]);
            } else {
                assert(spec_visible_at(ops[ops.len() - 1], clock));
            }
        }
        assert forall|j: int| 0 <= j < ops.len() && spec_visible_at(ops[j], clock) implies ks.contains(
            #[trigger] spec_elemid_or_key(ops[j]),
        ) by {
            if j < ops.len() - 1 {
                assert(prev[j] == ops[j]);
                let k = choose|k: int| 0 <= k < pk.len() && pk[k] == spec_elemid_or_key(prev[j]);
                assert(ks[k] == pk[k]);
            } else {
                assert(ks[ks.len() - 1] == spec_elemid_or_key(ops[j]));
            }
        }
    }
}

/// A search for the first visible operation at `key` finds the id of the
/// first operation that is visible and stands at `key`, and finds nothing
/// where there is no such operation.
pub proof fn lemma_first_visible_search(key: Key, ops: Seq<Op>, m: OpSetMetadata)
    ensures
        ({
            let r = spec_search(FirstVisible { key, found: None }, ops, m);
            &&& r.key == key
            &&& match r.found {
                Some(id) => exists|i: int|
                    0 <= i < ops.len() && spec_visible(ops[i]) && spec_elemid_or_key(ops[i]) == key
                        && ops[i].id == id && forall|j: int|
                        0 <= j < i ==> !(spec_visible(#[trigger] ops[j]) && spec_elemid_or_key(
                            ops[j],
                        ) == key),
                None => forall|i: int|
                    0 <= i < ops.len() ==> !(spec_visible(#[trigger] ops[i]) && spec_elemid_or_key(
                        ops[i],
                    ) == key),
            }
        }),
    decreases ops.len(),
{
    if ops.len() > 0 {
        let q = FirstVisible { key, found: None };
        let rest = ops.drop_first();
        if !(spec_visible(ops[0]) && spec_elemid_or_key(ops[0]) == key) {
            lemma_first_visible_search(key, rest, m);
            let r = spec_search(q, ops, m);
            assert(r == spec_search(q, rest, m));
            match r.found {
                Some(id) => {
                    let i = choose|i: int|
                        0 <= i < rest.len() && spec_visible(rest[i]) && spec_elemid_or_key(rest[i])
                            == key && rest[i].id == id && forall|j: int|
                            0 <= j < i ==> !(spec_visible(#[trigger] rest[j])
                                && spec_elemid_or_key(rest[j]) == key);
                    assert(ops[i + 1] == rest[i]);
                    assert forall|j: int| 0 <= j < i + 1 implies !(spec_visible(
                        #[trigger] ops[j],
                    ) && spec_elemid_or_key(ops[j]) == key) by {
                        if j > 0 {
                            assert(ops[j] == rest[j - 1]);
                        }
                    }
                },
                None => {
                    assert forall|i: int| 0 <= i < ops.len() implies !(spec_visible(
                        #[trigger] ops[i],
                    ) && spec_elemid_or_key(ops[i]) == key) by {
                        if i > 0 {
                            assert(ops[i] == rest[i - 1]);
                        }
                    }
                },
            }
        }
    }
}

/// The key an operation stands at, read from its fields.
pub open spec fn key_of(op: Op) -> Key {
    if op.insert {
        Key::SeqElem(ElemId(op.id))
    } else {
        op.key
    }
}

/// Whether an operation is overwritten for good, read from its fields: an
/// increment; a counter put with more successors than recorded increments;
/// or any other operation with a successor.
pub open spec fn overwritten(op: Op) -> bool {
    ||| op.action is Increment
    ||| exists|c: Counter|
        op.action == OpType::Put(ScalarValue::Counter(c)) && op.succ@.len() > c.increments
    ||| !(op.action matches OpType::Put(ScalarValue::Counter(_))) && op.succ@.len() > 0
}

/// The keys of an object leave out a key at which every operation is
/// overwritten for good (an increment, a counter overwritten beyond its
/// increments, or another operation with a successor), and give the key of
/// an operation that is neither an increment nor a counter and has no
/// successor.
pub proof fn lemma_keys_follow_successors(ops: Seq<Op>, k: Key)
    ensures
        (forall|j: int| 0 <= j < ops.len() && key_of(#[trigger] ops[j]) == k ==> overwritten(ops[j]))
            ==> !spec_keys(ops).contains(k),
        forall|j: int|
            0 <= j < ops.len() && key_of(#[trigger] ops[j]) == k && (ops[j].action matches OpType::Put(
                v,
            ) && !(v is Counter)) && ops[j].succ@.len() == 0 ==> spec_keys(ops).contains(k),
        forall|j: int|
            0 <= j < ops.len() && key_of(#[trigger] ops[j]) == k && (ops[j].action is Make)
                && ops[j].succ@.len() == 0 ==> spec_keys(ops).contains(k),
{
    lemma_keys_are_visible_keys(ops);
    if forall|j: int| 0 <= j < ops.len() && key_of(#[trigger] ops[j]) == k ==> overwritten(ops[j]) {
        if spec_keys(ops).contains(k) {
            let i = choose|i: int| 0 <= i < spec_keys(ops).len() && spec_keys(ops)[i] == k;
            let j = choose|j: int|
                0 <= j < ops.len() && spec_visible(ops[j]) && #[trigger] spec_keys(ops)[i]
                    == spec_elemid_or_key(ops[j]);
            lemma_visible_rule(ops[j]);
            assert(key_of(ops[j]) == k);
            assert(overwritten(ops[j]));
        }
    }
    assert forall|j: int|
        0 <= j < ops.len() && key_of(#[trigger] ops[j]) == k && (ops[j].action matches OpType::Put(
            v,
        ) && !(v is Counter)) && ops[j].succ@.len() == 0 implies spec_keys(ops).contains(k) by {
        lemma_visible_rule(ops[j]);
        assert(spec_elemid_or_key(ops[j]) == k);
    }
    assert forall|j: int|
        0 <= j < ops.len() && key_of(#[trigger] ops[j]) == k && (ops[j].action is Make)
            && ops[j].succ@.len() == 0 implies spec_keys(ops).contains(k) by {
        lemma_visible_rule(ops[j]);
        assert(spec_elemid_or_key(ops[j]) == k);
    }
}

/// Whether a clock reaches an operation id, read from the clock's entries.
pub open spec fn reaches(clock: Map<usize, ClockData>, id: OpId) -> bool {
    clock.contains_key(id.1) && clock[id.1].max_op >= id.0
}

/// The keys of an object at a point in history leave out a key at which the
/// clock reaches no operation, and give the key of an operation that the clock
/// reaches, that is no increment, and none of whose successors it reaches.
pub proof fn lemma_keys_at_follow_clock(ops: Seq<Op>, clock: Map<usize, ClockData>, k: Key)
    ensures
        (forall|j: int|
            0 <= j < ops.len() && key_of(#[trigger] ops[j]) == k ==> !reaches(clock, ops[j].id))
            ==> !spec_keys_at(ops, clock).contains(k),
        forall|j: int|
            0 <= j < ops.len() && key_of(#[trigger] ops[j]) == k && reaches(clock, ops[j].id) && !(
            ops[j].action is Increment) && (forall|i: int|
                0 <= i < ops[j].succ@.len() ==> !reaches(clock, #[trigger] ops[j].succ@[i]))
                ==> spec_keys_at(ops, clock).contains(k),
{
    lemma_keys_at_are_visible_keys(ops, clock);
    if forall|j: int|
        0 <= j < ops.len() && key_of(#[trigger] ops[j]) == k ==> !reaches(clock, ops[j].id) {
        if spec_keys_at(ops, clock).contains(k) {
            let ks = spec_keys_at(ops, clock);
            let i = choose|i: int| 0 <= i < ks.len() && ks[i] == k;
            let j = choose|j: int|
                0 <= j < ops.len() && spec_visible_at(ops[j], clock) && #[trigger] ks[i]
                    == spec_elemid_or_key(ops[j]);
            lemma_visible_at_rule(ops[j], clock);
            assert(key_of(ops[j]) == k);
        }
    }
    assert forall|j: int|
        0 <= j < ops.len() && key_of(#[trigger] ops[j]) == k && reaches(clock, ops[j].id) && !(
        ops[j].action is Increment) && (forall|i: int|
            0 <= i < ops[j].succ@.len() ==> !reaches(clock, #[trigger] ops[j].succ@[i])) implies spec_keys_at(
        ops,
        clock,
    ).contains(k) by {
        lemma_visible_at_rule(ops[j], clock);
        assert(spec_elemid_or_key(ops[j]) == k);
    }
}

/// A search shows the query every operation in order, whether visible or
/// not: the first operation goes to the query first, and unless the query
/// says `Finish` there, the walk goes on over the rest from the query it
/// left; over no operations the query comes back as it was.
pub proof fn lemma_search_shows_every_op<Q: TreeQuery>(q: Q, ops: Seq<Op>, m: OpSetMetadata)
    ensures
        ops.len() == 0 ==> spec_search(q, ops, m) == q,
        ops.len() > 0 && (q.spec_step(ops[0], m).1 is Finish) ==> spec_search(q, ops, m)
            == q.spec_step(ops[0], m).0,
        ops.len() > 0 && (q.spec_step(ops[0], m).1 is Next) ==> spec_search(q, ops, m)
            == spec_search(q.spec_step(ops[0], m).0, ops.subrange(1, ops.len() as int), m),
{
    if ops.len() > 0 {
        assert(ops.drop_first() =~= ops.subrange(1, ops.len() as int));
    }
}

/// A search walks over the operations one after the other: walking `a + b`
/// is walking `a`, and then, where the query did not say `Finish` in `a`,
/// walking `b` from where it stands.
pub proof fn lemma_search_concat<Q: TreeQuery>(q: Q, a: Seq<Op>, b: Seq<Op>, m: OpSetMetadata)
    ensures
        spec_search(q, a + b, m) == spec_search_both(q, a, b, m),
    decreases a.len(),
{
    if a.len() > 0 {
        let (n, r) = q.spec_step(a[0], m);
        assert((a + b)[0] == a[0]);
        assert((a + b).drop_first() =~= a.drop_first() + b);
        lemma_search_concat(n, a.drop_first(), b, m);
    } else {
        assert(a + b =~= b);
    }
}

/// The query after walking `a` and, where it did not say `Finish` there,
/// then `b`.
pub open spec fn spec_search_both<Q: TreeQuery>(q: Q, a: Seq<Op>, b: Seq<Op>, m: OpSetMetadata) -> Q
    decreases a.len(),
{
    if a.len() == 0 {
        spec_search(q, b, m)
    } else {
        let (n, r) = q.spec_step(a[0], m);
        if r is Finish {
            n
        } else {
            spec_search_both(n, a.drop_first(), b, m)
        }
    }
}

} // verus!
