use lib::object_data::{MapType, ObjectData, SeqType};
use lib::op_tree::{FirstVisible, OpTreeInternal};
use lib::types::{
    Clock, ClockData, Counter, ElemId, Key, ObjId, ObjType, Op, OpId, OpSetMetadata, OpType,
    ScalarValue,
};

fn put(counter: u64, actor: usize, key: Key, succ: Vec<OpId>) -> Op {
    Op {
        id: OpId(counter, actor),
        action: OpType::Put(ScalarValue::Int(counter as i64)),
        key,
        succ,
        pred: Vec::new(),
        insert: false,
    }
}

fn meta() -> OpSetMetadata {
    OpSetMetadata { actors: Vec::new(), props: Vec::new() }
}

#[test]
fn root_is_an_empty_map_without_parent() {
    let root = ObjectData::root();
    assert_eq!(root.typ(), ObjType::MapObj);
    assert_eq!(root.parent, None);
    assert!(root.get(0).is_none());
    assert_eq!(root.keys(), None);
}

#[test]
fn new_object_reports_its_type_and_parent() {
    let parent = Some(ObjId(OpId(3, 1)));
    for t in [ObjType::MapObj, ObjType::Table, ObjType::List, ObjType::Text] {
        let obj = ObjectData::new(t, parent);
        assert_eq!(obj.typ(), t);
        assert_eq!(obj.parent, parent);
        assert!(obj.get(0).is_none());
    }
    assert_eq!(ObjectData::new(ObjType::Text, None).parent, None);
}

#[test]
fn map_and_seq_types_convert_to_object_types() {
    assert_eq!(ObjType::from(MapType::MapObj), ObjType::MapObj);
    assert_eq!(ObjType::from(MapType::Table), ObjType::Table);
    assert_eq!(ObjType::from(SeqType::List), ObjType::List);
    assert_eq!(ObjType::from(SeqType::Text), ObjType::Text);
}

#[test]
fn get_reads_what_insert_wrote() {
    let mut obj = ObjectData::new(ObjType::MapObj, None);
    obj.insert(0, put(1, 0, Key::MapKey(0), Vec::new()));
    obj.insert(1, put(2, 0, Key::MapKey(1), Vec::new()));
    obj.insert(0, put(3, 0, Key::MapKey(2), Vec::new()));
    assert_eq!(obj.get(0).unwrap().id, OpId(3, 0));
    assert_eq!(obj.get(1).unwrap().id, OpId(1, 0));
    assert_eq!(obj.get(2).unwrap().id, OpId(2, 0));
    assert!(obj.get(3).is_none());
    assert_eq!(obj.typ(), ObjType::MapObj);
}

#[test]
fn remove_undoes_insert() {
    let mut obj = ObjectData::new(ObjType::List, None);
    obj.insert(0, put(1, 0, Key::MapKey(0), Vec::new()));
    obj.insert(1, put(2, 0, Key::MapKey(1), Vec::new()));
    let op = put(7, 2, Key::MapKey(5), Vec::new());
    obj.insert(1, op.clone());
    let removed = obj.remove(1);
    assert_eq!(removed, op);
    assert_eq!(obj.get(0).unwrap().id, OpId(1, 0));
    assert_eq!(obj.get(1).unwrap().id, OpId(2, 0));
    assert!(obj.get(2).is_none());
}

#[test]
fn insert_undoes_remove() {
    let mut obj = ObjectData::new(ObjType::List, None);
    obj.insert(0, put(1, 0, Key::MapKey(0), Vec::new()));
    obj.insert(1, put(2, 0, Key::MapKey(1), Vec::new()));
    let removed = obj.remove(0);
    assert_eq!(removed.id, OpId(1, 0));
    assert_eq!(obj.get(0).unwrap().id, OpId(2, 0));
    obj.insert(0, removed);
    assert_eq!(obj.get(0).unwrap().id, OpId(1, 0));
    assert_eq!(obj.get(1).unwrap().id, OpId(2, 0));
}

#[test]
fn replace_changes_one_operation_in_place() {
    let mut obj = ObjectData::new(ObjType::MapObj, None);
    obj.insert(0, put(1, 0, Key::MapKey(0), Vec::new()));
    obj.insert(1, put(2, 0, Key::MapKey(1), Vec::new()));
    obj.replace(1, |op: &mut Op| op.succ.push(OpId(9, 0)));
    assert_eq!(obj.get(1).unwrap().succ, vec![OpId(9, 0)]);
    assert!(obj.get(0).unwrap().succ.is_empty());
    // no operation at index 5: nothing changes
    obj.replace(5, |op: &mut Op| op.insert = true);
    assert!(!obj.get(0).unwrap().insert);
    assert!(!obj.get(1).unwrap().insert);
    assert!(obj.get(2).is_none());
}

#[test]
fn keys_skip_invisible_ops_and_adjacent_repeats() {
    let mut obj = ObjectData::new(ObjType::MapObj, None);
    // two visible ops at key 0 (a conflict), an overwritten op at key 1,
    // an increment at key 2 and a visible op at key 3
    obj.insert(0, put(1, 0, Key::MapKey(0), Vec::new()));
    obj.insert(1, put(1, 1, Key::MapKey(0), Vec::new()));
    obj.insert(2, put(2, 0, Key::MapKey(1), vec![OpId(3, 0)]));
    obj.insert(
        3,
        Op {
            id: OpId(4, 0),
            action: OpType::Increment(5),
            key: Key::MapKey(2),
            succ: Vec::new(),
            pred: Vec::new(),
            insert: false,
        },
    );
    obj.insert(4, put(5, 0, Key::MapKey(3), Vec::new()));
    assert_eq!(obj.keys(), Some(vec![Key::MapKey(0), Key::MapKey(3)]));
}

#[test]
fn keys_of_inserted_elements_are_their_ids() {
    let mut obj = ObjectData::new(ObjType::List, None);
    let mut op = put(1, 0, Key::SeqElem(ElemId(OpId(0, 0))), Vec::new());
    op.insert = true;
    obj.insert(0, op);
    assert_eq!(obj.keys(), Some(vec![Key::SeqElem(ElemId(OpId(1, 0)))]));
}

#[test]
fn counters_stay_visible_while_only_incremented() {
    let counter = |increments: usize, succ: Vec<OpId>| Op {
        id: OpId(1, 0),
        action: OpType::Put(ScalarValue::Counter(Counter { start: 0, current: 0, increments })),
        key: Key::MapKey(0),
        succ,
        pred: Vec::new(),
        insert: false,
    };
    let mut obj = ObjectData::new(ObjType::MapObj, None);
    obj.insert(0, counter(1, vec![OpId(2, 0)]));
    assert_eq!(obj.keys(), Some(vec![Key::MapKey(0)]));
    let mut obj = ObjectData::new(ObjType::MapObj, None);
    obj.insert(0, counter(0, vec![OpId(2, 0)]));
    assert_eq!(obj.keys(), Some(vec![]));
}

#[test]
fn keys_at_follow_the_clock() {
    let mut obj = ObjectData::new(ObjType::MapObj, None);
    obj.insert(0, put(1, 0, Key::MapKey(0), vec![OpId(3, 0)]));
    obj.insert(1, put(3, 0, Key::MapKey(0), Vec::new()));
    obj.insert(2, put(2, 1, Key::MapKey(1), Vec::new()));
    // nothing of actor 0 after counter 1, nothing of actor 1
    let mut early = Clock::new();
    early.record(0, ClockData { max_op: 1, seq: 1 });
    assert_eq!(obj.keys_at(early), Some(vec![Key::MapKey(0)]));
    let mut late = Clock::new();
    late.record(0, ClockData { max_op: 3, seq: 2 });
    late.record(1, ClockData { max_op: 2, seq: 1 });
    assert_eq!(obj.keys_at(late), Some(vec![Key::MapKey(0), Key::MapKey(1)]));
    assert_eq!(obj.keys_at(Clock::new()), Some(vec![]));
    assert_eq!(ObjectData::root().keys_at(Clock::new()), None);
}

#[test]
fn clock_keeps_the_larger_entry() {
    let mut clock = Clock::new();
    clock.record(0, ClockData { max_op: 5, seq: 2 });
    clock.record(0, ClockData { max_op: 3, seq: 1 });
    assert!(clock.covers(&OpId(5, 0)));
    assert!(!clock.covers(&OpId(6, 0)));
    assert!(!clock.covers(&OpId(1, 1)));
}

#[test]
fn search_finds_the_first_visible_op_at_a_key() {
    let mut obj = ObjectData::new(ObjType::MapObj, None);
    obj.insert(0, put(1, 0, Key::MapKey(1), vec![OpId(2, 0)]));
    obj.insert(1, put(2, 0, Key::MapKey(1), Vec::new()));
    obj.insert(2, put(2, 1, Key::MapKey(1), Vec::new()));
    let q = obj.search(FirstVisible::new(Key::MapKey(1)), &meta());
    assert_eq!(q.found, Some(OpId(2, 0)));
    assert_eq!(q.key, Key::MapKey(1));
    let q = obj.search(FirstVisible::new(Key::MapKey(7)), &meta());
    assert_eq!(q.found, None);
    let q = ObjectData::root().search(FirstVisible::new(Key::MapKey(1)), &meta());
    assert_eq!(q.found, None);
}

#[test]
fn op_tree_reads_by_position() {
    let mut tree = OpTreeInternal::new();
    assert_eq!(tree.len(), 0);
    assert_eq!(tree.keys(), None);
    tree.insert(0, put(1, 0, Key::MapKey(0), Vec::new()));
    assert_eq!(tree.len(), 1);
    assert_eq!(tree.get(0).unwrap().id, OpId(1, 0));
    assert_eq!(tree.remove(0).id, OpId(1, 0));
    assert_eq!(tree.len(), 0);
}

#[test]
fn obj_id_root_is_the_zero_op() {
    assert_eq!(ObjId::root(), ObjId(OpId(0, 0)));
}
