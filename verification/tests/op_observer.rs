use lib::op_observer::{OpObserver, Patch, Path, VecOpObserver};
use lib::types::{ActorId, ExId, ObjType, Prop, ScalarValue, Value};

fn obj() -> ExId {
    ExId::Id(4, ActorId(vec![1, 2, 3]), 0)
}

fn id(counter: u64) -> ExId {
    ExId::Id(counter, ActorId(vec![1, 2, 3]), 0)
}

#[test]
fn patches_come_out_in_order_with_root_first_paths() {
    let mut observer = VecOpObserver::default();
    let path = || Path(vec![Prop::SeqIndex(2), Prop::MapKey("todos".to_string())]);
    observer.insert(obj(), path(), 3, (Value::Scalar(ScalarValue::Str("a".to_string())), id(5)));
    observer.put(
        obj(),
        path(),
        Prop::MapKey("done".to_string()),
        (Value::Scalar(ScalarValue::Boolean(true)), id(6)),
        true,
    );
    observer.increment(obj(), path(), Prop::MapKey("count".to_string()), (2, id(7)));
    observer.delete(obj(), path(), Prop::SeqIndex(0));
    let root_first = vec![Prop::MapKey("todos".to_string()), Prop::SeqIndex(2)];
    let patches = observer.take_patches();
    assert_eq!(
        patches,
        vec![
            Patch::Insert {
                obj: obj(),
                path: root_first.clone(),
                index: 3,
                value: (Value::Scalar(ScalarValue::Str("a".to_string())), id(5)),
            },
            Patch::Put {
                obj: obj(),
                path: root_first.clone(),
                key: Prop::MapKey("done".to_string()),
                value: (Value::Scalar(ScalarValue::Boolean(true)), id(6)),
                conflict: true,
            },
            Patch::Increment {
                obj: obj(),
                path: root_first.clone(),
                key: Prop::MapKey("count".to_string()),
                value: (2, id(7)),
            },
            Patch::Delete { obj: obj(), path: root_first.clone(), key: Prop::SeqIndex(0) },
        ]
    );
}

#[test]
fn take_patches_leaves_the_observer_empty() {
    let mut observer = VecOpObserver::default();
    assert!(observer.take_patches().is_empty());
    observer.put(
        ExId::Root,
        Path(Vec::new()),
        Prop::MapKey("list".to_string()),
        (Value::Object(ObjType::List), id(1)),
        false,
    );
    assert_eq!(observer.take_patches().len(), 1);
    assert!(observer.take_patches().is_empty());
    observer.delete(ExId::Root, Path(Vec::new()), Prop::MapKey("list".to_string()));
    let patches = observer.take_patches();
    assert_eq!(
        patches,
        vec![Patch::Delete {
            obj: ExId::Root,
            path: Vec::new(),
            key: Prop::MapKey("list".to_string())
        }]
    );
}

#[test]
fn paths_of_one_step_are_kept() {
    let mut observer = VecOpObserver::default();
    observer.insert(
        obj(),
        Path(vec![Prop::MapKey("text".to_string())]),
        0,
        (Value::Scalar(ScalarValue::Str("x".to_string())), id(9)),
    );
    match &observer.take_patches()[0] {
        Patch::Insert { path, index, .. } => {
            assert_eq!(path, &vec![Prop::MapKey("text".to_string())]);
            assert_eq!(*index, 0);
        }
        other => panic!("unexpected patch {:?}", other),
    }
}

#[test]
fn unit_observer_ignores_everything() {
    let mut observer = ();
    observer.insert(obj(), Path(Vec::new()), 0, (Value::Scalar(ScalarValue::Null), id(1)));
    observer.put(obj(), Path(Vec::new()), Prop::SeqIndex(1), (Value::Scalar(ScalarValue::Null), id(2)), false);
    observer.increment(obj(), Path(Vec::new()), Prop::SeqIndex(1), (1, id(3)));
    observer.delete(obj(), Path(Vec::new()), Prop::SeqIndex(1));
    assert_eq!(observer, ());
}

#[test]
fn patches_clone_to_equal_patches() {
    let patch = Patch::Increment {
        obj: obj(),
        path: vec![Prop::SeqIndex(4)],
        key: Prop::MapKey("n".to_string()),
        value: (-3, id(2)),
    };
    assert_eq!(patch.clone(), patch);
}
