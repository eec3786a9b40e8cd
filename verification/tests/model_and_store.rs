use relcheck::model::{Object, RelTuple, Relation, User, UserSet};
use relcheck::store::RelDB;

fn owner_tuple(id: u64) -> RelTuple {
    RelTuple {
        object: Object::new("doc", "readme"),
        relation: Relation::from_name("owner"),
        user: User::Id(id),
    }
}

#[test]
fn relation_identity_is_by_name() {
    assert_eq!(Relation::from_name("owner") == Relation::from_name("owner"), true);
    assert_eq!(Relation::from_name("owner") == Relation::from_name("viewer"), false);
}

#[test]
fn object_equality_needs_namespace_and_id() {
    assert!(Object::new("doc", "readme") == Object::new("doc", "readme"));
    assert!(!(Object::new("doc", "readme") == Object::new("wiki", "readme")));
    assert!(!(Object::new("doc", "readme") == Object::new("doc", "license")));
}

#[test]
fn subject_equality_is_deep() {
    let a = User::Indirect(UserSet {
        object: Object::new("group", "eng"),
        relation: Relation::from_name("member"),
    });
    let b = User::Indirect(UserSet {
        object: Object::new("group", "eng"),
        relation: Relation::from_name("member"),
    });
    let c = User::Indirect(UserSet {
        object: Object::new("group", "eng"),
        relation: Relation::from_name("owner"),
    });
    assert!(a == b);
    assert!(!(a == c));
    assert!(!(a == User::Id(1)));
    assert!(User::Id(1) == User::Id(1));
    assert!(!(User::Id(1) == User::Id(2)));
}

#[test]
fn store_keeps_insertion_order() {
    let mut db = RelDB::new();
    assert_eq!(db.len(), 0);
    db.add(owner_tuple(1));
    db.add(owner_tuple(2));
    assert_eq!(db.len(), 2);
    assert!(*db.tuple_at(0) == owner_tuple(1));
    assert!(*db.tuple_at(1) == owner_tuple(2));
}

#[test]
fn tuples_with_subject_filters_by_subject() {
    let mut db = RelDB::new();
    db.add(owner_tuple(1));
    db.add(owner_tuple(2));
    db.add(RelTuple {
        object: Object::new("group", "eng"),
        relation: Relation::from_name("member"),
        user: User::Id(1),
    });
    let for_one = db.tuples_with_subject(&User::Id(1));
    assert_eq!(for_one.len(), 2);
    assert!(for_one[0] == owner_tuple(1));
    assert!(for_one[1].object == Object::new("group", "eng"));
    let for_three = db.tuples_with_subject(&User::Id(3));
    assert_eq!(for_three.len(), 0);
}

#[test]
fn duplicate_insertion_grows_the_multiset() {
    let mut db = RelDB::new();
    db.add(owner_tuple(1));
    db.add(owner_tuple(1));
    assert_eq!(db.len(), 2);
    let both = db.tuples_with_subject(&User::Id(1));
    assert_eq!(both.len(), 2);
    assert!(both[0] == both[1]);
}
