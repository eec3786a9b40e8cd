use relcheck::engine::CheckError;
use relcheck::model::{Object, RelTuple, Relation, User, UserSet};
use relcheck::store::RelDB;

fn tuple(namespace: &str, object_id: &str, relation: &str, user: User) -> RelTuple {
    RelTuple {
        object: Object::new(namespace, object_id),
        relation: Relation::from_name(relation),
        user,
    }
}

fn group(namespace: &str, object_id: &str, relation: &str) -> User {
    User::Indirect(UserSet {
        object: Object::new(namespace, object_id),
        relation: Relation::from_name(relation),
    })
}

fn check(db: &RelDB, user: User, namespace: &str, object_id: &str, relation: &str) -> Result<bool, CheckError> {
    db.check(user, Object::new(namespace, object_id), Relation::from_name(relation))
}

/// The reference scenario: an owner, a viewer, and a group whose members
/// are viewers.
fn reference_store() -> RelDB {
    let mut db = RelDB::new();
    db.add(tuple("doc", "readme", "owner", User::Id(10)));
    db.add(tuple("doc", "readme", "viewer", User::Id(3)));
    db.add(tuple("group", "eng", "member", User::Id(11)));
    db.add(tuple("doc", "readme", "viewer", group("group", "eng", "member")));
    db
}

#[test]
fn direct_grants() {
    let db = reference_store();
    assert_eq!(check(&db, User::Id(10), "doc", "readme", "owner"), Ok(true));
    assert_eq!(check(&db, User::Id(11), "group", "eng", "member"), Ok(true));
    assert_eq!(check(&db, User::Id(3), "doc", "readme", "viewer"), Ok(true));
}

#[test]
fn grant_through_one_indirection() {
    let db = reference_store();
    assert_eq!(check(&db, User::Id(11), "doc", "readme", "viewer"), Ok(true));
}

#[test]
fn no_path_means_false() {
    let db = reference_store();
    assert_eq!(check(&db, User::Id(3), "doc", "readme", "owner"), Ok(false));
    assert_eq!(check(&db, User::Id(10), "doc", "readme", "viewer"), Ok(false));
    assert_eq!(check(&db, User::Id(12), "doc", "readme", "viewer"), Ok(false));
}

#[test]
fn empty_store_grants_nothing() {
    let db = RelDB::new();
    assert_eq!(check(&db, User::Id(1), "doc", "readme", "owner"), Ok(false));
}

#[test]
fn grant_through_two_indirections() {
    let mut db = RelDB::new();
    db.add(tuple("group", "inner", "member", User::Id(7)));
    db.add(tuple("group", "outer", "member", group("group", "inner", "member")));
    db.add(tuple("doc", "plan", "viewer", group("group", "outer", "member")));
    assert_eq!(check(&db, User::Id(7), "doc", "plan", "viewer"), Ok(true));
    assert_eq!(check(&db, User::Id(8), "doc", "plan", "viewer"), Ok(false));
}

#[test]
fn unrelated_tuples_change_nothing() {
    let mut db = reference_store();
    let before_granted = check(&db, User::Id(11), "doc", "readme", "viewer");
    let before_denied = check(&db, User::Id(3), "doc", "readme", "owner");
    db.add(tuple("doc", "other", "owner", User::Id(99)));
    db.add(tuple("group", "sales", "member", User::Id(98)));
    db.add(tuple("doc", "other", "viewer", group("group", "sales", "member")));
    assert_eq!(check(&db, User::Id(11), "doc", "readme", "viewer"), before_granted);
    assert_eq!(check(&db, User::Id(3), "doc", "readme", "owner"), before_denied);
}

#[test]
fn cycle_terminates_and_denies() {
    let mut db = RelDB::new();
    db.add(tuple("group", "g1", "member", group("group", "g2", "member")));
    db.add(tuple("group", "g2", "member", group("group", "g1", "member")));
    assert_eq!(check(&db, User::Id(5), "doc", "readme", "viewer"), Ok(false));
    assert_eq!(
        db.check(
            group("group", "g2", "member"),
            Object::new("doc", "readme"),
            Relation::from_name("viewer"),
        ),
        Ok(false),
    );
}

#[test]
fn self_referential_tuple_terminates() {
    let mut db = RelDB::new();
    db.add(tuple("group", "g", "member", group("group", "g", "member")));
    assert_eq!(check(&db, User::Id(5), "group", "g", "member"), Ok(false));
    assert_eq!(
        db.check(
            group("group", "g", "member"),
            Object::new("group", "g"),
            Relation::from_name("member"),
        ),
        Ok(true),
    );
}

#[test]
fn cycle_with_grant_behind_it_succeeds() {
    let mut db = RelDB::new();
    db.add(tuple("group", "g1", "member", User::Id(5)));
    db.add(tuple("group", "g2", "member", group("group", "g1", "member")));
    db.add(tuple("group", "g1", "member", group("group", "g2", "member")));
    db.add(tuple("doc", "readme", "viewer", group("group", "g2", "member")));
    assert_eq!(check(&db, User::Id(5), "doc", "readme", "viewer"), Ok(true));
}

#[test]
fn repeated_checks_agree() {
    let db = reference_store();
    let first = check(&db, User::Id(11), "doc", "readme", "viewer");
    let second = check(&db, User::Id(11), "doc", "readme", "viewer");
    let third = check(&db, User::Id(11), "doc", "readme", "viewer");
    assert_eq!(first, second);
    assert_eq!(second, third);
    let denied_first = check(&db, User::Id(3), "doc", "readme", "owner");
    let denied_second = check(&db, User::Id(3), "doc", "readme", "owner");
    assert_eq!(denied_first, denied_second);
}

#[test]
fn empty_relation_name_is_rejected() {
    let db = reference_store();
    assert_eq!(
        check(&db, User::Id(10), "doc", "readme", ""),
        Err(CheckError::EmptyRelationName),
    );
}

#[test]
fn stored_tuple_with_empty_relation_is_legal_data() {
    let mut db = reference_store();
    db.add(tuple("doc", "readme", "", User::Id(10)));
    assert_eq!(check(&db, User::Id(10), "doc", "readme", "owner"), Ok(true));
    assert_eq!(
        check(&db, User::Id(10), "doc", "readme", ""),
        Err(CheckError::EmptyRelationName),
    );
}

#[test]
fn largest_concrete_id_is_an_ordinary_subject() {
    let mut db = RelDB::new();
    db.add(tuple("doc", "readme", "owner", User::Id(u64::MAX)));
    assert_eq!(check(&db, User::Id(u64::MAX), "doc", "readme", "owner"), Ok(true));
    assert_eq!(check(&db, User::Id(u64::MAX - 1), "doc", "readme", "owner"), Ok(false));
}

#[test]
fn duplicate_tuples_have_no_extra_effect() {
    let mut db = reference_store();
    db.add(tuple("doc", "readme", "owner", User::Id(10)));
    db.add(tuple("doc", "readme", "owner", User::Id(10)));
    assert_eq!(check(&db, User::Id(10), "doc", "readme", "owner"), Ok(true));
    assert_eq!(check(&db, User::Id(3), "doc", "readme", "owner"), Ok(false));
}
