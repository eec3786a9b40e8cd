//! The relation-graph value types: `Relation`, `Object`, `UserSet`, `User`
//! and `RelTuple`, together with their mathematical views.
//!
//! All types are pure values with deep structural equality: two values are
//! equal exactly when all their components are equal, and an indirect
//! subject (`User::Indirect`) is equal to another only when the referenced
//! object and relation both match exactly.

use vstd::prelude::*;

verus! {

/// A named kind of relationship ("owner", "viewer", "member").
/// Identity is by name alone; no hierarchy is encoded in the type.
#[derive(Debug)]
pub struct Relation {
    pub name: String,
}

/// Mathematical value of a `Relation`: its name as a sequence of characters.
pub struct RelationV {
    pub name: Seq<char>,
}

/// An identified resource: a namespace (type discriminator, e.g. "doc",
/// "group") and an id unique within that namespace.
#[derive(Debug)]
pub struct Object {
    pub namespace: String,
    pub object_id: String,
}

/// Mathematical value of an `Object`.
pub struct ObjectV {
    pub namespace: Seq<char>,
    pub object_id: Seq<char>,
}

/// A reference to "all subjects holding `relation` on `object`" -- an
/// (object, relation) pair read as a group.
#[derive(Debug)]
pub struct UserSet {
    pub object: Object,
    pub relation: Relation,
}

/// Mathematical value of a `UserSet`.
pub struct UserSetV {
    pub object: ObjectV,
    pub relation: RelationV,
}

/// A subject: either a concrete principal identified by a numeric id, or
/// an indirect group reference, itself usable wherever a subject is.
#[derive(Debug)]
pub enum User {
    Id(u64),
    Indirect(UserSet),
}

/// Mathematical value of a `User`.
pub enum UserV {
    Id(u64),
    Indirect(UserSetV),
}

/// The atomic fact `(object, relation, user)`: "user holds relation on
/// object".  Tuples are never mutated once stored.
#[derive(Debug)]
pub struct RelTuple {
    pub object: Object,
    pub relation: Relation,
    pub user: User,
}

/// Mathematical value of a `RelTuple`.
pub struct RelTupleV {
    pub object: ObjectV,
    pub relation: RelationV,
    pub user: UserV,
}

impl View for Relation {
    type V = RelationV;

    open spec fn view(&self) -> RelationV {
        RelationV { name: self.name@ }
    }
}

impl View for Object {
    type V = ObjectV;

    open spec fn view(&self) -> ObjectV {
        ObjectV { namespace: self.namespace@, object_id: self.object_id@ }
    }
}

impl View for UserSet {
    type V = UserSetV;

    open spec fn view(&self) -> UserSetV {
        UserSetV { object: self.object@, relation: self.relation@ }
    }
}

impl View for User {
    type V = UserV;

    open spec fn view(&self) -> UserV {
        match self {
            User::Id(id) => UserV::Id(*id),
            User::Indirect(us) => UserV::Indirect(us@),
        }
    }
}

impl View for RelTuple {
    type V = RelTupleV;

    open spec fn view(&self) -> RelTupleV {
        RelTupleV { object: self.object@, relation: self.relation@, user: self.user@ }
    }
}

impl Relation {
    /// Builds the relation with the given name.
    pub fn from_name(name: &str) -> (r: Relation)
        ensures
            r@.name == name@,
    {
        Relation { name: name.to_owned() }
    }
}

impl Object {
    /// Builds the object `namespace:object_id`.
    pub fn new(namespace: &str, object_id: &str) -> (o: Object)
        ensures
            o@.namespace == namespace@,
            o@.object_id == object_id@,
    {
        Object { namespace: namespace.to_owned(), object_id: object_id.to_owned() }
    }
}

impl PartialEq for Relation {
    fn eq(&self, other: &Relation) -> (r: bool) {
        self.name == other.name
    }
}

impl vstd::std_specs::cmp::PartialEqSpecImpl for Relation {
    open spec fn obeys_eq_spec() -> bool {
        true
    }

    open spec fn eq_spec(&self, other: &Relation) -> bool {
        self@ == other@
    }
}

impl PartialEq for Object {
    fn eq(&self, other: &Object) -> (r: bool) {
        self.namespace == other.namespace && self.object_id == other.object_id
    }
}

impl vstd::std_specs::cmp::PartialEqSpecImpl for Object {
    open spec fn obeys_eq_spec() -> bool {
        true
    }

    open spec fn eq_spec(&self, other: &Object) -> bool {
        self@ == other@
    }
}

impl PartialEq for UserSet {
    fn eq(&self, other: &UserSet) -> (r: bool) {
        self.object == other.object && self.relation == other.relation
    }
}

impl vstd::std_specs::cmp::PartialEqSpecImpl for UserSet {
    open spec fn obeys_eq_spec() -> bool {
        true
    }

    open spec fn eq_spec(&self, other: &UserSet) -> bool {
        self@ == other@
    }
}

impl PartialEq for User {
    fn eq(&self, other: &User) -> (r: bool) {
        match (self, other) {
            (User::Id(a), User::Id(b)) => *a == *b,
            (User::Indirect(a), User::Indirect(b)) => *a == *b,
            _ => false,
        }
    }
}

impl vstd::std_specs::cmp::PartialEqSpecImpl for User {
    open spec fn obeys_eq_spec() -> bool {
        true
    }

    open spec fn eq_spec(&self, other: &User) -> bool {
        self@ == other@
    }
}

impl PartialEq for RelTuple {
    fn eq(&self, other: &RelTuple) -> (r: bool) {
        self.object == other.object && self.relation == other.relation && self.user == other.user
    }
}

impl vstd::std_specs::cmp::PartialEqSpecImpl for RelTuple {
    open spec fn obeys_eq_spec() -> bool {
        true
    }

    open spec fn eq_spec(&self, other: &RelTuple) -> bool {
        self@ == other@
    }
}

impl Clone for Relation {
    fn clone(&self) -> (r: Self)
        ensures
            r@ == self@,
    {
        Relation { name: self.name.clone() }
    }
}

impl Clone for Object {
    fn clone(&self) -> (r: Self)
        ensures
            r@ == self@,
    {
        Object { namespace: self.namespace.clone(), object_id: self.object_id.clone() }
    }
}

impl Clone for UserSet {
    fn clone(&self) -> (r: Self)
        ensures
            r@ == self@,
    {
        UserSet { object: self.object.clone(), relation: self.relation.clone() }
    }
}

impl Clone for User {
    fn clone(&self) -> (r: Self)
        ensures
            r@ == self@,
    {
        match self {
            User::Id(id) => User::Id(*id),
            User::Indirect(us) => User::Indirect(us.clone()),
        }
    }
}

impl Clone for RelTuple {
    fn clone(&self) -> (r: Self)
        ensures
            r@ == self@,
    {
        RelTuple {
            object: self.object.clone(),
            relation: self.relation.clone(),
            user: self.user.clone(),
        }
    }
}

} // verus!
