//! The check engine: a depth-first reachability search over the
//! subject-promotion graph induced by the stored tuples.
//!
//! The meaning of a query is given by the spec function [`granted`]: there
//! is a finite chain of subject promotions from the queried subject that
//! ends in a stored tuple exactly matching the queried object and
//! relation.  The executable search keeps the set of subjects already on
//! the current path and skips revisits, so it terminates on cyclic data;
//! the lemmas below show that this guarded search decides exactly
//! [`granted`].

use vstd::prelude::*;

use crate::model::{Object, ObjectV, Relation, RelationV, RelTuple, RelTupleV, User, UserSet,
    UserSetV, UserV};
use crate::store::RelDB;

verus! {

broadcast use vstd::set::group_set_axioms, vstd::seq_lib::seq_to_set_is_finite;

/// Why a query was rejected before any search began.
#[derive(Clone, Copy, PartialEq, Eq, Debug, Structural)]
pub enum CheckError {
    /// The queried relation has an empty name: a malformed query.
    EmptyRelationName,
}

/// The group that tuple `t` places its subject in: membership in `t`
/// promotes the subject to the indirect subject `(t.object, t.relation)`.
pub open spec fn promoted_of(t: RelTupleV) -> UserV {
    UserV::Indirect(UserSetV { object: t.object, relation: t.relation })
}

/// Some stored tuple is exactly `(obj, rel, user)`: a direct grant.
pub open spec fn direct_grant(rels: Seq<RelTupleV>, user: UserV, obj: ObjectV, rel: RelationV) -> bool {
    exists|i: int|
        0 <= i < rels.len() && rels[i] == (RelTupleV { object: obj, relation: rel, user: user })
}

/// There is a chain of at most `n` subject promotions from `user`, never
/// promoting to a subject in `avoid`, that ends in a direct grant of
/// `rel` on `obj`.
pub open spec fn reaches(
    rels: Seq<RelTupleV>,
    user: UserV,
    obj: ObjectV,
    rel: RelationV,
    avoid: Set<UserV>,
    n: nat,
) -> bool
    decreases n,
{
    direct_grant(rels, user, obj, rel) || (n > 0 && exists|i: int|
        0 <= i < rels.len() && rels[i].user == user && !avoid.contains(promoted_of(rels[i]))
            && reaches(rels, promoted_of(rels[i]), obj, rel, avoid, (n - 1) as nat))
}

/// The meaning of a check: `user` holds `rel` on `obj` through some chain
/// of stored tuples.
pub open spec fn granted(rels: Seq<RelTupleV>, user: UserV, obj: ObjectV, rel: RelationV) -> bool {
    exists|n: nat| reaches(rels, user, obj, rel, Set::empty(), n)
}

/// What the guarded search finds from `user` when the subjects in `avoid`
/// are already on the current path: a direct grant, or a promotion to a
/// subject not yet on the path from which the search, with `user` added
/// to the path, succeeds within `n` further steps.
pub open spec fn search_ok(
    rels: Seq<RelTupleV>,
    user: UserV,
    obj: ObjectV,
    rel: RelationV,
    avoid: Set<UserV>,
    n: nat,
) -> bool
    decreases n,
{
    direct_grant(rels, user, obj, rel) || (n > 0 && exists|i: int|
        0 <= i < rels.len() && rels[i].user == user && !avoid.insert(user).contains(
            promoted_of(rels[i]),
        ) && search_ok(rels, promoted_of(rels[i]), obj, rel, avoid.insert(user), (n - 1) as nat))
}

/// The views of a sequence of subjects.
pub open spec fn user_views(s: Seq<User>) -> Seq<UserV> {
    s.map_values(|u: User| u@)
}

/// The subjects that promotion through some stored tuple can produce.
pub open spec fn promoted_seq(rels: Seq<RelTupleV>) -> Seq<UserV> {
    rels.map_values(|t: RelTupleV| promoted_of(t))
}

/// The same subjects as a set; it is finite, which bounds the search.
pub open spec fn promoted_set(rels: Seq<RelTupleV>) -> Set<UserV> {
    promoted_seq(rels).to_set()
}

/// Termination measure of the search: how many promotable subjects are
/// not yet on the path, plus one if `user` itself is not promotable.
pub open spec fn search_measure(rels: Seq<RelTupleV>, user: UserV, visited: Set<UserV>) -> int {
    promoted_set(rels).difference(visited).len() + if promoted_set(rels).contains(user) {
        0int
    } else {
        1int
    }
}

/// Each recursive step of the search strictly shrinks the measure: the
/// subject it descends to is promotable and joins the visited set.
proof fn lemma_measure_decreases(rels: Seq<RelTupleV>, u: UserV, p: UserV, avoid: Set<UserV>)
    requires
        !avoid.contains(u),
        promoted_set(rels).contains(p),
        !avoid.insert(u).contains(p),
    ensures
        search_measure(rels, p, avoid.insert(u)) < search_measure(rels, u, avoid),
{
    let ps = promoted_set(rels);
    assert(ps.finite());
    let d0 = ps.difference(avoid);
    let d1 = ps.difference(avoid.insert(u));
    assert(d1 =~= d0.remove(u));
    if ps.contains(u) {
        assert(d0.contains(u));
        assert(d0.len() == d0.remove(u).len() + 1);
    } else {
        assert(d1 =~= d0);
    }
}

/// Pushing one subject on the path adds exactly its view to the set of
/// visited subject views.
proof fn lemma_views_push_to_set(s: Seq<User>, t: Seq<User>, v: UserV)
    requires
        t.len() == s.len() + 1,
        forall|i: int| 0 <= i < s.len() ==> t[i] == s[i],
        t.last()@ == v,
    ensures
        user_views(t) == user_views(s).push(v),
        user_views(t).to_set() == user_views(s).to_set().insert(v),
{
    let sv = user_views(s);
    let tv = user_views(t);
    assert(tv =~= sv.push(v));
    assert forall|x: UserV| sv.push(v).to_set().contains(x) implies sv.to_set().insert(v).contains(
        x,
    ) by {
        let i = choose|i: int| 0 <= i < sv.push(v).len() && sv.push(v)[i] == x;
        if i < sv.len() {
            assert(sv[i] == x);
        }
    }
    assert forall|x: UserV| sv.to_set().insert(v).contains(x) implies sv.push(v).to_set().contains(
        x,
    ) by {
        if x == v {
            assert(sv.push(v)[sv.len() as int] == x);
        } else {
            let i = choose|i: int| 0 <= i < sv.len() && sv[i] == x;
            assert(sv.push(v)[i] == x);
        }
    }
    assert(tv.to_set() =~= sv.to_set().insert(v));
}

/// A chain that avoids a set also avoids any subset of it.
proof fn lemma_reaches_antitone(
    rels: Seq<RelTupleV>,
    user: UserV,
    obj: ObjectV,
    rel: RelationV,
    small: Set<UserV>,
    big: Set<UserV>,
    n: nat,
)
    requires
        reaches(rels, user, obj, rel, big, n),
        small.subset_of(big),
    ensures
        reaches(rels, user, obj, rel, small, n),
    decreases n,
{
    if !direct_grant(rels, user, obj, rel) {
        let i = choose|i: int|
            0 <= i < rels.len() && rels[i].user == user && !big.contains(promoted_of(rels[i]))
                && reaches(rels, promoted_of(rels[i]), obj, rel, big, (n - 1) as nat);
        lemma_reaches_antitone(rels, promoted_of(rels[i]), obj, rel, small, big, (n - 1) as nat);
        assert(0 <= i < rels.len() && rels[i].user == user && !small.contains(promoted_of(rels[i]))
            && reaches(rels, promoted_of(rels[i]), obj, rel, small, (n - 1) as nat));
    }
}

/// A chain from `p` either already avoids `u`, or contains a strictly
/// shorter chain from `u` itself.
proof fn lemma_reaches_cut(
    rels: Seq<RelTupleV>,
    p: UserV,
    obj: ObjectV,
    rel: RelationV,
    avoid: Set<UserV>,
    u: UserV,
    n: nat,
)
    requires
        reaches(rels, p, obj, rel, avoid, n),
    ensures
        reaches(rels, p, obj, rel, avoid.insert(u), n) || (exists|m: nat|
            m < n && reaches(rels, u, obj, rel, avoid, m)),
    decreases n,
{
    if !direct_grant(rels, p, obj, rel) {
        let i = choose|i: int|
            0 <= i < rels.len() && rels[i].user == p && !avoid.contains(promoted_of(rels[i]))
                && reaches(rels, promoted_of(rels[i]), obj, rel, avoid, (n - 1) as nat);
        let q = promoted_of(rels[i]);
        if q == u {
            assert(((n - 1) as nat) < n && reaches(rels, u, obj, rel, avoid, (n - 1) as nat));
        } else {
            lemma_reaches_cut(rels, q, obj, rel, avoid, u, (n - 1) as nat);
            if reaches(rels, q, obj, rel, avoid.insert(u), (n - 1) as nat) {
                assert(0 <= i < rels.len() && rels[i].user == p && !avoid.insert(u).contains(q)
                    && reaches(rels, q, obj, rel, avoid.insert(u), (n - 1) as nat));
            } else {
                let m = choose|m: nat| m < (n - 1) as nat && reaches(rels, u, obj, rel, avoid, m);
                assert(m < n && reaches(rels, u, obj, rel, avoid, m));
            }
        }
    }
}

/// Soundness of the guarded search: whatever it finds is a real chain.
proof fn lemma_search_sound(
    rels: Seq<RelTupleV>,
    user: UserV,
    obj: ObjectV,
    rel: RelationV,
    avoid: Set<UserV>,
    n: nat,
)
    requires
        search_ok(rels, user, obj, rel, avoid, n),
    ensures
        reaches(rels, user, obj, rel, avoid, n),
    decreases n,
{
    if !direct_grant(rels, user, obj, rel) {
        let i = choose|i: int|
            0 <= i < rels.len() && rels[i].user == user && !avoid.insert(user).contains(
                promoted_of(rels[i]),
            ) && search_ok(rels, promoted_of(rels[i]), obj, rel, avoid.insert(user), (n - 1) as nat);
        let q = promoted_of(rels[i]);
        lemma_search_sound(rels, q, obj, rel, avoid.insert(user), (n - 1) as nat);
        lemma_reaches_antitone(rels, q, obj, rel, avoid, avoid.insert(user), (n - 1) as nat);
        assert(0 <= i < rels.len() && rels[i].user == user && !avoid.contains(q) && reaches(
            rels,
            q,
            obj,
            rel,
            avoid,
            (n - 1) as nat,
        ));
    }
}

/// Completeness of the guarded search: skipping subjects already on the
/// path loses no grant, because any chain that revisits the path has a
/// shorter chain from the revisited subject.
proof fn lemma_search_complete(
    rels: Seq<RelTupleV>,
    user: UserV,
    obj: ObjectV,
    rel: RelationV,
    avoid: Set<UserV>,
    n: nat,
)
    requires
        reaches(rels, user, obj, rel, avoid, n),
    ensures
        exists|m: nat| search_ok(rels, user, obj, rel, avoid, m),
    decreases n,
{
    if direct_grant(rels, user, obj, rel) {
        assert(search_ok(rels, user, obj, rel, avoid, 0));
    } else {
        let i = choose|i: int|
            0 <= i < rels.len() && rels[i].user == user && !avoid.contains(promoted_of(rels[i]))
                && reaches(rels, promoted_of(rels[i]), obj, rel, avoid, (n - 1) as nat);
        let q = promoted_of(rels[i]);
        lemma_reaches_cut(rels, q, obj, rel, avoid, user, (n - 1) as nat);
        if reaches(rels, q, obj, rel, avoid.insert(user), (n - 1) as nat) {
            if q == user {
                lemma_reaches_antitone(
                    rels,
                    user,
                    obj,
                    rel,
                    avoid,
                    avoid.insert(user),
                    (n - 1) as nat,
                );
                lemma_search_complete(rels, user, obj, rel, avoid, (n - 1) as nat);
            } else {
                lemma_search_complete(rels, q, obj, rel, avoid.insert(user), (n - 1) as nat);
                let m = choose|m: nat| search_ok(rels, q, obj, rel, avoid.insert(user), m);
                assert(0 <= i < rels.len() && rels[i].user == user && !avoid.insert(user).contains(
                    q,
                ) && search_ok(rels, q, obj, rel, avoid.insert(user), m));
                assert(search_ok(rels, user, obj, rel, avoid, m + 1));
            }
        } else {
            let m = choose|m: nat| m < (n - 1) as nat && reaches(rels, user, obj, rel, avoid, m);
            lemma_search_complete(rels, user, obj, rel, avoid, m);
        }
    }
}

/// With an empty path the guarded search succeeds exactly on granted
/// queries.
proof fn lemma_search_iff_granted(rels: Seq<RelTupleV>, user: UserV, obj: ObjectV, rel: RelationV)
    ensures
        (exists|n: nat| search_ok(rels, user, obj, rel, Set::empty(), n)) <==> granted(
            rels,
            user,
            obj,
            rel,
        ),
{
    if exists|n: nat| search_ok(rels, user, obj, rel, Set::empty(), n) {
        let n = choose|n: nat| search_ok(rels, user, obj, rel, Set::empty(), n);
        lemma_search_sound(rels, user, obj, rel, Set::empty(), n);
        assert(reaches(rels, user, obj, rel, Set::empty(), n));
    }
    if granted(rels, user, obj, rel) {
        let n = choose|n: nat| reaches(rels, user, obj, rel, Set::empty(), n);
        lemma_search_complete(rels, user, obj, rel, Set::empty(), n);
    }
}

/// Does `path` already hold a subject with the same value as `user`?
fn contains_user(path: &Vec<User>, user: &User) -> (r: bool)
    ensures
        r == user_views(path@).to_set().contains(user@),
{
    let mut i: usize = 0;
    while i < path.len()
        invariant
            i <= path@.len(),
            forall|j: int| 0 <= j < i ==> user_views(path@)[j] != user@,
        decreases path@.len() - i,
    {
        if path[i] == *user {
            proof {
                assert(user_views(path@)[i as int] == user@);
                assert(user_views(path@).contains(user@));
            }
            return true;
        }
        i += 1;
    }
    proof {
        assert(!user_views(path@).to_set().contains(user@)) by {
            if user_views(path@).contains(user@) {
                let j = choose|j: int|
                    0 <= j < user_views(path@).len() && user_views(path@)[j] == user@;
                assert(user_views(path@)[j] != user@);
            }
        }
    }
    false
}

impl RelDB {
    /// One step of the search: `user` is the subject being resolved,
    /// `path` the subjects already being resolved above it.  Returns true
    /// exactly when the guarded search from here succeeds.
    fn check_from(&self, user: &User, obj: &Object, rel: &Relation, path: &mut Vec<User>) -> (r:
        bool)
        requires
            !user_views(old(path)@).to_set().contains(user@),
        ensures
            final(path)@ == old(path)@,
            r == (exists|n: nat|
                search_ok(self@, user@, obj@, rel@, user_views(old(path)@).to_set(), n)),
        decreases search_measure(self@, user@, user_views(path@).to_set()),
    {
        let ghost rels_v = self@;
        let ghost avoid0 = user_views(path@).to_set();
        let ghost target = RelTupleV { object: obj@, relation: rel@, user: user@ };
        let target_t = RelTuple { object: obj.clone(), relation: rel.clone(), user: user.clone() };
        proof {
            assert(target_t@ == target);
        }
        path.push(user.clone());
        proof {
            lemma_views_push_to_set(old(path)@, path@, user@);
        }
        let ghost avoid1 = user_views(path@).to_set();
        let mut i: usize = 0;
        while i < self.len()
            invariant
                i <= rels_v.len(),
                rels_v == self@,
                target == (RelTupleV { object: obj@, relation: rel@, user: user@ }),
                target_t@ == target,
                path@.len() == old(path)@.len() + 1,
                forall|j: int| 0 <= j < old(path)@.len() ==> path@[j] == old(path)@[j],
                avoid0 == user_views(old(path)@).to_set(),
                avoid1 == user_views(path@).to_set(),
                avoid1 == avoid0.insert(user@),
                !avoid0.contains(user@),
                forall|j: int| 0 <= j < i ==> rels_v[j] != target,
                forall|j: int|
                    0 <= j < i && rels_v[j].user == user@ && !avoid1.contains(
                        promoted_of(rels_v[j]),
                    ) ==> (forall|n: nat|
                        !search_ok(rels_v, promoted_of(rels_v[j]), obj@, rel@, avoid1, n)),
            decreases rels_v.len() - i,
        {
            let t = self.tuple_at(i);
            if t.user == *user {
                if *t == target_t {
                    proof {
                        assert(rels_v[i as int] == target);
                        assert(direct_grant(rels_v, user@, obj@, rel@));
                        assert(search_ok(rels_v, user@, obj@, rel@, avoid0, 0));
                    }
                    let _ = path.pop();
                    proof {
                        assert(path@ =~= old(path)@);
                    }
                    return true;
                }
                let promoted = User::Indirect(
                    UserSet { object: t.object.clone(), relation: t.relation.clone() },
                );
                proof {
                    assert(promoted@ == promoted_of(rels_v[i as int]));
                }
                if !contains_user(path, &promoted) {
                    proof {
                        assert(promoted_seq(rels_v)[i as int] == promoted@);
                        assert(promoted_seq(rels_v).contains(promoted@));
                        assert(promoted_set(rels_v).contains(promoted@));
                        lemma_measure_decreases(rels_v, user@, promoted@, avoid0);
                    }
                    if self.check_from(&promoted, obj, rel, path) {
                        proof {
                            let m = choose|m: nat|
                                search_ok(rels_v, promoted@, obj@, rel@, avoid1, m);
                            assert(0 <= (i as int) < rels_v.len() && rels_v[i as int].user == user@
                                && !avoid0.insert(user@).contains(promoted_of(rels_v[i as int]))
                                && search_ok(
                                rels_v,
                                promoted_of(rels_v[i as int]),
                                obj@,
                                rel@,
                                avoid0.insert(user@),
                                m,
                            ));
                            assert(search_ok(rels_v, user@, obj@, rel@, avoid0, m + 1));
                        }
                        let _ = path.pop();
                        proof {
                            assert(path@ =~= old(path)@);
                        }
                        return true;
                    }
                }
            }
            i += 1;
        }
        proof {
            assert forall|n: nat| !search_ok(rels_v, user@, obj@, rel@, avoid0, n) by {
                if search_ok(rels_v, user@, obj@, rel@, avoid0, n) {
                    if direct_grant(rels_v, user@, obj@, rel@) {
                        let j = choose|j: int|
                            0 <= j < rels_v.len() && rels_v[j] == (RelTupleV {
                                object: obj@,
                                relation: rel@,
                                user: user@,
                            });
                        assert(rels_v[j] != target);
                    } else {
                        let j = choose|j: int|
                            0 <= j < rels_v.len() && rels_v[j].user == user@ && !avoid0.insert(
                                user@,
                            ).contains(promoted_of(rels_v[j])) && search_ok(
                                rels_v,
                                promoted_of(rels_v[j]),
                                obj@,
                                rel@,
                                avoid0.insert(user@),
                                (n - 1) as nat,
                            );
                        assert(!search_ok(
                            rels_v,
                            promoted_of(rels_v[j]),
                            obj@,
                            rel@,
                            avoid1,
                            (n - 1) as nat,
                        ));
                    }
                }
            }
        }
        let _ = path.pop();
        proof {
            assert(path@ =~= old(path)@);
        }
        false
    }

    /// Decides whether `user` holds `rel` on `obj`: directly, or through
    /// any chain of group-membership promotions over the stored tuples.
    /// A query with an empty relation name is malformed and rejected
    /// before the search begins; absence of a path is the legitimate
    /// answer `Ok(false)`, never an error.  The search carries the set of
    /// subjects on the current path, so it terminates on every store,
    /// cyclic tuple data included.
    pub fn check(&self, user: User, obj: Object, rel: Relation) -> (r: Result<bool, CheckError>)
        ensures
            rel@.name.len() == 0 ==> r == Err::<bool, CheckError>(CheckError::EmptyRelationName),
            rel@.name.len() > 0 ==> r == Ok::<bool, CheckError>(
                granted(self@, user@, obj@, rel@),
            ),
    {
        if rel.name.as_str().is_empty() {
            return Err(CheckError::EmptyRelationName);
        }
        let mut path: Vec<User> = Vec::new();
        proof {
            assert(user_views(path@) =~= Seq::<UserV>::empty());
            assert(user_views(path@).to_set() =~= Set::<UserV>::empty());
        }
        let ok = self.check_from(&user, &obj, &rel, &mut path);
        proof {
            lemma_search_iff_granted(self@, user@, obj@, rel@);
        }
        Ok(ok)
    }
}

} // verus!
