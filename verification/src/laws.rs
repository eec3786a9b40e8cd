//! The laws of the check: proved properties relating the stored tuples to
//! the verdict `granted`, which is exactly what `RelDB::check` returns.

use vstd::prelude::*;

use crate::engine::{direct_grant, granted, promoted_of, reaches};
use crate::model::{ObjectV, RelationV, RelTupleV, UserSetV, UserV};

verus! {

/// `v` can be reached from `u` by at most `n` subject promotions through
/// the stored tuples: `u` is mentioned in a promotable chain leading to
/// `v`.
pub open spec fn steps_to(rels: Seq<RelTupleV>, u: UserV, v: UserV, n: nat) -> bool
    decreases n,
{
    u == v || (n > 0 && exists|i: int|
        0 <= i < rels.len() && rels[i].user == u && steps_to(
            rels,
            promoted_of(rels[i]),
            v,
            (n - 1) as nat,
        ))
}

/// Direct grant: a stored tuple `(obj, rel, user)` by itself grants
/// `user` the relation `rel` on `obj`.
pub proof fn lemma_direct_grant(rels: Seq<RelTupleV>, user: UserV, obj: ObjectV, rel: RelationV)
    requires
        rels.contains((RelTupleV { object: obj, relation: rel, user: user })),
    ensures
        granted(rels, user, obj, rel),
{
    let t = RelTupleV { object: obj, relation: rel, user: user };
    let i = choose|i: int| 0 <= i < rels.len() && rels[i] == t;
    assert(direct_grant(rels, user, obj, rel));
    assert(reaches(rels, user, obj, rel, Set::empty(), 0));
}

/// Transitivity through one indirection: if `user` is a member of the
/// group `(grp, membership)` and that group holds `rel` on `obj`, then
/// `user` holds `rel` on `obj`.
pub proof fn lemma_one_indirection(
    rels: Seq<RelTupleV>,
    grp: ObjectV,
    membership: RelationV,
    user: UserV,
    obj: ObjectV,
    rel: RelationV,
)
    requires
        rels.contains((RelTupleV { object: grp, relation: membership, user: user })),
        rels.contains(
            (RelTupleV {
                object: obj,
                relation: rel,
                user: UserV::Indirect(UserSetV { object: grp, relation: membership }),
            }),
        ),
    ensures
        granted(rels, user, obj, rel),
{
    let g = UserV::Indirect(UserSetV { object: grp, relation: membership });
    let t1 = RelTupleV { object: grp, relation: membership, user: user };
    let t2 = RelTupleV { object: obj, relation: rel, user: g };
    let i = choose|i: int| 0 <= i < rels.len() && rels[i] == t1;
    let j = choose|j: int| 0 <= j < rels.len() && rels[j] == t2;
    assert(direct_grant(rels, g, obj, rel));
    assert(reaches(rels, g, obj, rel, Set::empty(), 0));
    assert(promoted_of(rels[i]) == g);
    assert(0 <= i < rels.len() && rels[i].user == user && !Set::<UserV>::empty().contains(g)
        && reaches(rels, promoted_of(rels[i]), obj, rel, Set::empty(), 0));
    assert(reaches(rels, user, obj, rel, Set::empty(), 1));
}

/// Transitivity through two indirections: membership in a group that is a
/// member of a second group which holds the relation also grants it.
pub proof fn lemma_two_indirections(
    rels: Seq<RelTupleV>,
    grp1: ObjectV,
    membership1: RelationV,
    grp2: ObjectV,
    membership2: RelationV,
    user: UserV,
    obj: ObjectV,
    rel: RelationV,
)
    requires
        rels.contains((RelTupleV { object: grp1, relation: membership1, user: user })),
        rels.contains(
            (RelTupleV {
                object: grp2,
                relation: membership2,
                user: UserV::Indirect(UserSetV { object: grp1, relation: membership1 }),
            }),
        ),
        rels.contains(
            (RelTupleV {
                object: obj,
                relation: rel,
                user: UserV::Indirect(UserSetV { object: grp2, relation: membership2 }),
            }),
        ),
    ensures
        granted(rels, user, obj, rel),
{
    let g1 = UserV::Indirect(UserSetV { object: grp1, relation: membership1 });
    let g2 = UserV::Indirect(UserSetV { object: grp2, relation: membership2 });
    let t1 = RelTupleV { object: grp1, relation: membership1, user: user };
    let t2 = RelTupleV { object: grp2, relation: membership2, user: g1 };
    let t3 = RelTupleV { object: obj, relation: rel, user: g2 };
    let i = choose|i: int| 0 <= i < rels.len() && rels[i] == t1;
    let j = choose|j: int| 0 <= j < rels.len() && rels[j] == t2;
    let k = choose|k: int| 0 <= k < rels.len() && rels[k] == t3;
    assert(direct_grant(rels, g2, obj, rel));
    assert(reaches(rels, g2, obj, rel, Set::empty(), 0));
    assert(promoted_of(rels[j]) == g2);
    assert(0 <= j < rels.len() && rels[j].user == g1 && !Set::<UserV>::empty().contains(g2)
        && reaches(rels, promoted_of(rels[j]), obj, rel, Set::empty(), 0));
    assert(reaches(rels, g1, obj, rel, Set::empty(), 1));
    assert(promoted_of(rels[i]) == g1);
    assert(0 <= i < rels.len() && rels[i].user == user && !Set::<UserV>::empty().contains(g1)
        && reaches(rels, promoted_of(rels[i]), obj, rel, Set::empty(), 1));
    assert(reaches(rels, user, obj, rel, Set::empty(), 2));
}

/// A chain over the stored tuples is still a chain after one more tuple
/// is stored.
proof fn lemma_reaches_push(
    rels: Seq<RelTupleV>,
    t: RelTupleV,
    user: UserV,
    obj: ObjectV,
    rel: RelationV,
    n: nat,
)
    requires
        reaches(rels, user, obj, rel, Set::empty(), n),
    ensures
        reaches(rels.push(t), user, obj, rel, Set::empty(), n),
    decreases n,
{
    let full = rels.push(t);
    if direct_grant(rels, user, obj, rel) {
        let target = RelTupleV { object: obj, relation: rel, user: user };
        let i = choose|i: int| 0 <= i < rels.len() && rels[i] == target;
        assert(full[i] == target);
        assert(direct_grant(full, user, obj, rel));
    } else {
        let i = choose|i: int|
            0 <= i < rels.len() && rels[i].user == user && !Set::<UserV>::empty().contains(
                promoted_of(rels[i]),
            ) && reaches(rels, promoted_of(rels[i]), obj, rel, Set::empty(), (n - 1) as nat);
        lemma_reaches_push(rels, t, promoted_of(rels[i]), obj, rel, (n - 1) as nat);
        assert(full[i] == rels[i]);
        assert(0 <= i < full.len() && full[i].user == user && !Set::<UserV>::empty().contains(
            promoted_of(full[i]),
        ) && reaches(full, promoted_of(full[i]), obj, rel, Set::empty(), (n - 1) as nat));
        assert(reaches(full, user, obj, rel, Set::empty(), n));
    }
}

/// Adding a tuple never revokes: whatever was granted before stays
/// granted.
pub proof fn lemma_grant_monotone(
    rels: Seq<RelTupleV>,
    t: RelTupleV,
    user: UserV,
    obj: ObjectV,
    rel: RelationV,
)
    requires
        granted(rels, user, obj, rel),
    ensures
        granted(rels.push(t), user, obj, rel),
{
    let n = choose|n: nat| reaches(rels, user, obj, rel, Set::empty(), n);
    lemma_reaches_push(rels, t, user, obj, rel, n);
}

/// A chain in the extended store that cannot step through the new tuple
/// is already a chain in the old store.
proof fn lemma_reaches_drop_unrelated(
    rels: Seq<RelTupleV>,
    t: RelTupleV,
    user: UserV,
    obj: ObjectV,
    rel: RelationV,
    n: nat,
)
    requires
        reaches(rels.push(t), user, obj, rel, Set::empty(), n),
        forall|m: nat| !steps_to(rels.push(t), user, t.user, m),
    ensures
        granted(rels, user, obj, rel),
    decreases n,
{
    let full = rels.push(t);
    if direct_grant(full, user, obj, rel) {
        let target = RelTupleV { object: obj, relation: rel, user: user };
        let i = choose|i: int| 0 <= i < full.len() && full[i] == target;
        if i == rels.len() {
            assert(t.user == user);
            assert(steps_to(full, user, t.user, 0));
        } else {
            assert(rels[i] == target);
            assert(direct_grant(rels, user, obj, rel));
            assert(reaches(rels, user, obj, rel, Set::empty(), 0));
        }
    } else {
        let i = choose|i: int|
            0 <= i < full.len() && full[i].user == user && !Set::<UserV>::empty().contains(
                promoted_of(full[i]),
            ) && reaches(full, promoted_of(full[i]), obj, rel, Set::empty(), (n - 1) as nat);
        if i == rels.len() {
            assert(t.user == user);
            assert(steps_to(full, user, t.user, 0));
        } else {
            let q = promoted_of(rels[i]);
            assert(full[i] == rels[i]);
            assert forall|m: nat| !steps_to(full, q, t.user, m) by {
                if steps_to(full, q, t.user, m) {
                    assert(0 <= i < full.len() && full[i].user == user && steps_to(
                        full,
                        promoted_of(full[i]),
                        t.user,
                        m,
                    ));
                    assert(steps_to(full, user, t.user, m + 1));
                }
            }
            lemma_reaches_drop_unrelated(rels, t, q, obj, rel, (n - 1) as nat);
            let m = choose|m: nat| reaches(rels, q, obj, rel, Set::empty(), m);
            assert(0 <= i < rels.len() && rels[i].user == user && !Set::<UserV>::empty().contains(
                q,
            ) && reaches(rels, promoted_of(rels[i]), obj, rel, Set::empty(), m));
            assert(reaches(rels, user, obj, rel, Set::empty(), m + 1));
        }
    }
}

/// Irrelevance of unrelated tuples: adding a tuple whose subject no
/// promotion chain from `user` reaches changes no verdict for `user`.
pub proof fn lemma_unrelated_tuple_irrelevant(
    rels: Seq<RelTupleV>,
    t: RelTupleV,
    user: UserV,
    obj: ObjectV,
    rel: RelationV,
)
    requires
        forall|m: nat| !steps_to(rels.push(t), user, t.user, m),
    ensures
        granted(rels.push(t), user, obj, rel) <==> granted(rels, user, obj, rel),
{
    if granted(rels.push(t), user, obj, rel) {
        let n = choose|n: nat| reaches(rels.push(t), user, obj, rel, Set::empty(), n);
        lemma_reaches_drop_unrelated(rels, t, user, obj, rel, n);
    }
    if granted(rels, user, obj, rel) {
        lemma_grant_monotone(rels, t, user, obj, rel);
    }
}

/// No chain of any length ends in a grant when no stored tuple carries
/// the queried object and relation.
proof fn lemma_reaches_needs_matching(
    rels: Seq<RelTupleV>,
    user: UserV,
    obj: ObjectV,
    rel: RelationV,
    n: nat,
)
    requires
        forall|i: int|
            0 <= i < rels.len() ==> !((#[trigger] rels[i]).object == obj && rels[i].relation
                == rel),
    ensures
        !reaches(rels, user, obj, rel, Set::empty(), n),
    decreases n,
{
    if reaches(rels, user, obj, rel, Set::empty(), n) {
        if direct_grant(rels, user, obj, rel) {
            let target = RelTupleV { object: obj, relation: rel, user: user };
            let i = choose|i: int| 0 <= i < rels.len() && rels[i] == target;
            assert(rels[i].object == obj && rels[i].relation == rel);
        } else {
            let i = choose|i: int|
                0 <= i < rels.len() && rels[i].user == user && !Set::<UserV>::empty().contains(
                    promoted_of(rels[i]),
                ) && reaches(rels, promoted_of(rels[i]), obj, rel, Set::empty(), (n - 1) as nat);
            lemma_reaches_needs_matching(rels, promoted_of(rels[i]), obj, rel, (n - 1) as nat);
        }
    }
}

/// Cycle safety, the verdict half: a store with no tuple on the queried
/// object and relation -- a pure membership cycle among groups, say --
/// grants nothing, whatever chains its tuples form.  (That the search
/// also terminates on such data is part of the engine's definition:
/// every function of this library is total.)
pub proof fn lemma_no_matching_tuple_no_grant(
    rels: Seq<RelTupleV>,
    user: UserV,
    obj: ObjectV,
    rel: RelationV,
)
    requires
        forall|i: int|
            0 <= i < rels.len() ==> !((#[trigger] rels[i]).object == obj && rels[i].relation
                == rel),
    ensures
        !granted(rels, user, obj, rel),
{
    assert forall|n: nat| !reaches(rels, user, obj, rel, Set::empty(), n) by {
        lemma_reaches_needs_matching(rels, user, obj, rel, n);
    }
}

} // verus!
