//! The tuple store: a multiset of relation tuples, kept in insertion
//! order.  Duplicate insertion is permitted and adds one more copy; tuples
//! are never mutated or removed.

use vstd::prelude::*;

use crate::model::{RelTuple, RelTupleV, User, UserV};

verus! {

/// Lifts a sequence of stored tuples to their mathematical values.
pub open spec fn tuple_views(s: Seq<RelTuple>) -> Seq<RelTupleV> {
    s.map_values(|t: RelTuple| t@)
}

/// The subsequence of `rels` whose subject equals `u`, in stored order:
/// what the store's one query primitive returns.
pub open spec fn matching_tuples(rels: Seq<RelTupleV>, u: UserV) -> Seq<RelTupleV>
    decreases rels.len(),
{
    if rels.len() == 0 {
        Seq::empty()
    } else if rels.last().user == u {
        matching_tuples(rels.drop_last(), u).push(rels.last())
    } else {
        matching_tuples(rels.drop_last(), u)
    }
}

/// The tuple store.  Its mathematical value (`self@`) is the sequence of
/// stored tuple values, in insertion order.
pub struct RelDB {
    pub(crate) rels: Vec<RelTuple>,
}

impl View for RelDB {
    type V = Seq<RelTupleV>;

    closed spec fn view(&self) -> Seq<RelTupleV> {
        tuple_views(self.rels@)
    }
}

impl RelDB {
    /// Creates an empty store.
    pub fn new() -> (db: RelDB)
        ensures
            db@ == Seq::<RelTupleV>::empty(),
    {
        let db = RelDB { rels: Vec::new() };
        proof {
            assert(db@ =~= Seq::<RelTupleV>::empty());
        }
        db
    }

    /// Appends one tuple.  Always succeeds; the store grows by exactly one
    /// element, and every previously stored tuple is kept unchanged.
    pub fn add(&mut self, rel: RelTuple)
        ensures
            final(self)@ == old(self)@.push(rel@),
    {
        self.rels.push(rel);
        proof {
            assert(self@ =~= old(self)@.push(self.rels@.last()@));
        }
    }

    /// Number of stored tuples, duplicates counted.
    pub fn len(&self) -> (n: usize)
        ensures
            n == self@.len(),
    {
        self.rels.len()
    }

    /// The stored tuple at position `i`, in insertion order.
    pub fn tuple_at(&self, i: usize) -> (t: &RelTuple)
        requires
            i < self@.len(),
        ensures
            t@ == self@[i as int],
    {
        &self.rels[i]
    }

    /// Returns every stored tuple whose subject is structurally equal to
    /// `user`, in insertion order.
    pub fn tuples_with_subject(&self, user: &User) -> (res: Vec<RelTuple>)
        ensures
            tuple_views(res@) == matching_tuples(self@, user@),
    {
        let mut res: Vec<RelTuple> = Vec::new();
        let mut i: usize = 0;
        proof {
            assert(tuple_views(res@) =~= matching_tuples(self@.take(0), user@));
        }
        while i < self.rels.len()
            invariant
                i <= self.rels@.len(),
                tuple_views(res@) == matching_tuples(self@.take(i as int), user@),
            decreases self.rels@.len() - i,
        {
            let ghost done = self@.take(i as int);
            let ghost elem = self@[i as int];
            let ghost res0 = res@;
            if self.rels[i].user == *user {
                res.push(self.rels[i].clone());
                proof {
                    assert(elem.user == user@);
                    assert(res@.last()@ == elem);
                    assert(tuple_views(res@) =~= tuple_views(res0).push(elem));
                }
            } else {
                proof {
                    assert(elem.user != user@);
                }
            }
            proof {
                let next = self@.take(i as int + 1);
                assert(next.drop_last() =~= done);
                assert(next.last() == elem);
                assert(matching_tuples(next, user@) == (if elem.user == user@ {
                    matching_tuples(done, user@).push(elem)
                } else {
                    matching_tuples(done, user@)
                }));
            }
            i += 1;
        }
        proof {
            assert(self@.take(self@.len() as int) =~= self@);
        }
        res
    }
}

} // verus!
