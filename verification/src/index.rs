//! Product index: a prefix index over normalized product names.
//!
//! Names are canonicalized on the way in (see [`crate::text`]), stored once
//! each, and answered back for exact and prefix lookups. Matches come out in
//! insertion order, which is the stable enumeration order of this index.

use vstd::prelude::*;
use crate::text::{
    bytes_eq,
    bytes_is_prefix,
    clone_bytes,
    is_prefix_of,
    normalize,
    normalize_spec,
    views_of,
};

verus! {

/// The names of `names` that have `prefix` as a prefix, in order.
pub open spec fn matching_names(names: Seq<Seq<u8>>, prefix: Seq<u8>) -> Seq<Seq<u8>>
    decreases names.len(),
{
    if names.len() == 0 {
        Seq::empty()
    } else {
        matching_names(names.drop_last(), prefix) + if is_prefix_of(prefix, names.last()) {
            seq![names.last()]
        } else {
            Seq::empty()
        }
    }
}

/// The first `k` elements of `s`, or all of `s` when it is shorter.
pub open spec fn take_at_most(s: Seq<Seq<u8>>, k: int) -> Seq<Seq<u8>> {
    if s.len() <= k {
        s
    } else {
        s.take(k)
    }
}

/// Extending the scanned names by one extends the matches by that name
/// exactly when it carries the prefix.
proof fn lemma_matching_step(names: Seq<Seq<u8>>, i: int, prefix: Seq<u8>)
    requires
        0 <= i < names.len(),
    ensures
        matching_names(names.take(i + 1), prefix) == matching_names(names.take(i), prefix) + if is_prefix_of(
            prefix,
            names[i],
        ) {
            seq![names[i]]
        } else {
            Seq::<Seq<u8>>::empty()
        },
{
    assert(names.take(i + 1).drop_last() =~= names.take(i));
    assert(names.take(i + 1).last() == names[i]);
}

/// An index of previously seen product names.
///
/// The model is the sequence of distinct normalized names in insertion
/// order.
pub struct ProductIndex {
    names: Vec<Vec<u8>>,
}

impl ProductIndex {
    /// The stored normalized names, in insertion order.
    pub closed spec fn names(self) -> Seq<Seq<u8>> {
        views_of(self.names@)
    }

    /// Structural invariant: no name is stored twice.
    pub closed spec fn wf(self) -> bool {
        forall|i: int, j: int|
            0 <= i < j < self.names@.len() ==> #[trigger] self.names@[i]@ != #[trigger] self.names@[j]@
    }

    /// An empty index.
    pub fn new() -> (s: Self)
        ensures
            s.wf(),
            s.names() == Seq::<Seq<u8>>::empty(),
    {
        let s = ProductIndex { names: Vec::new() };
        proof {
            assert(s.names() =~= Seq::<Seq<u8>>::empty());
        }
        s
    }

    /// Whether the normalized form of `name` was inserted before.
    pub fn contains(&self, name: &Vec<u8>) -> (r: bool)
        requires
            self.wf(),
        ensures
            r == self.names().contains(normalize_spec(name@)),
    {
        let norm = normalize(name);
        let mut i: usize = 0;
        while i < self.names.len()
            invariant
                norm@ == normalize_spec(name@),
                i <= self.names@.len(),
                forall|k: int| 0 <= k < i ==> #[trigger] self.names@[k]@ != norm@,
            decreases self.names@.len() - i,
        {
            if bytes_eq(&self.names[i], &norm) {
                assert(self.names()[i as int] == norm@);
                return true;
            }
            i = i + 1;
        }
        proof {
            assert forall|k: int| 0 <= k < self.names().len() implies self.names()[k]
                != normalize_spec(name@) by {
                assert(self.names()[k] == self.names@[k]@);
                assert(self.names@[k]@ != norm@);
            }
        }
        false
    }

    /// Record the normalized form of `name`; idempotent.
    pub fn insert(&mut self, name: &Vec<u8>)
        requires
            old(self).wf(),
        ensures
            final(self).wf(),
            final(self).names() == if old(self).names().contains(normalize_spec(name@)) {
                old(self).names()
            } else {
                old(self).names().push(normalize_spec(name@))
            },
    {
        if !self.contains(name) {
            let norm = normalize(name);
            proof {
                assert forall|k: int| 0 <= k < self.names@.len() implies #[trigger] self.names@[k]@
                    != norm@ by {
                    if self.names@[k]@ == norm@ {
                        assert(self.names()[k] == self.names@[k]@);
                        assert(self.names().contains(normalize_spec(name@)));
                    }
                }
            }
            self.names.push(norm);
            proof {
                assert(final(self).names() =~= old(self).names().push(normalize_spec(name@)));
            }
        }
    }

    /// Up to `limit` stored names sharing the normalized form of `prefix`,
    /// in insertion order.
    pub fn prefix_matches(&self, prefix: &Vec<u8>, limit: usize) -> (r: Vec<Vec<u8>>)
        requires
            self.wf(),
        ensures
            views_of(r@) == take_at_most(
                matching_names(self.names(), normalize_spec(prefix@)),
                limit as int,
            ),
    {
        let norm = normalize(prefix);
        let ghost p: Seq<u8> = norm@;
        let mut out: Vec<Vec<u8>> = Vec::new();
        proof {
            assert(views_of(out@) =~= take_at_most(
                matching_names(self.names().take(0), p),
                limit as int,
            ));
        }
        let mut i: usize = 0;
        while i < self.names.len()
            invariant
                self.wf(),
                p == normalize_spec(prefix@),
                norm@ == p,
                i <= self.names@.len(),
                out@.len() <= limit,
                views_of(out@) == take_at_most(
                    matching_names(self.names().take(i as int), p),
                    limit as int,
                ),
            decreases self.names@.len() - i,
        {
            let ghost pre = matching_names(self.names().take(i as int), p);
            proof {
                lemma_matching_step(self.names(), i as int, p);
                lemma_matching_len(self.names().take(i as int), p);
                assert(self.names()[i as int] == self.names@[i as int]@);
            }
            if out.len() < limit && bytes_is_prefix(&norm, &self.names[i]) {
                let ghost out_pre = out@;
                let c = clone_bytes(&self.names[i]);
                let ghost cv = c@;
                out.push(c);
                proof {
                    assert(views_of(out_pre).len() == out_pre.len());
                    assert(pre.len() == out_pre.len()) by {
                        if pre.len() > limit {
                            assert(take_at_most(pre, limit as int).len() == limit as int);
                        }
                    }
                    assert(take_at_most(pre, limit as int) == pre);
                    assert(views_of(out@) =~= views_of(out_pre).push(cv));
                    assert(matching_names(self.names().take(i + 1 as int), p) == pre.push(cv))
                        by {
                        assert(is_prefix_of(p, self.names()[i as int]));
                        assert(pre + seq![self.names()[i as int]] =~= pre.push(cv));
                    }
                    assert((pre.push(cv)).len() <= limit as int);
                    assert(take_at_most(pre.push(cv), limit as int) == pre.push(cv));
                    assert(views_of(out@) =~= take_at_most(
                        matching_names(self.names().take(i + 1 as int), p),
                        limit as int,
                    ));
                }
            } else {
                proof {
                    assert(views_of(out@).len() == out@.len());
                    if is_prefix_of(p, self.names@[i as int]@) {
                        assert(out@.len() == limit);
                        assert(pre.len() >= limit) by {
                            if pre.len() < limit {
                                assert(take_at_most(pre, limit as int) == pre);
                            }
                        }
                        let ghost x = self.names()[i as int];
                        assert(matching_names(self.names().take(i + 1 as int), p) == pre + seq![x]);
                        assert(take_at_most(pre + seq![x], limit as int) =~= take_at_most(
                            pre,
                            limit as int,
                        ));
                    } else {
                        assert(matching_names(self.names().take(i + 1 as int), p) =~= pre);
                    }
                    assert(views_of(out@) =~= take_at_most(
                        matching_names(self.names().take(i + 1 as int), p),
                        limit as int,
                    ));
                }
            }
            i = i + 1;
        }
        proof {
            assert(self.names().take(self.names().len() as int) =~= self.names());
        }
        out
    }
}

/// The number of prefix matches never exceeds the number of names.
pub proof fn lemma_matching_len(names: Seq<Seq<u8>>, prefix: Seq<u8>)
    ensures
        matching_names(names, prefix).len() <= names.len(),
    decreases names.len(),
{
    if names.len() > 0 {
        lemma_matching_len(names.drop_last(), prefix);
    }
}

/// Every prefix match is a name that was inserted, and it carries the
/// prefix.
pub proof fn lemma_matching_subset(names: Seq<Seq<u8>>, prefix: Seq<u8>, n: Seq<u8>)
    requires
        matching_names(names, prefix).contains(n),
    ensures
        names.contains(n),
        is_prefix_of(prefix, n),
    decreases names.len(),
{
    if names.len() > 0 {
        let rest = matching_names(names.drop_last(), prefix);
        if rest.contains(n) {
            lemma_matching_subset(names.drop_last(), prefix, n);
            let i = choose|i: int| 0 <= i < names.drop_last().len() && names.drop_last()[i] == n;
            assert(names[i] == n);
        } else {
            assert(is_prefix_of(prefix, names.last()) && n == names.last());
            assert(names[names.len() - 1] == n);
        }
    }
}

/// A name in the index stays in the index, whatever is inserted after it.
pub proof fn lemma_index_never_loses(names: Seq<Seq<u8>>, added: Seq<u8>, n: Seq<u8>)
    requires
        names.contains(n),
    ensures
        names.push(added).contains(n),
{
    let i = choose|i: int| 0 <= i < names.len() && names[i] == n;
    assert(names.push(added)[i] == n);
}

} // verus!
