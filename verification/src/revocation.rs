//! The revocation registry: tokens invalidated before their natural expiry.
//!
//! Membership is answered from a hash set. Beside it the registry keeps the
//! revoked tokens in the order in which they were first revoked, so that
//! compaction has something definite to keep: the most recent ones.

use vstd::prelude::*;
use vstd::hash_set::StringHashSet;
use crate::error::AuthError;

verus! {

/// How many revoked tokens the periodic cleanup retains.
pub const REVOKED_RETENTION: usize = 1000;

/// The set of revoked tokens.
pub struct RevocationRegistry {
    order: Vec<String>,
    members: StringHashSet,
}

impl View for RevocationRegistry {
    type V = Set<Seq<char>>;

    closed spec fn view(&self) -> Set<Seq<char>> {
        self.members@
    }
}

/// The most recent `retain` entries of `entries`, or all of them if there
/// are no more than that.
pub open spec fn most_recent(entries: Seq<Seq<char>>, retain: nat) -> Seq<Seq<char>> {
    if entries.len() > retain {
        entries.skip(entries.len() - retain)
    } else {
        entries
    }
}

/// `entries` with `token` added at the end unless it is already there.
pub open spec fn with_revoked(entries: Seq<Seq<char>>, token: Seq<char>) -> Seq<Seq<char>> {
    if entries.contains(token) {
        entries
    } else {
        entries.push(token)
    }
}

impl RevocationRegistry {
    /// The revoked tokens, oldest first.
    pub closed spec fn entries(&self) -> Seq<Seq<char>> {
        self.order@.map_values(|t: String| t@)
    }

    /// The ordered entries list each revoked token exactly once.
    pub open spec fn wf(&self) -> bool {
        &&& self.entries().no_duplicates()
        &&& self.entries().to_set() == self@
    }

    /// An empty registry.
    pub fn new() -> (registry: Self)
        ensures
            registry.wf(),
            registry@ == Set::<Seq<char>>::empty(),
            registry.entries() == Seq::<Seq<char>>::empty(),
    {
        let registry = RevocationRegistry { order: Vec::new(), members: StringHashSet::new() };
        assert(registry.entries() =~= Seq::<Seq<char>>::empty());
        assert(registry.entries().to_set() =~= Set::<Seq<char>>::empty());
        registry
    }

    /// Whether `token` has been revoked.
    pub fn is_revoked(&self, token: &str) -> (revoked: bool)
        ensures
            revoked == self@.contains(token@),
    {
        self.members.contains(token)
    }

    /// The number of revoked tokens held.
    pub fn len(&self) -> (n: usize)
        requires
            self.wf(),
        ensures
            n == self.entries().len(),
            n == self@.len(),
    {
        proof {
            self.entries().unique_seq_to_set();
        }
        self.order.len()
    }

    /// Drops all but the `retain_count` most recently revoked tokens. A
    /// registry that holds no more than that is left as it is.
    pub fn compact(&mut self, retain_count: usize)
        requires
            old(self).wf(),
        ensures
            final(self).wf(),
            final(self).entries() == most_recent(old(self).entries(), retain_count as nat),
            final(self)@.subset_of(old(self)@),
            final(self).entries().len() <= retain_count,
    {
        let n = self.order.len();
        if n <= retain_count {
            return ;
        }
        let first = n - retain_count;
        let ghost all = self.entries();
        let mut kept: Vec<String> = Vec::new();
        let mut index = StringHashSet::new();
        let mut i: usize = first;
        assert(all.subrange(first as int, first as int) =~= Seq::<Seq<char>>::empty());
        assert(Seq::<Seq<char>>::empty().to_set() =~= Set::<Seq<char>>::empty());
        while i < n
            invariant
                first <= i <= n,
                n == self.order.len(),
                all == self.entries(),
                all == self.order@.map_values(|t: String| t@),
                kept@.map_values(|t: String| t@) == all.subrange(first as int, i as int),
                index@ == all.subrange(first as int, i as int).to_set(),
            decreases n - i,
        {
            let token = self.order[i].clone();
            let again = self.order[i].clone();
            proof {
                let before = all.subrange(first as int, i as int);
                assert(all.subrange(first as int, i + 1) =~= before.push(all[i as int]));
                assert(kept@.push(token).map_values(|t: String| t@) =~= before.push(all[i as int]));
                before.lemma_push_to_set_commute(all[i as int]);
            }
            kept.push(token);
            index.insert(again);
            i += 1;
        }
        self.order = kept;
        self.members = index;
        proof {
            let tail = all.skip(first as int);
            assert(all.subrange(first as int, n as int) =~= tail);
            assert(self.entries() == tail);
            assert(tail.no_duplicates());
            assert forall|t: Seq<char>| tail.to_set().contains(t) implies all.to_set().contains(
                t,
            ) by {
                let j = choose|j: int| 0 <= j < tail.len() && tail[j] == t;
                assert(all[first + j] == t);
            }
        }
    }
}

/// Revokes a token. Revoking a token again changes nothing, and the call
/// never fails.
pub fn revoke_token(registry: &mut RevocationRegistry, token: &str) -> (r: Result<(), AuthError>)
    requires
        old(registry).wf(),
    ensures
        r is Ok,
        final(registry).wf(),
        final(registry)@ == old(registry)@.insert(token@),
        final(registry).entries() == with_revoked(old(registry).entries(), token@),
{
    if !registry.members.contains(token) {
        let ghost before = registry.entries();
        registry.order.push(token.to_owned());
        registry.members.insert(token.to_owned());
        proof {
            assert(registry.entries() =~= before.push(token@));
            before.lemma_push_to_set_commute(token@);
            assert(!before.contains(token@));
        }
    } else {
        assert(registry@.insert(token@) =~= registry@);
    }
    Ok(())
}

/// The periodic cleanup: keeps the most recent [`REVOKED_RETENTION`] revoked
/// tokens.
pub fn cleanup_revoked_tokens(registry: &mut RevocationRegistry)
    requires
        old(registry).wf(),
    ensures
        final(registry).wf(),
        final(registry).entries() == most_recent(
            old(registry).entries(),
            REVOKED_RETENTION as nat,
        ),
        final(registry)@.subset_of(old(registry)@),
        final(registry).entries().len() <= REVOKED_RETENTION,
{
    registry.compact(REVOKED_RETENTION)
}

} // verus!
