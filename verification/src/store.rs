//! The approval store: the registry of pending incidents awaiting human
//! confirmation. Each entry is identified by an opaque token and moves at
//! most once from pending to used; the callers hold the store under one lock,
//! so the check-and-set below is the whole critical section.

use crate::config::Config;
use vstd::prelude::*;
use vstd::slice::slice_index_get;

verus! {

/// One pending incident: its token, the configuration snapshot taken at
/// registration, and whether its ticket submission was already triggered.
pub struct PendingApproval {
    pub token: String,
    pub snapshot: Config,
    pub used: bool,
}

/// What `consume` found: the snapshot of a pending entry now marked used, an
/// entry already used before, or no entry under that token.
pub enum ConsumeResult {
    Approved(Config),
    AlreadyUsed,
    UnknownToken,
}

/// The position of the first entry carrying the token, if any.
pub open spec fn spec_find_token(s: Seq<PendingApproval>, t: Seq<char>) -> Option<int>
    decreases s.len(),
{
    if s.len() == 0 {
        None
    } else if s[0].token@ == t {
        Some(0)
    } else {
        match spec_find_token(s.drop_first(), t) {
            Some(i) => Some(i + 1),
            None => None,
        }
    }
}

/// `spec_find_token` returns the first carrier of the token.
pub proof fn lemma_find_token_characterizes(s: Seq<PendingApproval>, t: Seq<char>)
    ensures
        match spec_find_token(s, t) {
            Some(i) => 0 <= i < s.len() && s[i].token@ == t && forall|j: int|
                0 <= j < i ==> s[j].token@ != t,
            None => forall|j: int| 0 <= j < s.len() ==> s[j].token@ != t,
        },
    decreases s.len(),
{
    if s.len() > 0 && s[0].token@ != t {
        lemma_find_token_characterizes(s.drop_first(), t);
        match spec_find_token(s.drop_first(), t) {
            Some(i) => {
                assert(s.drop_first()[i] == s[i + 1]);
                assert forall|j: int| 0 <= j < i + 1 implies s[j].token@ != t by {
                    if j > 0 {
                        assert(s[j] == s.drop_first()[j - 1]);
                    }
                }
            },
            None => {
                assert forall|j: int| 0 <= j < s.len() implies s[j].token@ != t by {
                    if j > 0 {
                        assert(s[j] == s.drop_first()[j - 1]);
                    }
                }
            },
        }
    }
}

/// The registry of pending approvals. Entries are never removed; a consumed
/// entry stays, marked used.
pub struct ApprovalStore {
    entries: Vec<PendingApproval>,
}

impl ApprovalStore {
    /// The entries, oldest first.
    pub closed spec fn pending(&self) -> Seq<PendingApproval> {
        self.entries@
    }

    pub fn new() -> (s: Self)
        ensures
            s.pending() == Seq::<PendingApproval>::empty(),
    {
        ApprovalStore { entries: Vec::new() }
    }

    /// How many entries the store holds.
    pub fn len(&self) -> (n: usize)
        ensures
            n == self.pending().len(),
    {
        self.entries.len()
    }

    /// Registers a pending incident: stores a fresh unpredictable token with
    /// the snapshot and returns the token. The store grows by exactly this
    /// one pending entry.
    pub fn register(&mut self, snapshot: Config) -> (token: String)
        ensures
            final(self).pending() == old(self).pending().push(
                (PendingApproval { token: token, snapshot: snapshot, used: false }),
            ),
            token@.len() == 36,
    {
        let token = crate::text::fresh_opaque_id();
        let entry = PendingApproval { token: token.clone(), snapshot, used: false };
        self.entries.push(entry);
        token
    }

    /// Consumes a token under the store's lock: an absent token yields
    /// nothing; an entry already used yields nothing but the fact; a pending
    /// entry is atomically marked used and its snapshot returned. Exactly one
    /// consume of a token can return the snapshot.
    pub fn consume(&mut self, token: &str) -> (r: ConsumeResult)
        ensures
            ({
                match spec_find_token(old(self).pending(), token@) {
                    None => r is UnknownToken && final(self).pending() == old(self).pending(),
                    Some(i) => {
                        if old(self).pending()[i].used {
                            r is AlreadyUsed && final(self).pending() == old(self).pending()
                        } else {
                            (r matches ConsumeResult::Approved(c) && c == old(
                                self,
                            ).pending()[i].snapshot) && final(self).pending() == old(
                                self,
                            ).pending().update(
                                i,
                                (PendingApproval {
                                    token: old(self).pending()[i].token,
                                    snapshot: old(self).pending()[i].snapshot,
                                    used: true,
                                }),
                            )
                        }
                    },
                }
            }),
    {
        let ghost s0 = self.entries@;
        proof {
            lemma_find_token_characterizes(s0, token@);
            assert(s0.skip(0) =~= s0);
        }
        let n = self.entries.len();
        let mut i: usize = 0;
        while i < n
            invariant
                n == self.entries@.len(),
                self.entries@ == s0,
                s0 == old(self).pending(),
                0 <= i <= n,
                spec_find_token(s0, token@) == (match spec_find_token(
                    s0.skip(i as int),
                    token@,
                ) {
                    Some(k) => Some(k + i),
                    None => None::<int>,
                }),
            decreases n - i,
        {
            let e = slice_index_get(self.entries.as_slice(), i);
            proof {
                assert(s0.skip(i as int)[0] == s0[i as int]);
                assert(s0.skip(i as int).drop_first() =~= s0.skip(i + 1));
            }
            if crate::text::str_eq(e.token.as_str(), token) {
                proof {
                    assert(spec_find_token(s0, token@) == Some(i as int));
                }
                if e.used {
                    return ConsumeResult::AlreadyUsed;
                }
                let mut entry = self.entries.remove(i);
                let cfg = entry.snapshot.snapshot();
                entry.used = true;
                self.entries.insert(i, entry);
                proof {
                    assert(self.entries@ =~= s0.update(
                        i as int,
                        (PendingApproval {
                            token: s0[i as int].token,
                            snapshot: s0[i as int].snapshot,
                            used: true,
                        }),
                    ));
                }
                return ConsumeResult::Approved(cfg);
            }
            i = i + 1;
        }
        proof {
            assert(s0.skip(n as int).len() == 0);
        }
        ConsumeResult::UnknownToken
    }
}

/// Law: a token is consumed at most once. After a consume that returned the
/// snapshot (the entry at `i` moved from pending to used), a second consume
/// of the same token finds the same entry already used, and so returns no
/// snapshot and changes nothing.
pub proof fn lemma_consume_at_most_once(s0: Seq<PendingApproval>, t: Seq<char>, i: int)
    requires
        spec_find_token(s0, t) == Some(i),
        0 <= i < s0.len(),
        !s0[i].used,
    ensures
        ({
            let s1 = s0.update(
                i,
                (PendingApproval { token: s0[i].token, snapshot: s0[i].snapshot, used: true }),
            );
            spec_find_token(s1, t) == Some(i) && s1[i].used
        }),
{
    let s1 = s0.update(
        i,
        (PendingApproval { token: s0[i].token, snapshot: s0[i].snapshot, used: true }),
    );
    lemma_find_token_characterizes(s0, t);
    assert(s1[i].token@ == t);
    assert forall|j: int| 0 <= j < i implies s1[j].token@ != t by {
        assert(s1[j] == s0[j]);
    }
    lemma_first_token_is_find(s1, t, i);
}

/// The first carrier of the token determines `spec_find_token`.
proof fn lemma_first_token_is_find(s: Seq<PendingApproval>, t: Seq<char>, i: int)
    requires
        0 <= i < s.len(),
        s[i].token@ == t,
        forall|j: int| 0 <= j < i ==> s[j].token@ != t,
    ensures
        spec_find_token(s, t) == Some(i),
    decreases i,
{
    if i == 0 {
    } else {
        assert(s.drop_first()[i - 1] == s[i]);
        assert forall|j: int| 0 <= j < i - 1 implies s.drop_first()[j].token@ != t by {
            assert(s.drop_first()[j] == s[j + 1]);
        }
        lemma_first_token_is_find(s.drop_first(), t, i - 1);
    }
}

} // verus!
