//! The achievement-token registry: unique, admin-initialized collectible
//! tokens tied to a puzzle, with per-owner collections, transfer and burn.
//!
//! Token ids are assigned densely starting at 1 and are never reused; a
//! burned token leaves a permanent gap.  Each owner's collection lists
//! exactly the live tokens that the owner holds, in order of acquisition.

use vstd::prelude::*;
use std::collections::HashMap;
use crate::events::Address;

verus! {

broadcast use vstd::std_specs::hash::group_hash_axioms;

/// Why a registry operation was rejected.  Every error leaves the state
/// unchanged.
#[derive(Clone, Copy, Debug, PartialEq, Eq)]
pub enum NftError {
    AlreadyInitialized,
    TokenNotFound,
    NotOwner,
}

/// One collectible achievement token.
#[derive(Clone, Debug)]
pub struct Achievement {
    pub owner: Address,
    pub puzzle_id: u32,
    pub metadata: String,
    pub timestamp: u64,
}

/// The mathematical value of an [`Achievement`].
pub struct AchievementV {
    pub owner: Address,
    pub puzzle_id: u32,
    pub metadata: Seq<char>,
    pub timestamp: u64,
}

impl View for Achievement {
    type V = AchievementV;

    open spec fn view(&self) -> AchievementV {
        AchievementV {
            owner: self.owner,
            puzzle_id: self.puzzle_id,
            metadata: self.metadata@,
            timestamp: self.timestamp,
        }
    }
}

/// How many of the stored token slots are live (not burned).
spec fn count_live(s: Seq<Option<Achievement>>) -> nat
    decreases s.len(),
{
    if s.len() == 0 {
        0
    } else {
        count_live(s.drop_last()) + (if s.last() is Some {
            1nat
        } else {
            0nat
        })
    }
}

proof fn lemma_count_live_push(s: Seq<Option<Achievement>>, v: Option<Achievement>)
    ensures
        count_live(s.push(v)) == count_live(s) + (if v is Some {
            1nat
        } else {
            0nat
        }),
{
    assert(s.push(v).drop_last() =~= s);
    assert(s.push(v).last() == v);
}

proof fn lemma_count_live_update(s: Seq<Option<Achievement>>, i: int, v: Option<Achievement>)
    requires
        0 <= i < s.len(),
    ensures
        count_live(s.update(i, v)) + (if s[i] is Some {
            1nat
        } else {
            0nat
        }) == count_live(s) + (if v is Some {
            1nat
        } else {
            0nat
        }),
    decreases s.len(),
{
    let su = s.update(i, v);
    if i == s.len() - 1 {
        assert(su.drop_last() =~= s.drop_last());
        assert(su.last() == v);
    } else {
        assert(su.drop_last() =~= s.drop_last().update(i, v));
        lemma_count_live_update(s.drop_last(), i, v);
        assert(su.last() == s.last());
    }
}

proof fn lemma_count_live_le_len(s: Seq<Option<Achievement>>)
    ensures
        count_live(s) <= s.len(),
    decreases s.len(),
{
    if s.len() > 0 {
        lemma_count_live_le_len(s.drop_last());
    }
}

proof fn lemma_count_live_ge_one(s: Seq<Option<Achievement>>, i: int)
    requires
        0 <= i < s.len(),
        s[i] is Some,
    ensures
        count_live(s) >= 1,
    decreases s.len(),
{
    if i < s.len() - 1 {
        lemma_count_live_ge_one(s.drop_last(), i);
    }
}

proof fn lemma_push_contains_other(s: Seq<u32>, x: u32, y: u32)
    requires
        y != x,
    ensures
        s.push(x).contains(y) == s.contains(y),
{
    if s.contains(y) {
        let j = choose|j: int| 0 <= j < s.len() && s[j] == y;
        assert(s.push(x)[j] == y);
    }
    if s.push(x).contains(y) {
        let j = choose|j: int| 0 <= j < s.push(x).len() && s.push(x)[j] == y;
        assert(0 <= j < s.len());
        assert(s[j] == y);
    }
}

proof fn lemma_remove_contains_other(s: Seq<u32>, i: int, y: u32)
    requires
        0 <= i < s.len(),
        s[i] != y,
    ensures
        s.remove(i).contains(y) == s.contains(y),
{
    let sr = s.remove(i);
    if s.contains(y) {
        let j = choose|j: int| 0 <= j < s.len() && s[j] == y;
        if j < i {
            assert(sr[j] == y);
        } else {
            assert(sr[j - 1] == y);
        }
    }
    if sr.contains(y) {
        let j = choose|j: int| 0 <= j < sr.len() && sr[j] == y;
        if j < i {
            assert(s[j] == y);
        } else {
            assert(s[j + 1] == y);
        }
    }
}

proof fn lemma_remove_nodup(s: Seq<u32>, i: int)
    requires
        0 <= i < s.len(),
        s.no_duplicates(),
    ensures
        !s.remove(i).contains(s[i]),
        s.remove(i).no_duplicates(),
{
    let sr = s.remove(i);
    if sr.contains(s[i]) {
        let j = choose|j: int| 0 <= j < sr.len() && sr[j] == s[i];
        if j < i {
            assert(s[j] == s[i]);
        } else {
            assert(s[j + 1] == s[i]);
        }
    }
}

/// The first position of `x` in `s`.
pub open spec fn first_index(s: Seq<u32>, x: u32) -> int {
    choose|i: int| 0 <= i < s.len() && s[i] == x
}

/// The position of the first occurrence of `x` in `v`, if any.
fn vec_index_of(v: &Vec<u32>, x: u32) -> (r: Option<usize>)
    ensures
        match r {
            Some(i) => i < v.len() && v@[i as int] == x && forall|j: int| 0 <= j < i ==> v@[j] != x,
            None => !v@.contains(x),
        },
{
    let n = v.len();
    let mut i: usize = 0;
    while i < n
        invariant
            n == v.len(),
            i <= n,
            forall|j: int| 0 <= j < i ==> v@[j] != x,
        decreases n - i,
    {
        if v[i] == x {
            return Some(i);
        }
        i = i + 1;
    }
    None
}

/// The token registry.
#[derive(Clone, Debug)]
pub struct AchievementNFT {
    admin: Option<Address>,
    tokens: Vec<Option<Achievement>>,
    collections: HashMap<Address, Vec<u32>>,
    total: u32,
}

impl AchievementNFT {
    // ───────────── The mathematical view of the state ─────────────

    /// Whether `initialize` has run.
    pub closed spec fn is_initialized(&self) -> bool {
        self.admin is Some
    }

    /// The administrator set at initialization.
    pub closed spec fn spec_admin(&self) -> Address {
        self.admin->Some_0
    }

    /// How many token ids have ever been assigned (live or burned).
    pub closed spec fn num_tokens(&self) -> int {
        self.tokens@.len() as int
    }

    /// Whether a live (minted and not burned) token has this id.
    pub closed spec fn live(&self, token_id: u32) -> bool {
        &&& 1 <= token_id <= self.tokens@.len()
        &&& self.tokens@[token_id - 1] is Some
    }

    /// The live token with this id.
    pub closed spec fn token_v(&self, token_id: u32) -> AchievementV {
        self.tokens@[token_id - 1]->Some_0@
    }

    /// The ids in `owner`'s collection, in order of acquisition.
    pub closed spec fn collection_of(&self, owner: Address) -> Seq<u32> {
        if self.collections@.contains_key(owner) {
            self.collections@[owner]@
        } else {
            Seq::<u32>::empty()
        }
    }

    /// How many live tokens exist.
    pub closed spec fn spec_total_supply(&self) -> u32 {
        self.total
    }

    /// Every entry of `owner`'s collection is a live token that `owner`
    /// holds, and no id is listed twice.
    spec fn col_entries_ok(&self, owner: Address) -> bool {
        let c = self.collection_of(owner);
        &&& forall|j: int|
            0 <= j < c.len() ==> {
                let t = #[trigger] c[j];
                &&& 1 <= t <= self.tokens@.len()
                &&& self.tokens@[t - 1] is Some
                &&& self.tokens@[t - 1]->Some_0.owner == owner
            }
        &&& c.no_duplicates()
    }

    /// The state invariant: the live count matches the supply counter,
    /// one more token id is still assignable, every live token appears in
    /// its owner's collection, and every collection is consistent.
    pub closed spec fn wf(&self) -> bool {
        &&& self.tokens@.len() < u32::MAX - 1
        &&& self.total == count_live(self.tokens@)
        &&& forall|t: u32|
            #[trigger] self.live(t) ==> self.collection_of(self.token_v(t).owner).contains(t)
        &&& forall|o: Address| #[trigger] self.col_entries_ok(o)
    }

    // ───────────── Construction and initialization ─────────────

    /// An empty, uninitialized registry.
    pub fn new() -> (r: Self)
        ensures
            r.wf(),
            !r.is_initialized(),
            r.num_tokens() == 0,
            r.spec_total_supply() == 0,
            forall|o: Address| #[trigger] r.collection_of(o) == Seq::<u32>::empty(),
    {
        let r = AchievementNFT {
            admin: None,
            tokens: Vec::new(),
            collections: HashMap::new(),
            total: 0,
        };
        proof {
            assert(forall|o: Address| #[trigger] r.collection_of(o) =~= Seq::<u32>::empty());
        }
        r
    }

    /// Sets the administrator.  Fails if the registry was already
    /// initialized.
    pub fn initialize(&mut self, admin: Address) -> (r: Result<(), NftError>)
        requires
            old(self).wf(),
        ensures
            final(self).wf(),
            match r {
                Ok(()) => {
                    &&& !old(self).is_initialized()
                    &&& final(self).is_initialized()
                    &&& final(self).spec_admin() == admin
                    &&& final(self).num_tokens() == old(self).num_tokens()
                    &&& final(self).spec_total_supply() == old(self).spec_total_supply()
                    &&& forall|t: u32| #[trigger] final(self).live(t) == old(self).live(t)
                    &&& forall|o: Address|
                        #[trigger] final(self).collection_of(o) == old(self).collection_of(o)
                },
                Err(e) => {
                    &&& e == NftError::AlreadyInitialized
                    &&& old(self).is_initialized()
                    &&& *final(self) == *old(self)
                },
            },
    {
        if self.admin.is_some() {
            return Err(NftError::AlreadyInitialized);
        }
        self.admin = Some(admin);
        proof {
            assert forall|o: Address| #[trigger] self.col_entries_ok(o) by {
                assert(old(self).col_entries_ok(o));
            }
            assert forall|t: u32| #[trigger] self.live(t) implies self.collection_of(
                self.token_v(t).owner,
            ).contains(t) by {
                assert(old(self).live(t));
            }
        }
        Ok(())
    }

    // ───────────── Minting ─────────────

    /// Mints a new token for `to` and returns its id, the next unused one.
    /// `timestamp` is the ledger instant recorded on the token.
    pub fn mint(&mut self, to: Address, puzzle_id: u32, metadata: String, timestamp: u64) -> (r:
        u32)
        requires
            old(self).wf(),
            old(self).is_initialized(),
            old(self).num_tokens() < u32::MAX - 2,
        ensures
            final(self).wf(),
            final(self).is_initialized(),
            r == old(self).num_tokens() + 1,
            final(self).num_tokens() == old(self).num_tokens() + 1,
            final(self).live(r),
            final(self).token_v(r) == (AchievementV {
                owner: to,
                puzzle_id,
                metadata: metadata@,
                timestamp,
            }),
            forall|t: u32| t != r ==> #[trigger] final(self).live(t) == old(self).live(t),
            forall|t: u32|
                old(self).live(t) ==> #[trigger] final(self).token_v(t) == old(self).token_v(t),
            final(self).collection_of(to) == old(self).collection_of(to).push(r),
            forall|o: Address|
                o != to ==> #[trigger] final(self).collection_of(o) == old(self).collection_of(o),
            final(self).spec_total_supply() == old(self).spec_total_supply() + 1,
            final(self).spec_admin() == old(self).spec_admin(),
    {
        let token_id: u32 = (self.tokens.len() as u32) + 1;
        proof {
            lemma_count_live_le_len(self.tokens@);
        }
        self.tokens.push(
            Some(Achievement { owner: to, puzzle_id, metadata, timestamp }),
        );
        let mut col = match self.collections.remove(&to) {
            Some(c) => c,
            None => Vec::new(),
        };
        col.push(token_id);
        self.collections.insert(to, col);
        self.total = self.total + 1;
        proof {
            lemma_count_live_push(
                old(self).tokens@,
                self.tokens@.last(),
            );
            let pre = *old(self);
            let post = *self;
            assert(post.collection_of(to) =~= pre.collection_of(to).push(token_id));
            assert forall|t: u32| #[trigger] post.live(t) implies post.collection_of(
                post.token_v(t).owner,
            ).contains(t) by {
                if t == token_id {
                    let c = post.collection_of(to);
                    assert(c[c.len() - 1] == t);
                } else {
                    assert(pre.live(t));
                    let o = pre.token_v(t).owner;
                    if o == to {
                        lemma_push_contains_other(pre.collection_of(to), token_id, t);
                    }
                }
            }
            assert forall|o: Address| #[trigger] post.col_entries_ok(o) by {
                assert(pre.col_entries_ok(o));
                let c = post.collection_of(o);
                if o == to {
                    let c0 = pre.collection_of(to);
                    assert forall|j: int| 0 <= j < c.len() implies {
                        let t = #[trigger] c[j];
                        &&& 1 <= t <= post.tokens@.len()
                        &&& post.tokens@[t - 1] is Some
                        &&& post.tokens@[t - 1]->Some_0.owner == o
                    } by {
                        if j < c0.len() {
                            assert(c[j] == c0[j]);
                        } else {
                            assert(c[j] == token_id);
                        }
                    }
                    assert forall|j1: int, j2: int| 0 <= j1 < j2 < c.len() implies c[j1] != c[j2] by {
                        if j2 == c.len() - 1 {
                            assert(c0[j1] <= pre.tokens@.len());
                        }
                    }
                    assert(c.no_duplicates());
                }
            }
        }
        token_id
    }

    // ───────────── Transfer and burn ─────────────

    /// Moves a live token from `from` to `to`: the token's owner changes,
    /// the id leaves `from`'s collection and is appended to `to`'s.
    pub fn transfer(&mut self, from: Address, to: Address, token_id: u32) -> (r: Result<
        (),
        NftError,
    >)
        requires
            old(self).wf(),
        ensures
            final(self).wf(),
            match r {
                Ok(()) => {
                    &&& old(self).live(token_id)
                    &&& old(self).token_v(token_id).owner == from
                    &&& final(self).token_v(token_id) == (AchievementV {
                        owner: to,
                        ..old(self).token_v(token_id)
                    })
                    &&& forall|t: u32| #[trigger] final(self).live(t) == old(self).live(t)
                    &&& forall|t: u32|
                        old(self).live(t) && t != token_id ==> #[trigger] final(self).token_v(t)
                            == old(self).token_v(t)
                    &&& {
                        let c_from = old(self).collection_of(from);
                        let c1 = c_from.remove(first_index(c_from, token_id));
                        if to == from {
                            final(self).collection_of(to) == c1.push(token_id)
                        } else {
                            final(self).collection_of(from) == c1 && final(self).collection_of(to)
                                == old(self).collection_of(to).push(token_id)
                        }
                    }
                    &&& forall|o: Address|
                        o != from && o != to ==> #[trigger] final(self).collection_of(o) == old(
                            self,
                        ).collection_of(o)
                    &&& final(self).num_tokens() == old(self).num_tokens()
                    &&& final(self).spec_total_supply() == old(self).spec_total_supply()
                    &&& final(self).is_initialized() == old(self).is_initialized()
                },
                Err(e) => {
                    &&& *final(self) == *old(self)
                    &&& (if !old(self).live(token_id) {
                        e == NftError::TokenNotFound
                    } else {
                        e == NftError::NotOwner && old(self).token_v(token_id).owner != from
                    })
                },
            },
    {
        let n: usize = self.tokens.len();
        if token_id < 1 || token_id > n as u32 {
            return Err(NftError::TokenNotFound);
        }
        let tidx: usize = (token_id - 1) as usize;
        let (puzzle_id, timestamp, metadata) = match &self.tokens[tidx] {
            None => {
                return Err(NftError::TokenNotFound);
            },
            Some(a) => {
                if a.owner != from {
                    return Err(NftError::NotOwner);
                }
                (a.puzzle_id, a.timestamp, a.metadata.clone())
            },
        };
        let ghost pre = *old(self);
        let mut from_col = match self.collections.remove(&from) {
            Some(c) => c,
            None => Vec::new(),
        };
        proof {
            assert(pre.live(token_id));
            assert(pre.collection_of(from).contains(token_id));
            assert(from_col@ == pre.collection_of(from));
        }
        let i = match vec_index_of(&from_col, token_id) {
            Some(i) => i,
            None => {
                proof {
                    assert(false);
                }
                0
            },
        };
        from_col.remove(i);
        self.collections.insert(from, from_col);
        let mut to_col = match self.collections.remove(&to) {
            Some(c) => c,
            None => Vec::new(),
        };
        to_col.push(token_id);
        self.collections.insert(to, to_col);
        self.tokens[tidx] = Some(
            Achievement { owner: to, puzzle_id, metadata, timestamp },
        );
        proof {
            let post = *self;
            let c_from = pre.collection_of(from);
            assert(pre.col_entries_ok(from));
            assert(first_index(c_from, token_id) == i) by {
                let fi = first_index(c_from, token_id);
                assert(0 <= fi < c_from.len() && c_from[fi] == token_id);
                assert(c_from[i as int] == token_id);
            }
            let c1 = c_from.remove(i as int);
            lemma_remove_nodup(c_from, i as int);
            lemma_count_live_update(
                pre.tokens@,
                token_id - 1,
                post.tokens@[token_id - 1],
            );
            if to == from {
                assert(post.collection_of(to) =~= c1.push(token_id));
            } else {
                assert(post.collection_of(from) =~= c1);
                assert(post.collection_of(to) =~= pre.collection_of(to).push(token_id));
            }
            assert forall|t: u32| #[trigger] post.live(t) implies post.collection_of(
                post.token_v(t).owner,
            ).contains(t) by {
                if t == token_id {
                    let c = post.collection_of(to);
                    assert(c[c.len() - 1] == t);
                } else {
                    assert(pre.live(t));
                    let o = pre.token_v(t).owner;
                    assert(post.token_v(t) == pre.token_v(t));
                    assert(pre.collection_of(o).contains(t));
                    if o == from && o == to {
                        lemma_remove_contains_other(c_from, i as int, t);
                        lemma_push_contains_other(c1, token_id, t);
                    } else if o == from {
                        lemma_remove_contains_other(c_from, i as int, t);
                    } else if o == to {
                        lemma_push_contains_other(pre.collection_of(to), token_id, t);
                    }
                }
            }
            assert forall|o: Address| #[trigger] post.col_entries_ok(o) by {
                assert(pre.col_entries_ok(o));
                let c = post.collection_of(o);
                if o == to {
                    let c0 = if to == from {
                        c1
                    } else {
                        pre.collection_of(to)
                    };
                    assert forall|j: int| 0 <= j < c.len() implies {
                        let t = #[trigger] c[j];
                        &&& 1 <= t <= post.tokens@.len()
                        &&& post.tokens@[t - 1] is Some
                        &&& post.tokens@[t - 1]->Some_0.owner == o
                    } by {
                        if j < c0.len() {
                            assert(c[j] == c0[j]);
                            if to == from {
                                assert(c0[j] == c_from[if j < i as int {
                                    j
                                } else {
                                    j + 1
                                }]);
                            }
                            assert(c[j] != token_id);
                        } else {
                            assert(c[j] == token_id);
                        }
                    }
                    assert forall|j1: int, j2: int| 0 <= j1 < j2 < c.len() implies c[j1] != c[j2] by {
                        if j2 == c.len() - 1 {
                            if to == from {
                                lemma_remove_nodup(c_from, i as int);
                                assert(!c1.contains(token_id));
                                assert(c1[j1] != token_id) by {
                                    if c1[j1] == token_id {
                                        assert(c1.contains(token_id));
                                    }
                                }
                            } else {
                                assert(!pre.collection_of(to).contains(token_id)) by {
                                    if pre.collection_of(to).contains(token_id) {
                                        let j = choose|j: int|
                                            0 <= j < pre.collection_of(to).len()
                                                && pre.collection_of(to)[j] == token_id;
                                        assert(pre.col_entries_ok(to));
                                        assert(pre.tokens@[token_id - 1]->Some_0.owner == to);
                                    }
                                }
                                assert(c0[j1] != token_id) by {
                                    if c0[j1] == token_id {
                                        assert(c0.contains(token_id));
                                    }
                                }
                            }
                        }
                    }
                    assert(c.no_duplicates());
                } else if o == from {
                    assert forall|j: int| 0 <= j < c.len() implies {
                        let t = #[trigger] c[j];
                        &&& 1 <= t <= post.tokens@.len()
                        &&& post.tokens@[t - 1] is Some
                        &&& post.tokens@[t - 1]->Some_0.owner == o
                    } by {
                        assert(c[j] == c_from[if j < i as int {
                            j
                        } else {
                            j + 1
                        }]);
                        assert(!c1.contains(token_id));
                        assert(c[j] != token_id) by {
                            if c[j] == token_id {
                                assert(c1.contains(token_id));
                            }
                        }
                    }
                }
            }
        }
        Ok(())
    }

    /// Burns a live token: it disappears from the registry and from its
    /// owner's collection, and the supply shrinks by one.  Its id is never
    /// reused.
    pub fn burn(&mut self, token_id: u32) -> (r: Result<(), NftError>)
        requires
            old(self).wf(),
        ensures
            final(self).wf(),
            match r {
                Ok(()) => {
                    &&& old(self).live(token_id)
                    &&& !final(self).live(token_id)
                    &&& forall|t: u32| t != token_id ==> #[trigger] final(self).live(t) == old(
                        self,
                    ).live(t)
                    &&& forall|t: u32|
                        old(self).live(t) && t != token_id ==> #[trigger] final(self).token_v(t)
                            == old(self).token_v(t)
                    &&& {
                        let owner = old(self).token_v(token_id).owner;
                        let c = old(self).collection_of(owner);
                        final(self).collection_of(owner) == c.remove(first_index(c, token_id))
                    }
                    &&& forall|o: Address|
                        o != old(self).token_v(token_id).owner ==> #[trigger] final(self).collection_of(o) == old(self).collection_of(o)
                    &&& final(self).num_tokens() == old(self).num_tokens()
                    &&& final(self).spec_total_supply() == old(self).spec_total_supply() - 1
                    &&& final(self).is_initialized() == old(self).is_initialized()
                },
                Err(e) => {
                    &&& e == NftError::TokenNotFound
                    &&& !old(self).live(token_id)
                    &&& *final(self) == *old(self)
                },
            },
    {
        let n: usize = self.tokens.len();
        if token_id < 1 || token_id > n as u32 {
            return Err(NftError::TokenNotFound);
        }
        let tidx: usize = (token_id - 1) as usize;
        let owner = match &self.tokens[tidx] {
            None => {
                return Err(NftError::TokenNotFound);
            },
            Some(a) => a.owner,
        };
        let ghost pre = *old(self);
        proof {
            lemma_count_live_ge_one(pre.tokens@, token_id - 1);
        }
        let mut col = match self.collections.remove(&owner) {
            Some(c) => c,
            None => Vec::new(),
        };
        proof {
            assert(pre.live(token_id));
            assert(pre.collection_of(owner).contains(token_id));
            assert(col@ == pre.collection_of(owner));
        }
        let i = match vec_index_of(&col, token_id) {
            Some(i) => i,
            None => {
                proof {
                    assert(false);
                }
                0
            },
        };
        col.remove(i);
        self.collections.insert(owner, col);
        self.tokens[tidx] = None;
        self.total = self.total - 1;
        proof {
            let post = *self;
            let c_owner = pre.collection_of(owner);
            assert(pre.col_entries_ok(owner));
            assert(first_index(c_owner, token_id) == i) by {
                let fi = first_index(c_owner, token_id);
                assert(0 <= fi < c_owner.len() && c_owner[fi] == token_id);
                assert(c_owner[i as int] == token_id);
            }
            let c1 = c_owner.remove(i as int);
            lemma_remove_nodup(c_owner, i as int);
            lemma_count_live_update(pre.tokens@, token_id - 1, None);
            assert(post.collection_of(owner) =~= c1);
            assert forall|t: u32| #[trigger] post.live(t) implies post.collection_of(
                post.token_v(t).owner,
            ).contains(t) by {
                assert(t != token_id);
                assert(pre.live(t));
                let o = pre.token_v(t).owner;
                assert(pre.collection_of(o).contains(t));
                if o == owner {
                    lemma_remove_contains_other(c_owner, i as int, t);
                }
            }
            assert forall|o: Address| #[trigger] post.col_entries_ok(o) by {
                assert(pre.col_entries_ok(o));
                let c = post.collection_of(o);
                if o == owner {
                    assert forall|j: int| 0 <= j < c.len() implies {
                        let t = #[trigger] c[j];
                        &&& 1 <= t <= post.tokens@.len()
                        &&& post.tokens@[t - 1] is Some
                        &&& post.tokens@[t - 1]->Some_0.owner == o
                    } by {
                        assert(c[j] == c_owner[if j < i as int {
                            j
                        } else {
                            j + 1
                        }]);
                        assert(c[j] != token_id) by {
                            if c[j] == token_id {
                                assert(c1.contains(token_id));
                            }
                        }
                    }
                }
            }
        }
        Ok(())
    }

    // ───────────── Read functions ─────────────

    /// The ids in `owner`'s collection, oldest acquisition first.
    pub fn get_collection(&self, owner: Address) -> (r: Vec<u32>)
        ensures
            r@ == self.collection_of(owner),
    {
        match self.collections.get(&owner) {
            Some(c) => {
                let r = c.clone();
                proof {
                    assert(r@ =~= self.collection_of(owner));
                }
                r
            },
            None => Vec::new(),
        }
    }

    /// The owner of a live token.
    pub fn owner_of(&self, token_id: u32) -> (r: Result<Address, NftError>)
        requires
            self.wf(),
        ensures
            match r {
                Ok(owner) => self.live(token_id) && owner == self.token_v(token_id).owner,
                Err(e) => e == NftError::TokenNotFound && !self.live(token_id),
            },
    {
        let n: usize = self.tokens.len();
        if token_id < 1 || token_id > n as u32 {
            return Err(NftError::TokenNotFound);
        }
        let tidx: usize = (token_id - 1) as usize;
        match &self.tokens[tidx] {
            None => Err(NftError::TokenNotFound),
            Some(a) => Ok(a.owner),
        }
    }

    /// How many live tokens exist.
    pub fn total_supply(&self) -> (r: u32)
        ensures
            r == self.spec_total_supply(),
    {
        self.total
    }

    /// A copy of the live token with this id, if any.
    pub fn get_achievement(&self, token_id: u32) -> (r: Option<Achievement>)
        requires
            self.wf(),
        ensures
            match r {
                Some(a) => self.live(token_id) && a@ == self.token_v(token_id),
                None => !self.live(token_id),
            },
    {
        let n: usize = self.tokens.len();
        if token_id < 1 || token_id > n as u32 {
            return None;
        }
        let tidx: usize = (token_id - 1) as usize;
        match &self.tokens[tidx] {
            None => None,
            Some(a) => Some(
                Achievement {
                    owner: a.owner,
                    puzzle_id: a.puzzle_id,
                    metadata: a.metadata.clone(),
                    timestamp: a.timestamp,
                },
            ),
        }
    }
}

// ───────────── Laws ─────────────

/// Law: the supply never exceeds the number of ids ever assigned, so a
/// registry that has minted `n` tokens can have burned at most `n`.
pub proof fn lemma_supply_bounded(s: AchievementNFT)
    requires
        s.wf(),
    ensures
        0 <= s.spec_total_supply() <= s.num_tokens(),
{
    assert(s.spec_total_supply() == count_live(s.tokens@));
    lemma_count_live_le_len(s.tokens@);
}

} // verus!
