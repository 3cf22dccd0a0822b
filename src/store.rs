use vstd::prelude::*;

verus! {

/// What the store holds for one correlation token: the credential, when it
/// was stored and for how many seconds it stays live.
pub struct StoredCredential {
    pub credential: Seq<char>,
    pub stored_at: u64,
    pub ttl: u64,
}

/// Whether an entry stored at `stored_at` for `ttl` seconds is still live at
/// time `now`.
pub open spec fn is_live(stored_at: u64, ttl: u64, now: u64) -> bool {
    now < stored_at + ttl
}

/// What a lookup of `token` at time `now` finds in the store contents `m`:
/// the credential of a live entry, nothing for an absent or expired one.
pub open spec fn lookup(m: Map<Seq<char>, StoredCredential>, token: Seq<char>, now: u64) -> Option<
    Seq<char>,
> {
    if m.contains_key(token) && is_live(m[token].stored_at, m[token].ttl, now) {
        Some(m[token].credential)
    } else {
        None
    }
}

/// One binding of the store.
struct Entry {
    token: String,
    credential: String,
    stored_at: u64,
    ttl: u64,
}

/// A cache of credentials keyed by correlation token, each entry live for a
/// fixed number of seconds after it was stored. Times are seconds on a clock
/// that the caller supplies.
pub struct CredentialStore {
    entries: Vec<Entry>,
    contents: Ghost<Map<Seq<char>, StoredCredential>>,
}

impl View for CredentialStore {
    type V = Map<Seq<char>, StoredCredential>;

    closed spec fn view(&self) -> Self::V {
        self.contents@
    }
}

impl CredentialStore {
    /// The entries hold each token once, and they are the contents.
    pub closed spec fn wf(&self) -> bool {
        &&& forall|i: int, j: int|
            0 <= i < j < self.entries@.len() ==> #[trigger] self.entries@[i].token@
                != #[trigger] self.entries@[j].token@
        &&& forall|i: int|
            0 <= i < self.entries@.len() ==> self.contents@.contains_key(
                #[trigger] self.entries@[i].token@,
            ) && self.contents@[self.entries@[i].token@] == (StoredCredential {
                credential: self.entries@[i].credential@,
                stored_at: self.entries@[i].stored_at,
                ttl: self.entries@[i].ttl,
            })
        &&& forall|k: Seq<char>|
            #[trigger] self.contents@.contains_key(k) ==> exists|i: int|
                0 <= i < self.entries@.len() && self.entries@[i].token@ == k
    }

    /// An empty store.
    pub fn new() -> (r: CredentialStore)
        ensures
            r.wf(),
            r@ == Map::<Seq<char>, StoredCredential>::empty(),
    {
        CredentialStore { entries: Vec::new(), contents: Ghost(Map::empty()) }
    }

    /// The position of the entry for `token`, if there is one.
    fn position(&self, token: &String) -> (r: Option<usize>)
        requires
            self.wf(),
        ensures
            match r {
                Some(j) => j < self.entries@.len() && self.entries@[j as int].token@ == token@,
                None => !self@.contains_key(token@),
            },
    {
        let mut j: usize = 0;
        while j < self.entries.len()
            invariant
                0 <= j <= self.entries@.len(),
                forall|k: int| 0 <= k < j ==> self.entries@[k].token@ != token@,
            decreases self.entries@.len() - j,
        {
            if self.entries[j].token == *token {
                return Some(j);
            }
            j = j + 1;
        }
        None
    }

    /// Binds `credential` to `token` at time `now`, live for `ttl` seconds;
    /// an earlier binding of `token` is replaced.
    pub fn put(&mut self, token: String, credential: String, ttl: u64, now: u64)
        requires
            old(self).wf(),
        ensures
            final(self).wf(),
            final(self)@ == old(self)@.insert(
                token@,
                StoredCredential { credential: credential@, stored_at: now, ttl },
            ),
    {
        let ghost value = StoredCredential { credential: credential@, stored_at: now, ttl };
        let ghost before = self.entries@;
        let ghost key = token@;
        match self.position(&token) {
            Some(j) => {
                self.entries.set(j, Entry { token, credential, stored_at: now, ttl });
                self.contents = Ghost(self.contents@.insert(key, value));
                assert forall|a: int, b: int| 0 <= a < b < self.entries@.len() implies #[trigger]
                    self.entries@[a].token@ != #[trigger] self.entries@[b].token@ by {
                    assert(before[a].token@ != before[b].token@);
                }
                assert forall|k: Seq<char>| #[trigger] self.contents@.contains_key(k) implies exists|
                    i: int,
                | 0 <= i < self.entries@.len() && self.entries@[i].token@ == k by {
                    if k != key {
                        let i = choose|i: int| 0 <= i < before.len() && before[i].token@ == k;
                        assert(self.entries@[i].token@ == k);
                    } else {
                        assert(self.entries@[j as int].token@ == k);
                    }
                }
            },
            None => {
                self.entries.push(Entry { token, credential, stored_at: now, ttl });
                self.contents = Ghost(self.contents@.insert(key, value));
                assert forall|a: int, b: int| 0 <= a < b < self.entries@.len() implies #[trigger]
                    self.entries@[a].token@ != #[trigger] self.entries@[b].token@ by {
                    if b < before.len() {
                        assert(before[a].token@ != before[b].token@);
                    }
                }
                assert forall|k: Seq<char>| #[trigger] self.contents@.contains_key(k) implies exists|
                    i: int,
                | 0 <= i < self.entries@.len() && self.entries@[i].token@ == k by {
                    if k != key {
                        let i = choose|i: int| 0 <= i < before.len() && before[i].token@ == k;
                        assert(self.entries@[i].token@ == k);
                    } else {
                        assert(self.entries@[before.len() as int].token@ == k);
                    }
                }
            },
        }
    }

    /// The credential bound to `token`, if its entry is still live at time
    /// `now`; absence and expiry are alike a miss.
    pub fn get(&self, token: &str, now: u64) -> (r: Option<String>)
        requires
            self.wf(),
        ensures
            match r {
                Some(c) => lookup(self@, token@, now) == Some(c@),
                None => lookup(self@, token@, now) is None,
            },
    {
        let key: String = token.to_owned();
        match self.position(&key) {
            None => None,
            Some(j) => {
                let e: &Entry = &self.entries[j];
                if now < e.stored_at || now - e.stored_at < e.ttl {
                    Some(e.credential.clone())
                } else {
                    None
                }
            },
        }
    }
}

/// A credential stored under a token is found under that token while its
/// entry is live, and not after it expired.
pub proof fn lemma_put_then_get(
    m: Map<Seq<char>, StoredCredential>,
    token: Seq<char>,
    credential: Seq<char>,
    stored_at: u64,
    ttl: u64,
    now: u64,
)
    ensures
        lookup(m.insert(token, StoredCredential { credential, stored_at, ttl }), token, now) == if now
            < stored_at + ttl {
            Some(credential)
        } else {
            None::<Seq<char>>
        },
{
}

/// Storing under one token leaves what every other token finds unchanged.
pub proof fn lemma_put_keeps_others(
    m: Map<Seq<char>, StoredCredential>,
    token: Seq<char>,
    other: Seq<char>,
    value: StoredCredential,
    now: u64,
)
    requires
        other != token,
    ensures
        lookup(m.insert(token, value), other, now) == lookup(m, other, now),
{
}

} // verus!
