//! In-memory registry of single-use refresh tokens.
//!
//! The registry is a finite map from an opaque random token string to the
//! subject (email) it was issued for, together with an absolute expiry.
//! Its invariants are the point of this module: a token is consumed at
//! most once (a successful lookup removes it in the same operation),
//! entries past their expiry are never handed out, and rotation —
//! consuming the old token and registering its replacement — is one step
//! of the registry, so a caller that holds the registry behind a single
//! lock gets rotation as one atomic critical section.

use vstd::prelude::*;
use rand::Rng;

verus! {

/// Lifetime of a refresh token, in seconds.
pub const REFRESH_TOKEN_TTL_SECS: usize = 604800;

/// What the registry stores for one token: the subject it was issued for
/// and the absolute epoch second past which it is dead.
pub struct RegistryEntry {
    pub subject: String,
    pub expires_at: usize,
}

/// The finite map denoted by a sequence of `(token, entry)` pairs; a later
/// pair with the same token wins.  A value of the map is the pair of the
/// subject and the expiry.
pub open spec fn map_of(s: Seq<(String, RegistryEntry)>) -> Map<Seq<char>, (Seq<char>, usize)>
    decreases s.len(),
{
    if s.len() == 0 {
        Map::empty()
    } else {
        map_of(s.drop_last()).insert(s.last().0@, (s.last().1.subject@, s.last().1.expires_at))
    }
}

/// No two pairs carry the same token.
pub open spec fn keys_unique(s: Seq<(String, RegistryEntry)>) -> bool {
    forall|a: int, b: int| 0 <= a < b < s.len() ==> s[a].0@ != s[b].0@
}

proof fn lemma_keys_unique_drop_last(s: Seq<(String, RegistryEntry)>)
    requires
        s.len() > 0,
        keys_unique(s),
    ensures
        keys_unique(s.drop_last()),
{
    assert forall|a: int, b: int| 0 <= a < b < s.drop_last().len() implies s.drop_last()[a].0@
        != s.drop_last()[b].0@ by {
        assert(s.drop_last()[a] == s[a]);
        assert(s.drop_last()[b] == s[b]);
    }
}

proof fn lemma_keys_unique_remove(s: Seq<(String, RegistryEntry)>, i: int)
    requires
        0 <= i < s.len(),
        keys_unique(s),
    ensures
        keys_unique(s.remove(i)),
{
    assert forall|a: int, b: int| 0 <= a < b < s.remove(i).len() implies s.remove(i)[a].0@
        != s.remove(i)[b].0@ by {
        if a < i {
            assert(s.remove(i)[a] == s[a]);
        } else {
            assert(s.remove(i)[a] == s[a + 1]);
        }
        if b < i {
            assert(s.remove(i)[b] == s[b]);
        } else {
            assert(s.remove(i)[b] == s[b + 1]);
        }
    }
}

/// A token is a key of the denoted map exactly when some pair carries it.
proof fn lemma_map_of_contains(s: Seq<(String, RegistryEntry)>, k: Seq<char>)
    ensures
        map_of(s).contains_key(k) <==> exists|i: int| 0 <= i < s.len() && s[i].0@ == k,
    decreases s.len(),
{
    if s.len() > 0 {
        lemma_map_of_contains(s.drop_last(), k);
        if map_of(s).contains_key(k) {
            if s.last().0@ == k {
                assert(s[s.len() - 1].0@ == k);
            } else {
                let i = choose|i: int|
                    0 <= i < s.drop_last().len() && s.drop_last()[i].0@ == k;
                assert(s[i].0@ == k);
            }
        }
        if exists|i: int| 0 <= i < s.len() && s[i].0@ == k {
            let i = choose|i: int| 0 <= i < s.len() && s[i].0@ == k;
            if i < s.len() - 1 {
                assert(s.drop_last()[i].0@ == k);
            }
        }
    }
}

/// With unique tokens, the pair at any index is what the denoted map holds
/// for its token.
proof fn lemma_map_of_index(s: Seq<(String, RegistryEntry)>, i: int)
    requires
        keys_unique(s),
        0 <= i < s.len(),
    ensures
        map_of(s).contains_key(s[i].0@),
        map_of(s)[s[i].0@] == (s[i].1.subject@, s[i].1.expires_at),
    decreases s.len(),
{
    if i < s.len() - 1 {
        lemma_keys_unique_drop_last(s);
        assert(s.drop_last()[i] == s[i]);
        lemma_map_of_index(s.drop_last(), i);
        assert(s[i].0@ != s.last().0@);
    }
}

/// With unique tokens, removing the pair at an index removes exactly its
/// token from the denoted map.
proof fn lemma_map_of_remove(s: Seq<(String, RegistryEntry)>, i: int)
    requires
        keys_unique(s),
        0 <= i < s.len(),
    ensures
        map_of(s.remove(i)) == map_of(s).remove(s[i].0@),
    decreases s.len(),
{
    let k = s[i].0@;
    if i == s.len() - 1 {
        assert(s.remove(i) =~= s.drop_last());
        lemma_map_of_contains(s.drop_last(), k);
        assert forall|j: int| 0 <= j < s.drop_last().len() implies s.drop_last()[j].0@ != k by {
            assert(s.drop_last()[j] == s[j]);
        }
        assert(!map_of(s.drop_last()).contains_key(k));
        assert(map_of(s.remove(i)) =~= map_of(s).remove(k));
    } else {
        let dl = s.drop_last();
        lemma_keys_unique_drop_last(s);
        assert(dl[i] == s[i]);
        lemma_map_of_remove(dl, i);
        assert(s.remove(i).drop_last() =~= dl.remove(i));
        assert(s.remove(i).last() == s.last());
        assert(s.last().0@ != k);
        assert(map_of(s.remove(i)) =~= map_of(s).remove(k));
    }
}

/// Relies on rand's `Alphanumeric` distribution and `Iterator::take`:
/// sampling 64 values and mapping each to a `char` yields a string of
/// exactly 64 characters.  Nothing further is assumed of a random result.
#[verifier::external_body]
fn random_token() -> (t: String)
    ensures
        t@.len() == 64,
{
    rand::thread_rng()
        .sample_iter(&rand::distributions::Alphanumeric)
        .take(64)
        .map(char::from)
        .collect()
}

fn find_index(entries: &Vec<(String, RegistryEntry)>, token: &String) -> (r: Option<usize>)
    ensures
        match r {
            Some(i) => i < entries@.len() && entries@[i as int].0@ == token@,
            None => forall|j: int| 0 <= j < entries@.len() ==> entries@[j].0@ != token@,
        },
{
    let n = entries.len();
    let mut i: usize = 0;
    while i < n
        invariant
            i <= n,
            n == entries@.len(),
            forall|j: int| 0 <= j < i ==> entries@[j].0@ != token@,
        decreases n - i,
    {
        if entries[i].0 == *token {
            return Some(i);
        }
        i += 1;
    }
    None
}

/// In-memory map from refresh token to subject and expiry, with single-use
/// consumption, time-based expiry and one-step rotation.
pub struct RefreshTokenRegistry {
    entries: Vec<(String, RegistryEntry)>,
}

impl View for RefreshTokenRegistry {
    type V = Map<Seq<char>, (Seq<char>, usize)>;

    closed spec fn view(&self) -> Map<Seq<char>, (Seq<char>, usize)> {
        map_of(self.entries@)
    }
}

impl RefreshTokenRegistry {
    #[verifier::type_invariant]
    closed spec fn inv(&self) -> bool {
        keys_unique(self.entries@)
    }

    /// An empty registry.
    pub fn new() -> (r: Self)
        ensures
            r@ == Map::<Seq<char>, (Seq<char>, usize)>::empty(),
    {
        RefreshTokenRegistry { entries: Vec::new() }
    }

    /// Whether a token is currently registered (live or not yet purged).
    pub fn contains(&self, token: &String) -> (r: bool)
        ensures
            r == self@.contains_key(token@),
    {
        proof {
            use_type_invariant(&*self);
            lemma_map_of_contains(self.entries@, token@);
        }
        find_index(&self.entries, token).is_some()
    }

    fn insert_entry(&mut self, token: &String, subject: &String, expires_at: usize)
        ensures
            final(self)@ == old(self)@.insert(token@, (subject@, expires_at)),
    {
        proof {
            use_type_invariant(&*self);
        }
        let ghost s0 = self.entries@;
        let mut v: Vec<(String, RegistryEntry)> = Vec::new();
        core::mem::swap(&mut self.entries, &mut v);
        let entry = RegistryEntry { subject: subject.clone(), expires_at };
        match find_index(&v, token) {
            Some(i) => {
                proof {
                    lemma_map_of_remove(s0, i as int);
                    lemma_keys_unique_remove(s0, i as int);
                }
                v.remove(i);
                let ghost s1 = v@;
                v.push((token.clone(), entry));
                proof {
                    assert(v@.drop_last() =~= s1);
                    assert forall|j: int| 0 <= j < s1.len() implies s1[j].0@ != token@ by {
                        if j < i {
                            assert(s1[j] == s0[j]);
                        } else {
                            assert(s1[j] == s0[j + 1]);
                        }
                    }
                    assert(map_of(v@) =~= map_of(s0).insert(token@, (subject@, expires_at)));
                }
            },
            None => {
                v.push((token.clone(), entry));
                proof {
                    assert(v@.drop_last() =~= s0);
                    assert(map_of(v@) =~= map_of(s0).insert(token@, (subject@, expires_at)));
                }
            },
        }
        core::mem::swap(&mut self.entries, &mut v);
    }

    /// Register a freshly generated token for `subject`, dead
    /// `REFRESH_TOKEN_TTL_SECS` seconds from `now`, and hand it out.  The
    /// caller learns the token only from the result; nothing else is
    /// promised of its value.
    pub fn create(&mut self, subject: &String, now: usize) -> (t: String)
        requires
            now + REFRESH_TOKEN_TTL_SECS <= usize::MAX,
        ensures
            final(self)@ == old(self)@.insert(
                t@,
                (subject@, (now + REFRESH_TOKEN_TTL_SECS) as usize),
            ),
            t@.len() == 64,
    {
        let t = random_token();
        self.insert_entry(&t, subject, now + REFRESH_TOKEN_TTL_SECS);
        t
    }

    /// Look the token up and remove it in the same operation: a token is
    /// consumed at most once, and a second call with the same token finds
    /// nothing.  An entry whose expiry has been reached is removed but not
    /// handed out: past its lifetime a token is as good as consumed.
    pub fn consume(&mut self, token: &String, now: usize) -> (r: Option<String>)
        ensures
            old(self)@.contains_key(token@) ==> now < old(self)@[token@].1 ==> (r matches Some(
                subject,
            ) && subject@ == old(self)@[token@].0 && final(self)@ == old(self)@.remove(token@)),
            old(self)@.contains_key(token@) ==> now >= old(self)@[token@].1 ==> r is None
                && final(self)@ == old(self)@.remove(token@),
            !old(self)@.contains_key(token@) ==> r is None && final(self)@ == old(self)@,
    {
        proof {
            use_type_invariant(&*self);
            lemma_map_of_contains(self.entries@, token@);
        }
        let mut v: Vec<(String, RegistryEntry)> = Vec::new();
        core::mem::swap(&mut self.entries, &mut v);
        let r = match find_index(&v, token) {
            Some(i) => {
                proof {
                    lemma_map_of_index(v@, i as int);
                    lemma_map_of_remove(v@, i as int);
                    lemma_keys_unique_remove(v@, i as int);
                }
                let pair = v.remove(i);
                if now < pair.1.expires_at {
                    Some(pair.1.subject)
                } else {
                    None
                }
            },
            None => None,
        };
        core::mem::swap(&mut self.entries, &mut v);
        r
    }

    /// Rotation as one step of the registry: consume the presented token
    /// and, exactly when it was registered and still live, register a
    /// fresh replacement for the same subject with a full lifetime from
    /// `now`.  No state in which the old token is gone but no replacement
    /// exists is ever observable to another caller.
    pub fn rotate(&mut self, token: &String, now: usize) -> (r: Option<(String, String)>)
        requires
            now + REFRESH_TOKEN_TTL_SECS <= usize::MAX,
        ensures
            old(self)@.contains_key(token@) ==> now < old(self)@[token@].1 ==> (r matches Some(p)
                && p.0@ == old(self)@[token@].0
                && p.1@.len() == 64
                && final(self)@ == old(self)@.remove(token@).insert(
                p.1@,
                (p.0@, (now + REFRESH_TOKEN_TTL_SECS) as usize),
            )),
            old(self)@.contains_key(token@) ==> now >= old(self)@[token@].1 ==> r is None
                && final(self)@ == old(self)@.remove(token@),
            !old(self)@.contains_key(token@) ==> r is None && final(self)@ == old(self)@,
    {
        match self.consume(token, now) {
            Some(subject) => {
                let fresh = self.create(&subject, now);
                Some((subject, fresh))
            },
            None => None,
        }
    }
}

/// Refresh tokens are single use: after a rotation consumes `token` and
/// registers a replacement that differs from it, the consumed token is no
/// longer in the registry, so of two rotations presenting the same token
/// exactly the one that finds it registered succeeds and the other finds
/// nothing.
pub proof fn lemma_rotate_single_use(
    m: Map<Seq<char>, (Seq<char>, usize)>,
    token: Seq<char>,
    fresh: Seq<char>,
    entry: (Seq<char>, usize),
)
    requires
        m.contains_key(token),
        fresh != token,
    ensures
        !m.remove(token).insert(fresh, entry).contains_key(token),
{
}

/// Rotation continuity: the replacement token a rotation registers is
/// present afterwards and maps to the very subject the consumed token
/// mapped to, so the subject is never left without a registered token.
pub proof fn lemma_rotate_continuity(
    m: Map<Seq<char>, (Seq<char>, usize)>,
    token: Seq<char>,
    fresh: Seq<char>,
    expires_at: usize,
)
    requires
        m.contains_key(token),
    ensures
        m.remove(token).insert(fresh, (m[token].0, expires_at)).contains_key(fresh),
        m.remove(token).insert(fresh, (m[token].0, expires_at))[fresh].0 == m[token].0,
{
}

} // verus!
