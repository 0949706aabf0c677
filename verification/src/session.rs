//! The session store: issues opaque, unguessable tokens bound to one
//! username each and resolves a token back to its username.
//!
//! Uniqueness is structural, not probabilistic-only: every token starts
//! with the hexadecimal stamp of a counter that each mint advances, so two
//! mints can never return equal tokens; the remaining 128 bits come from
//! the process's cryptographic random generator and make a token
//! unguessable.  No expiry policy is applied: a token stays live until the
//! store is dropped, and resolving a token never refreshes or consumes it.

use vstd::prelude::*;
use vstd::string::StringExecFns;
use crate::error::Error;

verus! {

/// The character standing for one hexadecimal digit.
pub open spec fn hex_digit_char(d: int) -> char {
    if d == 0 {
        '0'
    } else if d == 1 {
        '1'
    } else if d == 2 {
        '2'
    } else if d == 3 {
        '3'
    } else if d == 4 {
        '4'
    } else if d == 5 {
        '5'
    } else if d == 6 {
        '6'
    } else if d == 7 {
        '7'
    } else if d == 8 {
        '8'
    } else if d == 9 {
        '9'
    } else if d == 10 {
        'a'
    } else if d == 11 {
        'b'
    } else if d == 12 {
        'c'
    } else if d == 13 {
        'd'
    } else if d == 14 {
        'e'
    } else {
        'f'
    }
}

/// The low `count` hexadecimal digits of `n`, most significant first.
pub open spec fn hex_rec(n: u64, count: nat) -> Seq<char>
    decreases count,
{
    if count == 0 {
        Seq::empty()
    } else {
        hex_rec(n / 16, (count - 1) as nat).push(hex_digit_char((n % 16) as int))
    }
}

/// The full 16-digit hexadecimal rendering of `n`.
pub open spec fn u64_hex(n: u64) -> Seq<char> {
    hex_rec(n, 16)
}

spec fn pow16(c: nat) -> int
    decreases c,
{
    if c == 0 {
        1
    } else {
        16 * pow16((c - 1) as nat)
    }
}

proof fn lemma_pow16_pos(c: nat)
    ensures
        pow16(c) >= 1,
    decreases c,
{
    if c > 0 {
        lemma_pow16_pos((c - 1) as nat);
    }
}

proof fn lemma_hex_rec_len(n: u64, c: nat)
    ensures
        hex_rec(n, c).len() == c,
    decreases c,
{
    if c > 0 {
        lemma_hex_rec_len(n / 16, (c - 1) as nat);
    }
}

proof fn lemma_hex_digit_inj(d1: int, d2: int)
    requires
        0 <= d1 < 16,
        0 <= d2 < 16,
        hex_digit_char(d1) == hex_digit_char(d2),
    ensures
        d1 == d2,
{
}

proof fn lemma_hex_rec_inj(x: u64, y: u64, c: nat)
    requires
        x < pow16(c),
        y < pow16(c),
        hex_rec(x, c) == hex_rec(y, c),
    ensures
        x == y,
    decreases c,
{
    if c == 0 {
    } else {
        lemma_hex_rec_len(x / 16, (c - 1) as nat);
        lemma_hex_rec_len(y / 16, (c - 1) as nat);
        let sx = hex_rec(x / 16, (c - 1) as nat);
        let sy = hex_rec(y / 16, (c - 1) as nat);
        assert(sx.push(hex_digit_char((x % 16) as int)).last() == hex_digit_char(
            (x % 16) as int,
        ));
        assert(sy.push(hex_digit_char((y % 16) as int)).last() == hex_digit_char(
            (y % 16) as int,
        ));
        lemma_hex_digit_inj((x % 16) as int, (y % 16) as int);
        assert(sx =~= sx.push(hex_digit_char((x % 16) as int)).drop_last());
        assert(sy =~= sy.push(hex_digit_char((y % 16) as int)).drop_last());
        lemma_pow16_pos((c - 1) as nat);
        assert((x / 16) < pow16((c - 1) as nat) && (y / 16) < pow16((c - 1) as nat))
            by (nonlinear_arith)
            requires
                x < 16 * pow16((c - 1) as nat),
                y < 16 * pow16((c - 1) as nat),
                pow16((c - 1) as nat) >= 1,
        ;
        lemma_hex_rec_inj(x / 16, y / 16, (c - 1) as nat);
    }
}

/// Full hexadecimal renderings of distinct 64-bit numbers are distinct.
proof fn lemma_u64_hex_inj(x: u64, y: u64)
    requires
        u64_hex(x) == u64_hex(y),
    ensures
        x == y,
{
    assert(pow16(16) > 0xffff_ffff_ffff_ffff) by {
        reveal_with_fuel(pow16, 17);
    }
    lemma_hex_rec_inj(x, y, 16);
}

/// The string standing for one hexadecimal digit.
fn hex_digit_str(d: u64) -> (r: &'static str)
    requires
        d < 16,
    ensures
        r@ =~= seq![hex_digit_char(d as int)],
{
    let r: &'static str = if d == 0 {
        "0"
    } else if d == 1 {
        "1"
    } else if d == 2 {
        "2"
    } else if d == 3 {
        "3"
    } else if d == 4 {
        "4"
    } else if d == 5 {
        "5"
    } else if d == 6 {
        "6"
    } else if d == 7 {
        "7"
    } else if d == 8 {
        "8"
    } else if d == 9 {
        "9"
    } else if d == 10 {
        "a"
    } else if d == 11 {
        "b"
    } else if d == 12 {
        "c"
    } else if d == 13 {
        "d"
    } else if d == 14 {
        "e"
    } else {
        "f"
    };
    proof {
        reveal_strlit("0");
        reveal_strlit("1");
        reveal_strlit("2");
        reveal_strlit("3");
        reveal_strlit("4");
        reveal_strlit("5");
        reveal_strlit("6");
        reveal_strlit("7");
        reveal_strlit("8");
        reveal_strlit("9");
        reveal_strlit("a");
        reveal_strlit("b");
        reveal_strlit("c");
        reveal_strlit("d");
        reveal_strlit("e");
        reveal_strlit("f");
    }
    r
}

/// Appends the low `count` hexadecimal digits of `n`, most significant
/// first.
fn append_hex(s: &mut String, n: u64, count: u64)
    ensures
        final(s)@ == old(s)@ + hex_rec(n, count as nat),
    decreases count,
{
    if count == 0 {
        assert(old(s)@ + hex_rec(n, 0) =~= old(s)@);
    } else {
        append_hex(s, n / 16, count - 1);
        let d = hex_digit_str(n % 16);
        s.append(d);
        proof {
            assert(final(s)@ =~= old(s)@ + hex_rec(n, count as nat));
        }
    }
}

/// Relies on rand::random, backed by the thread-local cryptographic
/// generator: nothing is assumed of the value it returns.
#[verifier::external_body]
fn random_u64() -> u64 {
    rand::random::<u64>()
}

/// One minted association.
pub struct SessionEntry {
    pub token: String,
    pub username: String,
}

/// The association map a sequence of minted entries denotes.
pub open spec fn entries_session_map(s: Seq<SessionEntry>) -> Map<Seq<char>, Seq<char>>
    decreases s.len(),
{
    if s.len() == 0 {
        Map::empty()
    } else {
        entries_session_map(s.drop_last()).insert(s.last().token@, s.last().username@)
    }
}

proof fn lemma_session_map_domain(s: Seq<SessionEntry>, token: Seq<char>)
    ensures
        entries_session_map(s).contains_key(token) <==> exists|i: int|
            0 <= i < s.len() && s[i].token@ == token,
    decreases s.len(),
{
    if s.len() > 0 {
        lemma_session_map_domain(s.drop_last(), token);
        if exists|i: int| 0 <= i < s.len() && s[i].token@ == token {
            let i = choose|i: int| 0 <= i < s.len() && s[i].token@ == token;
            if i < s.len() - 1 {
                assert(s.drop_last()[i].token@ == token);
            }
        }
    }
}

proof fn lemma_session_map_at(s: Seq<SessionEntry>, token: Seq<char>, i: int)
    requires
        0 <= i < s.len(),
        s[i].token@ == token,
        forall|j: int| i < j < s.len() ==> s[j].token@ != token,
    ensures
        entries_session_map(s).contains_key(token),
        entries_session_map(s)[token] == s[i].username@,
    decreases s.len(),
{
    if i == s.len() - 1 {
    } else {
        assert(s.last().token@ != token);
        assert(s.drop_last()[i] == s[i]);
        assert(forall|j: int| i < j < s.drop_last().len() ==> s.drop_last()[j].token@ != token);
        lemma_session_map_at(s.drop_last(), token, i);
    }
}

/// A token whose leading 16 characters are the stamp of a counter value
/// below `c`.
pub open spec fn token_stamped_below(t: Seq<char>, c: u64) -> bool {
    t.len() >= 16 && exists|j: u64| j < c && t.subrange(0, 16) == u64_hex(j)
}

/// Issues opaque session tokens and resolves them back to usernames.  The
/// authoritative owner of every minted association.
pub struct SessionStore {
    counter: u64,
    entries: Vec<SessionEntry>,
}

impl View for SessionStore {
    type V = Map<Seq<char>, Seq<char>>;

    closed spec fn view(&self) -> Map<Seq<char>, Seq<char>> {
        entries_session_map(self.entries@)
    }
}

impl SessionStore {
    /// Structural soundness: minted tokens are pairwise distinct, and each
    /// carries the stamp of a counter value the store has already passed.
    pub closed spec fn wf(self) -> bool {
        &&& forall|i: int, j: int|
            0 <= i < j < self.entries@.len() ==> self.entries@[i].token@
                != self.entries@[j].token@
        &&& forall|i: int|
            0 <= i < self.entries@.len() ==> token_stamped_below(
                #[trigger] self.entries@[i].token@,
                self.counter,
            )
    }

    /// How many tokens this store can still mint.
    pub closed spec fn spec_remaining(self) -> int {
        0xffff_ffff_ffff_ffff - self.counter
    }

    /// An empty store, holding no association.
    pub fn new() -> (r: SessionStore)
        ensures
            r.wf(),
            r@ == Map::<Seq<char>, Seq<char>>::empty(),
            r.spec_remaining() > 0,
    {
        SessionStore { counter: 0, entries: Vec::new() }
    }

    /// Generates an unguessable token, records the association from it to
    /// `username`, and returns it.  The token differs from every token this
    /// store has ever minted; minting fails only when the 64-bit mint
    /// counter is exhausted, and then leaves the store unchanged.
    pub fn new_session_token(&mut self, username: &str) -> (r: Result<String, Error>)
        requires
            old(self).wf(),
        ensures
            final(self).wf(),
            old(self).spec_remaining() > 0 <==> r is Ok,
            r is Ok ==> ({
                &&& !old(self)@.contains_key(r->Ok_0@)
                &&& final(self)@ == old(self)@.insert(r->Ok_0@, username@)
                &&& r->Ok_0@.len() == 48
            }),
            r is Err ==> ({
                &&& *final(self) == *old(self)
                &&& r->Err_0 matches Error::StorageError(_)
            }),
    {
        if self.counter == u64::MAX {
            return Err(Error::StorageError(String::from_str("session token space exhausted")));
        }
        let c = self.counter;
        let r1 = random_u64();
        let r2 = random_u64();
        let mut token = String::new();
        append_hex(&mut token, c, 16);
        append_hex(&mut token, r1, 16);
        append_hex(&mut token, r2, 16);
        proof {
            lemma_hex_rec_len(c, 16);
            lemma_hex_rec_len(r1, 16);
            lemma_hex_rec_len(r2, 16);
            assert(token@.len() == 48);
            assert(token@.subrange(0, 16) =~= u64_hex(c));
            assert forall|i: int|
                0 <= i < self.entries@.len() implies self.entries@[i].token@ != token@ by {
                let t = self.entries@[i].token@;
                assert(token_stamped_below(t, c));
                let j = choose|j: u64| j < c && t.subrange(0, 16) == u64_hex(j);
                if t == token@ {
                    assert(u64_hex(j) == u64_hex(c));
                    lemma_u64_hex_inj(j, c);
                }
            }
            lemma_session_map_domain(self.entries@, token@);
        }
        let ghost tv = token@;
        let minted = token.clone();
        let uname = String::from_str(username);
        self.entries.push(SessionEntry { token, username: uname });
        self.counter = c + 1;
        proof {
            assert(self.entries@.drop_last() =~= old(self).entries@);
            assert(self@ == old(self)@.insert(tv, username@));
            assert forall|i: int|
                0 <= i < self.entries@.len() implies token_stamped_below(
                #[trigger] self.entries@[i].token@,
                self.counter,
            ) by {
                if i < self.entries@.len() - 1 {
                    assert(token_stamped_below(self.entries@[i].token@, c));
                    let j = choose|j: u64|
                        j < c && self.entries@[i].token@.subrange(0, 16) == u64_hex(j);
                    assert(j < self.counter && self.entries@[i].token@.subrange(0, 16) == u64_hex(
                        j,
                    ));
                } else {
                    assert(self.entries@[i].token@ == tv);
                    assert(c < self.counter && tv.subrange(0, 16) == u64_hex(c));
                }
            }
        }
        Ok(minted)
    }

    /// Resolves a token to the username it was minted for; fails with
    /// `TokenNotFound` for any token this store never minted.  Resolution
    /// is side-effect-free: it neither consumes the token nor refreshes
    /// anything.
    pub fn get_username(&self, token: &str) -> (r: Result<String, Error>)
        requires
            self.wf(),
        ensures
            r is Ok <==> self@.contains_key(token@),
            r is Ok ==> self@.contains_key(token@) && r->Ok_0@ == self@[token@],
            r is Err ==> r->Err_0 == Error::TokenNotFound,
    {
        proof {
            lemma_session_map_domain(self.entries@, token@);
        }
        let n = self.entries.len();
        let mut i: usize = 0;
        while i < n
            invariant
                i <= n,
                n == self.entries@.len(),
                self.wf(),
                forall|j: int| 0 <= j < i ==> self.entries@[j].token@ != token@,
            decreases n - i,
        {
            if crate::strkit::str_equal(self.entries[i].token.as_str(), token) {
                proof {
                    assert(forall|j: int|
                        (i as int) < j < self.entries@.len() ==> self.entries@[j].token@
                            != token@);
                    lemma_session_map_at(self.entries@, token@, i as int);
                }
                return Ok(self.entries[i].username.clone());
            }
            i = i + 1;
        }
        Err(Error::TokenNotFound)
    }
}

/// A token just minted for `u` resolves to `u`: if minting turned the
/// store's association map `pre` into `post` returning token `t`, then
/// `post` maps `t` to `u`.
pub proof fn lemma_minted_token_resolves(
    pre: Map<Seq<char>, Seq<char>>,
    post: Map<Seq<char>, Seq<char>>,
    t: Seq<char>,
    u: Seq<char>,
)
    requires
        post == pre.insert(t, u),
    ensures
        post.contains_key(t),
        post[t] == u,
{
}

/// Two successive mints never return equal tokens: the first mint put `t1`
/// into the association map it produced, and the second mint's token `t2`
/// is absent from that same map.
pub proof fn lemma_minted_tokens_distinct(
    m0: Map<Seq<char>, Seq<char>>,
    m1: Map<Seq<char>, Seq<char>>,
    t1: Seq<char>,
    u1: Seq<char>,
    t2: Seq<char>,
)
    requires
        m1 == m0.insert(t1, u1),
        !m1.contains_key(t2),
    ensures
        t1 != t2,
{
}

} // verus!
