//! The token registry: a single-use mapping from an opaque alphanumeric
//! token to the page cursor it stands for. A token is created fresh when a
//! listing has more pages, and is consumed by its first redemption.

use rand::Rng;
use vstd::prelude::*;
use vstd::hash_map::StringHashMap;
use vstd::set_lib::lemma_len_subset;

verus! {

/// Length of an opaque pagination token.
pub const TOKEN_LEN: usize = 16;

/// How many times a colliding token draw is retried.
pub const MINT_RETRY_LIMIT: usize = 64;

/// A token character: ASCII alphanumeric.
pub open spec fn is_token_char(c: char) -> bool {
    ||| '0' as u32 <= c as u32 && c as u32 <= '9' as u32
    ||| 'a' as u32 <= c as u32 && c as u32 <= 'z' as u32
    ||| 'A' as u32 <= c as u32 && c as u32 <= 'Z' as u32
}

/// What one redemption returns out of mapping `m`: the page under `t`, if
/// `t` is present.
pub open spec fn spec_redeem(m: Map<Seq<char>, usize>, t: Seq<char>) -> Option<usize> {
    if m.contains_key(t) {
        Some(m[t])
    } else {
        None
    }
}

/// Relies on rand's `thread_rng` sampled through the `Alphanumeric`
/// distribution: every drawn character is one of `A-Z a-z 0-9`, and exactly
/// `TOKEN_LEN` are taken. The result is random; nothing more is promised.
#[verifier::external_body]
fn random_token() -> (t: String)
    ensures
        t@.len() == TOKEN_LEN,
        forall|i: int| 0 <= i < t@.len() ==> is_token_char(t@[i]),
{
    rand::thread_rng().sample_iter(&rand::distributions::Alphanumeric).take(TOKEN_LEN).map(
        char::from,
    ).collect()
}

/// The numeric value of one lowercase hexadecimal token character.
spec fn nibble_val(c: char) -> int {
    if '0' as u32 <= c as u32 && c as u32 <= '9' as u32 {
        c as u32 - '0' as u32
    } else if 'a' as u32 <= c as u32 && c as u32 <= 'f' as u32 {
        c as u32 - 'a' as u32 + 10
    } else {
        0
    }
}

/// The value a big-endian string of hexadecimal digits stands for.
spec fn decode_hex(s: Seq<char>) -> int
    decreases s.len(),
{
    if s.len() == 0 {
        0
    } else {
        decode_hex(s.drop_last()) * 16 + nibble_val(s.last())
    }
}

fn nibble_str(v: u64) -> (s: &'static str)
    requires
        v < 16,
    ensures
        s@.len() == 1,
        is_token_char(s@[0]),
        nibble_val(s@[0]) == v,
{
    proof {
        reveal_strlit("0");
        reveal_strlit("1");
        reveal_strlit("2");
        reveal_strlit("3");
        reveal_strlit("4");
        reveal_strlit("5");
        reveal_strlit("6");
        reveal_strlit("7");
        reveal_strlit("8");
        reveal_strlit("9");
        reveal_strlit("a");
        reveal_strlit("b");
        reveal_strlit("c");
        reveal_strlit("d");
        reveal_strlit("e");
        reveal_strlit("f");
    }
    match v {
        0 => "0",
        1 => "1",
        2 => "2",
        3 => "3",
        4 => "4",
        5 => "5",
        6 => "6",
        7 => "7",
        8 => "8",
        9 => "9",
        10 => "a",
        11 => "b",
        12 => "c",
        13 => "d",
        14 => "e",
        _ => "f",
    }
}

/// `c` written as exactly `TOKEN_LEN` big-endian hexadecimal digits.
fn encode_hex(c: u64) -> (t: String)
    ensures
        t@.len() == TOKEN_LEN,
        forall|i: int| 0 <= i < t@.len() ==> is_token_char(t@[i]),
        decode_hex(t@) == c,
{
    let mut t = String::new();
    let mut j: usize = 0;
    while j < 16
        invariant
            j <= 16,
            t@.len() == j,
            forall|i: int| 0 <= i < t@.len() ==> is_token_char(t@[i]),
            decode_hex(t@) == if j == 0 {
                0
            } else {
                (c >> (((16 - j) * 4) as u64)) as int
            },
        decreases 16 - j,
    {
        let sh: u64 = ((15 - j) * 4) as u64;
        let nib: u64 = (c >> sh) & 0xF;
        assert((c >> sh) & 0xF < 16) by (bit_vector);
        let ghost prev = t@;
        let s = nibble_str(nib);
        t.append(s);
        proof {
            assert(t@.drop_last() =~= prev);
            assert(t@.last() == s@[0]);
            if j == 0 {
                assert((c >> 60u64) & 0xF == c >> 60u64) by (bit_vector);
            } else {
                assert((c >> ((sh + 4) as u64)) * 16 + ((c >> sh) & 0xF) == c >> sh)
                    by (bit_vector)
                    requires
                        sh <= 56u64,
                ;
            }
        }
        j += 1;
    }
    proof {
        assert(c >> 0u64 == c) by (bit_vector);
    }
    t
}

/// The registry of outstanding pagination tokens.
pub struct TokenRegistry {
    /// The token-to-page mapping; this registry is its sole owner.
    pub tokens: StringHashMap<usize>,
}

impl View for TokenRegistry {
    type V = Map<Seq<char>, usize>;

    open spec fn view(&self) -> Map<Seq<char>, usize> {
        self.tokens@
    }
}

impl TokenRegistry {
    /// The mapping holds finitely many tokens, and every outstanding page
    /// cursor leaves room for the arithmetic of the page that follows it.
    pub open spec fn wf(&self) -> bool {
        &&& self@.dom().finite()
        &&& forall|t: Seq<char>| #[trigger] self@.contains_key(t) ==> self@[t] < usize::MAX
    }

    /// An empty registry.
    pub fn new() -> (r: Self)
        ensures
            r@ == Map::<Seq<char>, usize>::empty(),
            r.wf(),
    {
        TokenRegistry { tokens: StringHashMap::new() }
    }

    /// Generates a token not currently present, files it under the given
    /// page cursor, and returns it. Random draws are retried on the
    /// vanishingly unlikely collision with an outstanding token; should
    /// every redraw collide, a deterministic sweep finds an unused token,
    /// which must exist because the token space dwarfs any live registry.
    pub fn mint(&mut self, page: usize) -> (t: String)
        requires
            old(self).wf(),
            page < usize::MAX,
        ensures
            final(self).wf(),
            !old(self)@.contains_key(t@),
            final(self)@ == old(self)@.insert(t@, page),
            t@.len() == TOKEN_LEN,
            forall|i: int| 0 <= i < t@.len() ==> is_token_char(t@[i]),
    {
        let mut attempts: usize = 0;
        while attempts < MINT_RETRY_LIMIT
            invariant
                *self == *old(self),
                self.wf(),
                page < usize::MAX,
            decreases MINT_RETRY_LIMIT - attempts,
        {
            let t = random_token();
            if !self.tokens.contains_key(t.as_str()) {
                self.tokens.insert(t.clone(), page);
                proof {
                    self.lemma_wf_after_insert(*old(self), t@, page);
                }
                return t;
            }
            attempts += 1;
        }
        let n = self.tokens.len();
        let mut c: u64 = 0;
        let ghost mut seen: Set<Seq<char>> = Set::empty();
        loop
            invariant
                *self == *old(self),
                self.wf(),
                page < usize::MAX,
                n == self@.len(),
                seen.finite(),
                seen.len() == c,
                seen.subset_of(self@.dom()),
                forall|x: Seq<char>| #[trigger] seen.contains(x) ==> decode_hex(x) < c,
                c <= n,
            decreases n - c,
        {
            let t = encode_hex(c);
            if !self.tokens.contains_key(t.as_str()) {
                self.tokens.insert(t.clone(), page);
                proof {
                    self.lemma_wf_after_insert(*old(self), t@, page);
                }
                return t;
            }
            proof {
                assert(!seen.contains(t@));
                seen = seen.insert(t@);
                lemma_len_subset(seen, self@.dom());
            }
            c = c + 1;
        }
    }

    /// Inserting one in-range cursor keeps the registry well formed.
    proof fn lemma_wf_after_insert(&self, pre: Self, t: Seq<char>, page: usize)
        requires
            pre.wf(),
            page < usize::MAX,
            self@ == pre@.insert(t, page),
        ensures
            self.wf(),
    {
        assert forall|k: Seq<char>| #[trigger] self@.contains_key(k) implies self@[k]
            < usize::MAX by {
            if k != t {
                assert(pre@.contains_key(k));
            }
        }
    }

    /// Exchanges a token for its page cursor, consuming it: the token is
    /// absent afterwards whether or not it was present before, and the
    /// cursor comes back exactly when it was present.
    pub fn redeem(&mut self, token: &str) -> (r: Option<usize>)
        requires
            old(self).wf(),
        ensures
            final(self).wf(),
            r == spec_redeem(old(self)@, token@),
            r is Some <==> old(self)@.contains_key(token@),
            final(self)@ == old(self)@.remove(token@),
            !final(self)@.contains_key(token@),
    {
        let r = match self.tokens.get(token) {
            Some(p) => Some(*p),
            None => None,
        };
        self.tokens.remove(token);
        r
    }
}

/// A token is single use: once redeemed — successfully or not — the same
/// token can never be redeemed again; the second redemption always misses.
pub proof fn lemma_token_single_use(m: Map<Seq<char>, usize>, t: Seq<char>)
    ensures
        spec_redeem(m.remove(t), t) is None,
{
}

} // verus!
