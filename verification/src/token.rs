//! Session-token codec: signs and verifies tokens carrying a subject and
//! an expiry.
//!
//! A token is `expiry "." signature "." subject`, where expiry and
//! signature are canonical decimal digit strings and the signature is a
//! keyed checksum of the subject and expiry. Verification consults the
//! revocation set before trusting any claim.

use vstd::prelude::*;

use crate::data_stores::{digit_str, is_digit_char, spec_digit_char, BannedTokenStore};
use crate::user::Email;

verus! {

/// How long an issued token stays valid, in seconds.
pub const TOKEN_TTL_SECONDS: u64 = 600;

/// Key mixed into the checksum.
const SIG_KEY: u64 = 2654435769;

/// The decimal digit string of `n`, most significant digit first, with
/// no leading zeros.
pub open spec fn dec_digits(n: nat) -> Seq<char>
    decreases n,
{
    if n < 10 {
        seq![spec_digit_char(n as int)]
    } else {
        dec_digits(n / 10).push(spec_digit_char((n % 10) as int))
    }
}

/// The numeric value of the decimal digit `c`.
pub open spec fn digit_val(c: char) -> int {
    (c as u32) - 48
}

/// The numeric value of the digit string `s`, most significant first.
pub open spec fn digits_val(s: Seq<char>) -> nat
    decreases s.len(),
{
    if s.len() == 0 {
        0
    } else {
        (digits_val(s.drop_last()) * 10 + digit_val(s.last())) as nat
    }
}

/// Whether `s` is the canonical decimal rendering of some value: at
/// least one digit, and no leading zero.
pub open spec fn is_canon_digits(s: Seq<char>) -> bool {
    &&& s.len() > 0
    &&& forall|i: int| 0 <= i < s.len() ==> is_digit_char(#[trigger] s[i])
    &&& (s.len() == 1 || digit_val(s[0]) != 0)
}

proof fn lemma_dec_digits_wf(n: nat)
    ensures
        dec_digits(n).len() >= 1,
        forall|i: int| 0 <= i < dec_digits(n).len() ==> is_digit_char(#[trigger] dec_digits(n)[i]),
        n >= 1 ==> digit_val(dec_digits(n)[0]) != 0,
        n < 10 ==> dec_digits(n).len() == 1,
        is_canon_digits(dec_digits(n)),
    decreases n,
{
    if n >= 10 {
        lemma_dec_digits_wf(n / 10);
        let prev = dec_digits(n / 10);
        let whole = dec_digits(n);
        assert(whole == prev.push(spec_digit_char((n % 10) as int)));
        assert(whole[0] == prev[0]);
        assert forall|i: int| 0 <= i < whole.len() implies is_digit_char(#[trigger] whole[i]) by {
            if i < prev.len() {
                assert(whole[i] == prev[i]);
            } else {
                assert(whole[i] == spec_digit_char((n % 10) as int));
            }
        }
    }
}

proof fn lemma_digit_char_val(d: int)
    requires
        0 <= d < 10,
    ensures
        is_digit_char(spec_digit_char(d)),
        digit_val(spec_digit_char(d)) == d,
{
}

proof fn lemma_digit_char_roundtrip(c: char)
    requires
        is_digit_char(c),
    ensures
        spec_digit_char(digit_val(c)) == c,
{
}

proof fn lemma_digits_val_of_dec_digits(n: nat)
    ensures
        digits_val(dec_digits(n)) == n,
    decreases n,
{
    if n < 10 {
        let s = dec_digits(n);
        assert(s.len() == 1);
        assert(s.last() == spec_digit_char(n as int));
        assert(s.drop_last() =~= Seq::<char>::empty());
        assert(digits_val(Seq::<char>::empty()) == 0);
        lemma_digit_char_val(n as int);
        assert(digits_val(s) == (digits_val(s.drop_last()) * 10 + digit_val(s.last())) as nat);
    } else {
        lemma_digits_val_of_dec_digits(n / 10);
        let prev = dec_digits(n / 10);
        let s = dec_digits(n);
        assert(s == prev.push(spec_digit_char((n % 10) as int)));
        assert(s.drop_last() =~= prev);
        assert(s.last() == spec_digit_char((n % 10) as int));
        lemma_digit_char_val((n % 10) as int);
        assert(s.len() > 0);
        assert(digits_val(s) == (digits_val(prev) * 10 + digit_val(s.last())) as nat);
        vstd::arithmetic::div_mod::lemma_fundamental_div_mod(n as int, 10);
        assert(digits_val(s) == ((n / 10) * 10 + (n % 10)) as nat);
    }
}

proof fn lemma_digits_val_lower_bound(s: Seq<char>)
    requires
        s.len() >= 1,
        forall|i: int| 0 <= i < s.len() ==> is_digit_char(#[trigger] s[i]),
        digit_val(s[0]) != 0,
    ensures
        s.len() >= 2 ==> digits_val(s) >= 10,
        digits_val(s) >= 1,
    decreases s.len(),
{
    if s.len() == 1 {
        assert(s.drop_last() =~= Seq::<char>::empty());
        assert(digit_val(s[0]) >= 1);
    } else {
        let prefix = s.drop_last();
        assert(prefix[0] == s[0]);
        lemma_digits_val_lower_bound(prefix);
        assert(digit_val(s.last()) >= 0);
    }
}

/// A canonical digit string renders back from its value.
proof fn lemma_canon_digits_roundtrip(s: Seq<char>)
    requires
        is_canon_digits(s),
    ensures
        dec_digits(digits_val(s)) == s,
    decreases s.len(),
{
    if s.len() == 1 {
        assert(s.drop_last() =~= Seq::<char>::empty());
        assert(digits_val(Seq::<char>::empty()) == 0);
        assert(s.last() == s[0]);
        assert(digits_val(s) == (digits_val(s.drop_last()) * 10 + digit_val(s.last())) as nat);
        lemma_digit_char_roundtrip(s[0]);
        assert(0 <= digit_val(s[0]) < 10);
        assert(digits_val(s) == digit_val(s[0]));
        assert(dec_digits(digits_val(s)) =~= s);
    } else {
        let prefix = s.drop_last();
        assert(prefix[0] == s[0]);
        assert(forall|i: int| 0 <= i < prefix.len() ==> is_digit_char(#[trigger] prefix[i]));
        lemma_canon_digits_roundtrip(prefix);
        lemma_digits_val_lower_bound(prefix);
        let v = digits_val(s);
        let d = digit_val(s.last());
        assert(0 <= d < 10);
        assert(v == digits_val(prefix) * 10 + d);
        assert(v >= 10);
        assert(v / 10 == digits_val(prefix) && v % 10 == d) by (nonlinear_arith)
            requires
                v == digits_val(prefix) * 10 + d,
                0 <= d < 10,
        ;
        lemma_digit_char_roundtrip(s.last());
        assert(dec_digits(v) == dec_digits(digits_val(prefix)).push(spec_digit_char(d)));
        assert(dec_digits(v) =~= s);
    }
}

/// Appending one more digit multiplies the value by ten and adds it.
proof fn lemma_digits_val_step(s: Seq<char>, i: int)
    requires
        0 <= i < s.len(),
        is_digit_char(s[i]),
    ensures
        digits_val(s.take(i + 1)) == digits_val(s.take(i)) * 10 + digit_val(s[i]),
{
    assert(s.take(i + 1).drop_last() =~= s.take(i));
    assert(s.take(i + 1).last() == s[i]);
    assert(digit_val(s[i]) >= 0);
}

/// The value of a longer all-digit string is no smaller.
proof fn lemma_digits_val_prefix_le(s: Seq<char>, i: int)
    requires
        0 <= i <= s.len(),
        forall|j: int| 0 <= j < s.len() ==> is_digit_char(#[trigger] s[j]),
    ensures
        digits_val(s.take(i)) <= digits_val(s),
    decreases s.len() - i,
{
    if i < s.len() {
        lemma_digits_val_step(s, i);
        lemma_digits_val_prefix_le(s, i + 1);
        assert(digits_val(s.take(i)) <= digits_val(s.take(i)) * 10 + digit_val(s[i]));
    } else {
        assert(s.take(i) =~= s);
    }
}

/// One step of the signature checksum.
pub open spec fn sig_step(h: nat, c: char) -> nat {
    ((h * 131 + (c as u32)) % 4294967296) as nat
}

/// The signature checksum of `s` starting from state `h`.
pub open spec fn sig_hash(h: nat, s: Seq<char>) -> nat
    decreases s.len(),
{
    if s.len() == 0 {
        h
    } else {
        sig_hash(sig_step(h, s[0]), s.drop_first())
    }
}

proof fn lemma_sig_hash_bound(h: nat, s: Seq<char>)
    requires
        h < 4294967296,
    ensures
        sig_hash(h, s) < 4294967296,
    decreases s.len(),
{
    if s.len() > 0 {
        lemma_sig_hash_bound(sig_step(h, s[0]), s.drop_first());
    }
}

/// The signature of a token for `subject` expiring at `exp`: the keyed
/// checksum of the subject followed by the expiry digits.
pub open spec fn spec_sig(subject: Seq<char>, exp: nat) -> nat {
    sig_hash(sig_hash(2654435769, subject), dec_digits(exp))
}

/// The index of the first `'.'` in `s`, if any.
pub open spec fn find_dot(s: Seq<char>) -> Option<int>
    decreases s.len(),
{
    if s.len() == 0 {
        None
    } else if s[0] == '.' {
        Some(0)
    } else {
        match find_dot(s.drop_first()) {
            None => None,
            Some(j) => Some(j + 1),
        }
    }
}

proof fn lemma_find_dot_characterizes(s: Seq<char>)
    ensures
        match find_dot(s) {
            Some(j) => 0 <= j < s.len() && s[j] == '.' && (forall|t: int|
                0 <= t < j ==> s[t] != '.'),
            None => forall|t: int| 0 <= t < s.len() ==> s[t] != '.',
        },
    decreases s.len(),
{
    if s.len() > 0 && s[0] != '.' {
        lemma_find_dot_characterizes(s.drop_first());
        match find_dot(s.drop_first()) {
            Some(j) => {
                assert(s[j + 1] == s.drop_first()[j]);
                assert forall|t: int| 0 <= t < j + 1 implies s[t] != '.' by {
                    if t > 0 {
                        assert(s[t] == s.drop_first()[t - 1]);
                    }
                }
            },
            None => {
                assert forall|t: int| 0 <= t < s.len() implies s[t] != '.' by {
                    if t > 0 {
                        assert(s[t] == s.drop_first()[t - 1]);
                    }
                }
            },
        }
    }
}

/// `find_dot` returns exactly the first dot.
proof fn lemma_find_dot_unique(s: Seq<char>, j: int)
    requires
        0 <= j < s.len(),
        s[j] == '.',
        forall|t: int| 0 <= t < j ==> s[t] != '.',
    ensures
        find_dot(s) == Some(j),
{
    lemma_find_dot_characterizes(s);
    match find_dot(s) {
        Some(j2) => {
            if j2 < j {
                assert(s[j2] != '.');
            } else if j < j2 {
                assert(s[j] != '.');
            }
        },
        None => {
            assert(s[j] != '.');
        },
    }
}

/// The token string for `subject` expiring at `exp`: expiry digits, a
/// dot, signature digits, a dot, then the subject itself.
pub open spec fn token_of(subject: Seq<char>, exp: nat) -> Seq<char> {
    dec_digits(exp) + seq!['.'] + dec_digits(spec_sig(subject, exp)) + seq!['.'] + subject
}

/// The three raw parts of a token, split at the first two dots; the
/// subject, coming last, may itself contain dots.
pub open spec fn spec_token_parts(t: Seq<char>) -> Option<(Seq<char>, Seq<char>, Seq<char>)> {
    match find_dot(t) {
        None => None,
        Some(i) => {
            let rest = t.skip(i + 1);
            match find_dot(rest) {
                None => None,
                Some(j) => Some((t.take(i), rest.take(j), rest.skip(j + 1))),
            }
        },
    }
}

/// The structurally well-formed reading of a token: expiry value,
/// signature value, and subject.
pub open spec fn spec_token_shape(t: Seq<char>) -> Option<(nat, nat, Seq<char>)> {
    match spec_token_parts(t) {
        None => None,
        Some((e, g, subject)) => {
            if is_canon_digits(e) && digits_val(e) <= u64::MAX && is_canon_digits(g)
                && digits_val(g) <= u64::MAX {
                Some((digits_val(e), digits_val(g), subject))
            } else {
                None
            }
        },
    }
}

/// The claims a token carries, if it is well formed and correctly
/// signed: the subject and the expiry.
pub open spec fn spec_token_claims(t: Seq<char>) -> Option<(Seq<char>, nat)> {
    match spec_token_shape(t) {
        None => None,
        Some((exp, g, subject)) => {
            if g == spec_sig(subject, exp) {
                Some((subject, exp))
            } else {
                None
            }
        },
    }
}

/// An issued token reads back as exactly the subject and expiry it was
/// built from: the codec round-trips.
pub proof fn lemma_token_of_parses(subject: Seq<char>, exp: nat)
    requires
        exp <= u64::MAX,
    ensures
        spec_token_claims(token_of(subject, exp)) == Some((subject, exp)),
{
    let e = dec_digits(exp);
    let sig = spec_sig(subject, exp);
    lemma_sig_hash_bound(2654435769, subject);
    lemma_sig_hash_bound(sig_hash(2654435769, subject), e);
    let g = dec_digits(sig);
    let t = token_of(subject, exp);
    lemma_dec_digits_wf(exp);
    lemma_dec_digits_wf(sig);
    let el = e.len() as int;
    let gl = g.len() as int;
    assert(t.len() == el + 1 + gl + 1 + subject.len());
    assert(t[el] == '.');
    assert forall|k: int| 0 <= k < el implies t[k] != '.' by {
        assert(t[k] == e[k]);
        assert(is_digit_char(e[k]));
        if t[k] == '.' {
            assert(('.' as u32) >= 48);
        }
    }
    lemma_find_dot_unique(t, el);
    assert(t.take(el) =~= e);
    let rest = t.skip(el + 1);
    assert(rest =~= g + seq!['.'] + subject);
    assert(rest[gl] == '.');
    assert forall|k: int| 0 <= k < gl implies rest[k] != '.' by {
        assert(rest[k] == g[k]);
        assert(is_digit_char(g[k]));
        if rest[k] == '.' {
            assert(('.' as u32) >= 48);
        }
    }
    lemma_find_dot_unique(rest, gl);
    assert(rest.take(gl) =~= g);
    assert(rest.skip(gl + 1) =~= subject);
    assert(spec_token_parts(t) == Some((e, g, subject)));
    lemma_digits_val_of_dec_digits(exp);
    lemma_digits_val_of_dec_digits(sig);
}

/// Whether a token string passes verification at time `now`, leaving
/// revocation aside: well formed, correctly signed, and not yet expired.
pub open spec fn token_accepted(t: Seq<char>, now: u64) -> bool {
    spec_token_claims(t) matches Some(p) && p.1 > now
}

/// An issued token, while not revoked, is accepted exactly until its
/// expiry instant.
pub proof fn lemma_issued_token_acceptance(subject: Seq<char>, exp: nat, now: u64)
    requires
        exp <= u64::MAX,
    ensures
        token_accepted(token_of(subject, exp), now) <==> exp > now,
{
    lemma_token_of_parses(subject, exp);
}

/// Revocation is permanent: a token string added to the revocation set
/// is a member from then on, so by the verifier's contract every later
/// verification of that exact string fails as revoked, whatever its
/// signature or expiry.
pub proof fn lemma_revocation_is_permanent(tokens: Set<Seq<char>>, t: Seq<char>)
    ensures
        tokens.insert(t).contains(t),
{
}

/// The claim set carried by a session token.
#[derive(Debug)]
pub struct Claims {
    pub subject: String,
    pub expires_at: u64,
}

#[derive(Debug, PartialEq)]
pub enum TokenError {
    Malformed,
    Expired,
    BadSignature,
    Revoked,
}

/// Renders `n` in decimal, most significant digit first.
fn u64_to_string(n: u64) -> (s: String)
    ensures
        s@ == dec_digits(n as nat),
    decreases n,
{
    if n < 10 {
        let s = digit_str(n as u32).to_owned();
        s
    } else {
        let mut s = u64_to_string(n / 10);
        s.append(digit_str((n % 10) as u32));
        proof {
            assert(dec_digits((n / 10) as nat).push(spec_digit_char((n % 10) as int)) =~= dec_digits(
                (n / 10) as nat,
            ) + seq![spec_digit_char((n % 10) as int)]);
        }
        s
    }
}

/// Reads a canonical decimal digit string back into its value; rejects
/// anything else, including values that do not fit.
fn parse_canon_u64(s: &str) -> (r: Option<u64>)
    ensures
        match r {
            Some(v) => is_canon_digits(s@) && digits_val(s@) <= u64::MAX && v == digits_val(s@),
            None => !(is_canon_digits(s@) && digits_val(s@) <= u64::MAX),
        },
{
    let n = s.unicode_len();
    if n == 0 {
        return None;
    }
    if n > 1 {
        let c0 = s.get_char(0);
        if c0 as u32 == 48 {
            return None;
        }
    }
    let mut val: u64 = 0;
    let mut i: usize = 0;
    proof {
        assert(s@.take(0) =~= Seq::<char>::empty());
    }
    while i < n
        invariant
            i <= n,
            n == s@.len(),
            n >= 1,
            n > 1 ==> (s@[0] as u32) != 48,
            forall|j: int| 0 <= j < i ==> is_digit_char(#[trigger] s@[j]),
            val == digits_val(s@.take(i as int)),
        decreases n - i,
    {
        let c = s.get_char(i);
        let u = c as u32;
        if u < 48 || u > 57 {
            return None;
        }
        let d = (u - 48) as u64;
        proof {
            lemma_digits_val_step(s@, i as int);
            vstd::arithmetic::div_mod::lemma_fundamental_div_mod((u64::MAX - d) as int, 10);
        }
        if val > (u64::MAX - d) / 10 {
            proof {
                assert(digits_val(s@.take(i + 1)) > u64::MAX);
                if is_canon_digits(s@) {
                    lemma_digits_val_prefix_le(s@, i + 1);
                }
            }
            return None;
        }
        val = val * 10 + d;
        i += 1;
    }
    proof {
        assert(s@.take(n as int) =~= s@);
        if n > 1 {
            assert(digit_val(s@[0]) != 0);
        }
    }
    Some(val)
}

/// Finds the first dot of `s`, agreeing with `find_dot`.
fn find_dot_index(s: &str) -> (r: Option<usize>)
    ensures
        match r {
            Some(i) => find_dot(s@) == Some(i as int),
            None => find_dot(s@) is None,
        },
{
    let n = s.unicode_len();
    let mut i: usize = 0;
    while i < n
        invariant
            i <= n,
            n == s@.len(),
            forall|t: int| 0 <= t < i ==> s@[t] != '.',
        decreases n - i,
    {
        let c = s.get_char(i);
        if c == '.' {
            proof {
                lemma_find_dot_unique(s@, i as int);
            }
            return Some(i);
        }
        i += 1;
    }
    proof {
        lemma_find_dot_characterizes(s@);
        match find_dot(s@) {
            Some(j) => {
                assert(s@[j] != '.');
            },
            None => {},
        }
    }
    None
}

/// The signature checksum of `s` starting from state `h0`.
fn hash_str(h0: u64, s: &str) -> (r: u64)
    requires
        h0 < 4294967296,
    ensures
        r == sig_hash(h0 as nat, s@),
        r < 4294967296,
{
    let n = s.unicode_len();
    let mut h = h0;
    let mut i: usize = 0;
    proof {
        assert(s@.skip(0) =~= s@);
    }
    while i < n
        invariant
            i <= n,
            n == s@.len(),
            h < 4294967296,
            sig_hash(h as nat, s@.skip(i as int)) == sig_hash(h0 as nat, s@),
        decreases n - i,
    {
        let c = s.get_char(i);
        proof {
            assert(s@.skip(i as int)[0] == s@[i as int]);
            assert(s@.skip(i as int).drop_first() =~= s@.skip(i + 1));
        }
        h = (h * 131 + ((c as u32) as u64)) % 4294967296;
        i += 1;
    }
    proof {
        assert(s@.skip(n as int) =~= Seq::<char>::empty());
    }
    h
}

/// Issues a signed token for `email`, expiring a fixed duration after
/// `now` (seconds).
pub fn issue(email: &Email, now: u64) -> (r: String)
    requires
        now + TOKEN_TTL_SECONDS <= u64::MAX,
    ensures
        r@ == token_of(email@, (now + TOKEN_TTL_SECONDS) as nat),
        spec_token_claims(r@) == Some((email@, (now + TOKEN_TTL_SECONDS) as nat)),
{
    let exp = now + TOKEN_TTL_SECONDS;
    let exp_str = u64_to_string(exp);
    let h1 = hash_str(SIG_KEY, email.as_ref());
    let sig = hash_str(h1, exp_str.as_str());
    let sig_str = u64_to_string(sig);
    let mut t = exp_str;
    t.append(".");
    t.append(sig_str.as_str());
    t.append(".");
    t.append(email.as_ref());
    proof {
        reveal_strlit(".");
        assert("."@ =~= seq!['.']);
        assert(t@ =~= token_of(email@, exp as nat));
        lemma_token_of_parses(email@, exp as nat);
    }
    t
}

/// Verifies a raw token string against the revocation set and `now`.
///
/// A revoked token fails as `Revoked` before any other claim is
/// trusted, even if its signature and expiry are otherwise valid;
/// otherwise the token must be structurally well formed (`Malformed`),
/// correctly signed (`BadSignature`) and not yet expired (`Expired`),
/// and its claims are returned.
pub fn verify<B: BannedTokenStore>(token: &str, banned_store: &B, now: u64) -> (r: Result<
    Claims,
    TokenError,
>)
    ensures
        banned_store.tokens().contains(token@) ==> r == Err::<Claims, TokenError>(
            TokenError::Revoked,
        ),
        !banned_store.tokens().contains(token@) ==> match r {
            Ok(c) => spec_token_claims(token@) == Some((c.subject@, c.expires_at as nat))
                && c.expires_at > now,
            Err(TokenError::Malformed) => spec_token_shape(token@) is None,
            Err(TokenError::BadSignature) => spec_token_shape(token@) is Some
                && spec_token_claims(token@) is None,
            Err(TokenError::Expired) => spec_token_claims(token@) matches Some(p) && p.1 <= now,
            Err(TokenError::Revoked) => false,
        },
{
    if banned_store.is_banned_token(token).unwrap() {
        return Err(TokenError::Revoked);
    }
    let n = token.unicode_len();
    let i1 = match find_dot_index(token) {
        Some(i) => i,
        None => {
            return Err(TokenError::Malformed);
        },
    };
    proof {
        lemma_find_dot_characterizes(token@);
    }
    let exp_str = token.substring_char(0, i1);
    let rest = token.substring_char(i1 + 1, n);
    proof {
        assert(exp_str@ =~= token@.take(i1 as int));
        assert(rest@ =~= token@.skip(i1 + 1));
    }
    let j = match find_dot_index(rest) {
        Some(j) => j,
        None => {
            return Err(TokenError::Malformed);
        },
    };
    proof {
        lemma_find_dot_characterizes(rest@);
    }
    let rest_len = rest.unicode_len();
    let sig_str = rest.substring_char(0, j);
    let subject = rest.substring_char(j + 1, rest_len);
    proof {
        assert(sig_str@ =~= rest@.take(j as int));
        assert(subject@ =~= rest@.skip(j + 1));
        assert(spec_token_parts(token@) == Some((exp_str@, sig_str@, subject@)));
    }
    let exp = match parse_canon_u64(exp_str) {
        Some(v) => v,
        None => {
            return Err(TokenError::Malformed);
        },
    };
    let sig_given = match parse_canon_u64(sig_str) {
        Some(v) => v,
        None => {
            return Err(TokenError::Malformed);
        },
    };
    let h1 = hash_str(SIG_KEY, subject);
    let sig_expected = hash_str(h1, exp_str);
    proof {
        lemma_canon_digits_roundtrip(exp_str@);
        assert(sig_expected == spec_sig(subject@, exp as nat));
    }
    if sig_given != sig_expected {
        return Err(TokenError::BadSignature);
    }
    if exp <= now {
        return Err(TokenError::Expired);
    }
    Ok(Claims { subject: subject.to_owned(), expires_at: exp })
}

} // verus!
