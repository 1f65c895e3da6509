//! Verification challenge engine.
//!
//! Proves that a trainee opened the instructional guide for their own
//! session: a short display code is derived on demand from the session's
//! random seed and the trainee's identity, never stored, and recomputed to
//! check a submission. Characters of the trainee identity are written into
//! fixed positions of the hashed material, so the code is trainee-specific
//! even though the guide text is shared.

use vstd::prelude::*;

use crate::crypto::{chars_to_string, hex_digit, hex_lower, hex_lower_of, sha512_chars, sha512_of};
use crate::errors::GuardReason;

verus! {

/// Number of characters of the seed that feed the digest.
pub const SEED_TAIL_LEN: usize = 73;

/// Length of a freshly generated verification seed.
pub const SEED_LEN: usize = 76;

/// Length of the human-facing display code.
pub const CODE_LEN: usize = 6;

/// Whether a character is an ASCII digit or letter.
pub open spec fn is_alnum_char(c: char) -> bool {
    (48 <= c as int && c as int <= 57) || (97 <= c as int && c as int <= 122) || (65 <= c as int
        && c as int <= 90)
}

/// Whether every character of the sequence is alphanumeric.
pub open spec fn all_alnum(s: Seq<char>) -> bool {
    forall|i: int| 0 <= i < s.len() ==> is_alnum_char(#[trigger] s[i])
}

/// The sequence with every space character removed.
pub open spec fn strip_spaces(s: Seq<char>) -> Seq<char>
    decreases s.len(),
{
    if s.len() == 0 {
        Seq::empty()
    } else if s.first() == ' ' {
        strip_spaces(s.drop_first())
    } else {
        seq![s.first()] + strip_spaces(s.drop_first())
    }
}

/// The character at an index, or the NUL character when the sequence is too
/// short.
pub open spec fn ch_or_nul(s: Seq<char>, i: int) -> char {
    if 0 <= i < s.len() {
        s[i]
    } else {
        '\0'
    }
}

/// The last 73 characters of the seed (the whole seed when shorter).
pub open spec fn last_tail(s: Seq<char>) -> Seq<char> {
    if s.len() >= SEED_TAIL_LEN as int {
        s.skip(s.len() - SEED_TAIL_LEN as int)
    } else {
        s
    }
}

/// The seed tail with the fixed-position overwrites applied: position 2
/// becomes 'r', positions 19, 21 and 40 take the trainee identity's 1st,
/// 2nd and 7th characters, and position 39 becomes 'x'.
pub open spec fn masked(tail: Seq<char>, trainee: Seq<char>) -> Seq<char> {
    tail.update(2, 'r').update(19, ch_or_nul(trainee, 0)).update(21, ch_or_nul(trainee, 1)).update(
        40,
        ch_or_nul(trainee, 6),
    ).update(39, 'x')
}

/// The display code: the last 6 hex characters of the SHA-512 digest of the
/// masked seed tail.
pub open spec fn code_of(seed: Seq<char>, trainee: Seq<char>) -> Seq<char> {
    let h = hex_lower_of(sha512_of(masked(last_tail(seed), trainee)));
    if h.len() >= CODE_LEN as int {
        h.skip(h.len() - CODE_LEN as int)
    } else {
        h
    }
}

/// What checking a submission yields: spaces are stripped, a remaining
/// non-alphanumeric character is rejected, and otherwise the cleaned
/// submission is compared with the derived code.
pub open spec fn check_spec(seed: Seq<char>, trainee: Seq<char>, submitted: Seq<char>) -> Result<
    bool,
    GuardReason,
> {
    let cleaned = strip_spaces(submitted);
    if !all_alnum(cleaned) {
        Err(GuardReason::CodeNotAlphanumeric)
    } else {
        Ok(cleaned == code_of(seed, trainee))
    }
}

/// Derives the display code for a seed and trainee identity.
pub fn derive_display_code(seed: &str, trainee_id: &str) -> (r: String)
    requires
        seed@.len() >= SEED_TAIL_LEN as int,
    ensures
        r@ == code_of(seed@, trainee_id@),
{
    let masked_tail = masked_tail_chars(seed, trainee_id);
    let digest = sha512_chars(&masked_tail);
    let hex = hex_lower(digest.as_slice());
    proof {
        lemma_hex_lower_len(digest@);
    }
    let hex_str = hex.as_str();
    let code = hex_str.substring_char(122, 128);
    code.to_owned()
}

/// Checks a submitted code against the one derived from the seed and
/// trainee identity.
pub fn check(seed: &str, trainee_id: &str, submitted: &str) -> (r: Result<bool, GuardReason>)
    requires
        seed@.len() >= SEED_TAIL_LEN as int,
    ensures
        r == check_spec(seed@, trainee_id@, submitted@),
{
    let n = submitted.unicode_len();
    let mut cleaned: Vec<char> = Vec::new();
    let mut i: usize = 0;
    proof {
        assert(submitted@.subrange(0, 0) =~= Seq::<char>::empty());
    }
    while i < n
        invariant
            n == submitted@.len(),
            0 <= i <= n,
            cleaned@ == strip_spaces(submitted@.subrange(0, i as int)),
            all_alnum(cleaned@),
        decreases n - i,
    {
        let c = submitted.get_char(i);
        proof {
            lemma_strip_concat(submitted@.subrange(0, i as int), seq![c]);
            lemma_strip_single(c);
            assert(submitted@.subrange(0, i + 1) =~= submitted@.subrange(0, i as int) + seq![c]);
        }
        if c != ' ' {
            if !alnum(c) {
                proof {
                    lemma_strip_concat(submitted@.subrange(0, i + 1), submitted@.subrange(i + 1, n as int));
                    assert(submitted@ =~= submitted@.subrange(0, i + 1) + submitted@.subrange(
                        i + 1,
                        n as int,
                    ));
                    let cl = strip_spaces(submitted@);
                    assert(cl[cleaned@.len() as int] == c);
                    assert(!all_alnum(cl));
                }
                return Err(GuardReason::CodeNotAlphanumeric);
            }
            cleaned.push(c);
        } else {
            proof {
                assert(cleaned@ + Seq::<char>::empty() =~= cleaned@);
            }
        }
        i += 1;
    }
    proof {
        assert(submitted@.subrange(0, n as int) =~= submitted@);
    }
    let code = derive_display_code(seed, trainee_id);
    Ok(chars_eq_str(&cleaned, code.as_str()))
}

/// Generates a fresh verification seed: 76 random alphanumeric characters.
pub fn fresh_seed() -> (r: String)
    ensures
        r@.len() == SEED_LEN as int,
        all_alnum(r@),
{
    let mut v: Vec<char> = Vec::new();
    while v.len() < SEED_LEN
        invariant
            v@.len() <= SEED_LEN as int,
            all_alnum(v@),
        decreases SEED_LEN - v@.len(),
    {
        let raw: u8 = rand::random();
        let c = alnum_of_index(raw % 62);
        v.push(c);
    }
    chars_to_string(&v)
}

/// The alphanumeric character with the given index in the alphabet
/// 0-9, a-z, A-Z.
fn alnum_of_index(i: u8) -> (c: char)
    requires
        i < 62,
    ensures
        is_alnum_char(c),
{
    if i < 10 {
        (48 + i) as char
    } else if i < 36 {
        (87 + i) as char
    } else {
        (29 + i) as char
    }
}

/// Whether the character is an ASCII digit or letter.
fn alnum(c: char) -> (r: bool)
    ensures
        r == is_alnum_char(c),
{
    let u = c as u32;
    (48 <= u && u <= 57) || (97 <= u && u <= 122) || (65 <= u && u <= 90)
}

/// Builds the masked seed tail that feeds the digest.
fn masked_tail_chars(seed: &str, trainee_id: &str) -> (r: Vec<char>)
    requires
        seed@.len() >= SEED_TAIL_LEN as int,
    ensures
        r@ == masked(last_tail(seed@), trainee_id@),
{
    let n = seed.unicode_len();
    let mut v: Vec<char> = Vec::new();
    let mut j: usize = 0;
    while j < SEED_TAIL_LEN
        invariant
            n == seed@.len(),
            n >= 73,
            0 <= j <= 73,
            v@ =~= seed@.subrange(n - 73, n - 73 + j),
        decreases SEED_TAIL_LEN - j,
    {
        v.push(seed.get_char(n - 73 + j));
        j += 1;
    }
    proof {
        assert(v@ =~= last_tail(seed@));
    }
    let tlen = trainee_id.unicode_len();
    let c0 = if tlen > 0 {
        trainee_id.get_char(0)
    } else {
        '\0'
    };
    let c1 = if tlen > 1 {
        trainee_id.get_char(1)
    } else {
        '\0'
    };
    let c6 = if tlen > 6 {
        trainee_id.get_char(6)
    } else {
        '\0'
    };
    v[2] = 'r';
    v[19] = c0;
    v[21] = c1;
    v[40] = c6;
    v[39] = 'x';
    v
}

/// Compares collected characters with a string.
fn chars_eq_str(v: &Vec<char>, s: &str) -> (r: bool)
    ensures
        r == (v@ == s@),
{
    let n = s.unicode_len();
    if v.len() != n {
        return false;
    }
    let mut i: usize = 0;
    while i < n
        invariant
            n == s@.len(),
            n == v@.len(),
            0 <= i <= n,
            forall|j: int| 0 <= j < i ==> v@[j] == s@[j],
        decreases n - i,
    {
        if v[i] != s.get_char(i) {
            return false;
        }
        i += 1;
    }
    proof {
        assert(v@ =~= s@);
    }
    true
}

/// Stripping spaces from a single character keeps it unless it is a space.
proof fn lemma_strip_single(c: char)
    ensures
        strip_spaces(seq![c]) == if c == ' ' {
            Seq::<char>::empty()
        } else {
            seq![c]
        },
{
    assert(seq![c].len() == 1);
    assert(seq![c].first() == c);
    assert(seq![c].drop_first() =~= Seq::<char>::empty());
    if c != ' ' {
        assert(seq![c] + strip_spaces(Seq::<char>::empty()) =~= seq![c]);
    }
}

/// Every hex digit is alphanumeric and not a space.
proof fn lemma_hex_digit_ok(n: u8)
    ensures
        is_alnum_char(hex_digit(n)),
        hex_digit(n) != ' ',
{
}

/// The hex encoding of a byte sequence has two characters per byte.
proof fn lemma_hex_lower_len(b: Seq<u8>)
    ensures
        hex_lower_of(b).len() == 2 * b.len(),
    decreases b.len(),
{
    if b.len() > 0 {
        lemma_hex_lower_len(b.drop_first());
    }
}

/// Every character of a hex encoding is alphanumeric and not a space.
proof fn lemma_hex_lower_alnum(b: Seq<u8>)
    ensures
        forall|i: int|
            0 <= i < hex_lower_of(b).len() ==> is_alnum_char(#[trigger] hex_lower_of(b)[i])
                && hex_lower_of(b)[i] != ' ',
    decreases b.len(),
{
    if b.len() > 0 {
        lemma_hex_lower_alnum(b.drop_first());
        let h = hex_lower_of(b);
        let rest = hex_lower_of(b.drop_first());
        assert forall|i: int| 0 <= i < h.len() implies is_alnum_char(#[trigger] h[i]) && h[i]
            != ' ' by {
            if i == 0 {
                lemma_hex_digit_ok(b.first() / 16);
            } else if i == 1 {
                lemma_hex_digit_ok(b.first() % 16);
            } else {
                assert(h[i] == rest[i - 2]);
            }
        }
    }
}

/// Stripping spaces distributes over concatenation.
proof fn lemma_strip_concat(a: Seq<char>, b: Seq<char>)
    ensures
        strip_spaces(a + b) == strip_spaces(a) + strip_spaces(b),
    decreases a.len(),
{
    if a.len() == 0 {
        assert(a + b =~= b);
        assert(strip_spaces(a) + strip_spaces(b) =~= strip_spaces(b));
    } else {
        assert((a + b).drop_first() =~= a.drop_first() + b);
        lemma_strip_concat(a.drop_first(), b);
        if a.first() != ' ' {
            assert(seq![a.first()] + (strip_spaces(a.drop_first()) + strip_spaces(b)) =~= (
            seq![a.first()] + strip_spaces(a.drop_first())) + strip_spaces(b));
        }
    }
}

/// Stripping spaces from a space-free sequence changes nothing.
proof fn lemma_strip_noop(s: Seq<char>)
    requires
        forall|i: int| 0 <= i < s.len() ==> #[trigger] s[i] != ' ',
    ensures
        strip_spaces(s) == s,
    decreases s.len(),
{
    if s.len() > 0 {
        lemma_strip_noop(s.drop_first());
        assert(seq![s.first()] + s.drop_first() =~= s);
    }
}

/// Round trip of the verification challenge: the code derived from a seed
/// and a trainee identity always passes the check for that same seed and
/// identity, whatever the digest returned.
pub proof fn lemma_check_roundtrip(seed: Seq<char>, trainee: Seq<char>)
    ensures
        check_spec(seed, trainee, code_of(seed, trainee)) == Ok::<bool, GuardReason>(true),
{
    let code = code_of(seed, trainee);
    let digest = sha512_of(masked(last_tail(seed), trainee));
    lemma_hex_lower_alnum(digest);
    assert(forall|i: int| 0 <= i < code.len() ==> is_alnum_char(#[trigger] code[i]) && code[i]
        != ' ');
    lemma_strip_noop(code);
}

/// Tamper sensitivity, positional part: an alphanumeric submission of the
/// right length that differs from the derived code in any single position
/// fails the check.
pub proof fn lemma_check_tamper(seed: Seq<char>, trainee: Seq<char>, submitted: Seq<char>, i: int)
    requires
        submitted.len() == code_of(seed, trainee).len(),
        0 <= i < submitted.len(),
        submitted[i] != code_of(seed, trainee)[i],
        all_alnum(submitted),
    ensures
        check_spec(seed, trainee, submitted) == Ok::<bool, GuardReason>(false),
{
    assert(forall|j: int| 0 <= j < submitted.len() ==> #[trigger] submitted[j] != ' ');
    lemma_strip_noop(submitted);
    assert(submitted != code_of(seed, trainee));
}

} // verus!
