//! The persisted segment index: a small text file named `meta` in the log
//! directory, holding the garbage-collection pointer and the current write
//! pointer as two whitespace-separated decimal integers. Anything else in the
//! file means the index is missing and the directory is treated as fresh.
use vstd::prelude::*;

verus! {

/// ASCII whitespace, as accepted between the two integers.
pub open spec fn is_ws(b: u8) -> bool {
    b == 32 || b == 9 || b == 10 || b == 11 || b == 12 || b == 13
}

/// An ASCII decimal digit.
pub open spec fn is_digit(b: u8) -> bool {
    48 <= b <= 57
}

/// Length of the leading run of non-whitespace bytes.
pub open spec fn token_len(s: Seq<u8>) -> int
    decreases s.len(),
{
    if s.len() == 0 || is_ws(s[0]) {
        0
    } else {
        1 + token_len(s.drop_first())
    }
}

/// The leading non-whitespace run lies within the string, is maximal, and is
/// nonempty exactly when the string starts with a non-whitespace byte.
pub proof fn lemma_token_len_bounds(s: Seq<u8>)
    ensures
        0 <= token_len(s) <= s.len(),
        forall|i: int| 0 <= i < token_len(s) ==> !is_ws(#[trigger] s[i]),
        token_len(s) < s.len() ==> is_ws(s[token_len(s)]),
    decreases s.len(),
{
    if s.len() > 0 && !is_ws(s[0]) {
        lemma_token_len_bounds(s.drop_first());
        assert forall|i: int| 0 <= i < token_len(s) implies !is_ws(#[trigger] s[i]) by {
            if i > 0 {
                assert(s[i] == s.drop_first()[i - 1]);
            }
        }
    }
}

/// A run of non-whitespace bytes ending at the end or at a whitespace byte is
/// exactly the leading token.
pub proof fn lemma_token_len_is(s: Seq<u8>, j: int)
    requires
        0 <= j <= s.len(),
        forall|i: int| 0 <= i < j ==> !is_ws(#[trigger] s[i]),
        j < s.len() ==> is_ws(s[j]),
    ensures
        token_len(s) == j,
    decreases s.len(),
{
    if j > 0 {
        assert(!is_ws(s[0]));
        assert(forall|i: int| 0 <= i < j - 1 ==> !is_ws(#[trigger] s.drop_first()[i]));
        lemma_token_len_is(s.drop_first(), j - 1);
    }
}

/// The whitespace-separated tokens of a byte string, in order.
pub open spec fn tokens(s: Seq<u8>) -> Seq<Seq<u8>>
    decreases s.len(),
    via tokens_decreases
{
    if s.len() == 0 {
        Seq::empty()
    } else if is_ws(s[0]) {
        tokens(s.drop_first())
    } else {
        seq![s.subrange(0, token_len(s))] + tokens(s.skip(token_len(s)))
    }
}

#[via_fn]
proof fn tokens_decreases(s: Seq<u8>) {
    lemma_token_len_bounds(s);
}

/// The numeric value of a digit string, most significant digit first.
pub open spec fn dec_value(t: Seq<u8>) -> int
    decreases t.len(),
{
    if t.len() == 0 {
        0
    } else {
        dec_value(t.drop_last()) * 10 + t.last() - 48
    }
}

/// All bytes are decimal digits.
pub open spec fn all_digits(t: Seq<u8>) -> bool {
    forall|i: int| 0 <= i < t.len() ==> is_digit(#[trigger] t[i])
}

/// A token that is a decimal integer representable in 64 bits.
pub open spec fn is_dec_u64(t: Seq<u8>) -> bool {
    t.len() > 0 && all_digits(t) && dec_value(t) <= u64::MAX
}

/// What the index file's bytes mean: exactly two whitespace-separated
/// decimal integers give the pointer pair; anything else means missing.
pub open spec fn parse_meta_spec(s: Seq<u8>) -> Option<(u64, u64)> {
    let ts = tokens(s);
    if ts.len() == 2 && is_dec_u64(ts[0]) && is_dec_u64(ts[1]) {
        Some((dec_value(ts[0]) as u64, dec_value(ts[1]) as u64))
    } else {
        None
    }
}

/// The canonical decimal digits of `n`, no sign, no leading zeros.
pub open spec fn dec_digits(n: nat) -> Seq<u8>
    decreases n,
{
    if n < 10 {
        seq![(48 + n) as u8]
    } else {
        dec_digits(n / 10).push((48 + n % 10) as u8)
    }
}

fn is_ws_byte(b: u8) -> (r: bool)
    ensures
        r == is_ws(b),
{
    b == 32 || b == 9 || b == 10 || b == 11 || b == 12 || b == 13
}

/// End of the token starting at `i`: the first whitespace-or-end position.
fn token_end(s: &[u8], i: usize) -> (e: usize)
    requires
        i <= s@.len(),
    ensures
        i <= e <= s@.len(),
        e - i == token_len(s@.skip(i as int)),
    decreases s@.len() - i,
{
    proof {
        lemma_token_len_bounds(s@.skip(i as int));
    }
    if i == s.len() {
        return i;
    }
    if is_ws_byte(s[i]) {
        return i;
    }
    let e = token_end(s, i + 1);
    proof {
        assert(s@.skip(i as int).drop_first() =~= s@.skip(i as int + 1));
    }
    e
}

/// Start and end of the first token at or after `i`, if any.
fn next_token(s: &[u8], i: usize) -> (r: Option<(usize, usize)>)
    requires
        i <= s@.len(),
    ensures
        match r {
            None => tokens(s@.skip(i as int)) == Seq::<Seq<u8>>::empty(),
            Some(t) => {
                &&& i <= t.0 < t.1 <= s@.len()
                &&& tokens(s@.skip(i as int)) == seq![s@.subrange(t.0 as int, t.1 as int)]
                    + tokens(s@.skip(t.1 as int))
            },
        },
    decreases s@.len() - i,
{
    if i == s.len() {
        proof {
            assert(s@.skip(i as int) =~= Seq::<u8>::empty());
        }
        return None;
    }
    if is_ws_byte(s[i]) {
        let r = next_token(s, i + 1);
        proof {
            assert(s@.skip(i as int).drop_first() =~= s@.skip(i as int + 1));
        }
        return r;
    }
    let e = token_end(s, i);
    proof {
        let suf = s@.skip(i as int);
        lemma_token_len_bounds(suf);
        assert(suf.subrange(0, token_len(suf)) =~= s@.subrange(i as int, e as int));
        assert(suf.skip(token_len(suf)) =~= s@.skip(e as int));
    }
    Some((i, e))
}

/// Value of the digit string `s[i..j]`, or nothing when some byte is not a
/// digit or the value does not fit in 64 bits.
fn parse_dec(s: &[u8], i: usize, j: usize) -> (r: Option<u64>)
    requires
        i <= j <= s@.len(),
    ensures
        ({
            let t = s@.subrange(i as int, j as int);
            match r {
                Some(v) => all_digits(t) && dec_value(t) == v,
                None => !(all_digits(t) && dec_value(t) <= u64::MAX),
            }
        }),
    decreases j - i,
{
    if i == j {
        return Some(0);
    }
    let b = s[j - 1];
    let ghost t = s@.subrange(i as int, j as int);
    proof {
        assert(t.drop_last() =~= s@.subrange(i as int, j as int - 1));
        assert(t.last() == b);
    }
    if b < 48 || b > 57 {
        return None;
    }
    match parse_dec(s, i, j - 1) {
        None => {
            proof {
                let pre = s@.subrange(i as int, j as int - 1);
                if all_digits(pre) && dec_value(t) <= u64::MAX {
                    lemma_dec_value_nonneg(pre);
                    assert(all_digits(t));
                }
            }
            None
        },
        Some(v) => {
            match v.checked_mul(10) {
                None => {
                    proof {
                        assert(dec_value(t) > u64::MAX);
                    }
                    None
                },
                Some(m) => {
                    match m.checked_add((b - 48) as u64) {
                        None => {
                            proof {
                                assert(dec_value(t) > u64::MAX);
                            }
                            None
                        },
                        Some(nv) => {
                            proof {
                                assert(all_digits(t)) by {
                                    assert(forall|k: int|
                                        0 <= k < t.len() - 1 ==> is_digit(#[trigger] t[k]));
                                }
                            }
                            Some(nv)
                        },
                    }
                },
            }
        },
    }
}

/// A digit string's value is never negative.
pub proof fn lemma_dec_value_nonneg(t: Seq<u8>)
    requires
        all_digits(t),
    ensures
        dec_value(t) >= 0,
    decreases t.len(),
{
    if t.len() > 0 {
        assert(all_digits(t.drop_last()));
        lemma_dec_value_nonneg(t.drop_last());
    }
}

/// The canonical digits of `n` are digits and read back as `n`.
pub proof fn lemma_dec_digits_value(n: nat)
    ensures
        dec_digits(n).len() >= 1,
        all_digits(dec_digits(n)),
        dec_value(dec_digits(n)) == n,
    decreases n,
{
    if n < 10 {
        assert(dec_digits(n).drop_last() =~= Seq::<u8>::empty());
        assert(dec_value(dec_digits(n)) == dec_value(Seq::<u8>::empty()) * 10 + (48 + n) - 48);
    } else {
        lemma_dec_digits_value(n / 10);
        let d = dec_digits(n);
        assert(d.drop_last() =~= dec_digits(n / 10));
        assert(dec_value(d) == (n / 10) * 10 + n % 10);
        assert(n == (n / 10) * 10 + n % 10) by {
            vstd::arithmetic::div_mod::lemma_fundamental_div_mod(n as int, 10);
        }
    }
}

/// Two whitespace-free nonempty strings joined by one space tokenize to
/// exactly those two strings.
pub proof fn lemma_tokens_two(a: Seq<u8>, b: Seq<u8>)
    requires
        a.len() > 0,
        b.len() > 0,
        forall|i: int| 0 <= i < a.len() ==> !is_ws(#[trigger] a[i]),
        forall|i: int| 0 <= i < b.len() ==> !is_ws(#[trigger] b[i]),
    ensures
        tokens(a + seq![32u8] + b) == seq![a, b],
{
    let s = a + seq![32u8] + b;
    assert(is_ws(32));
    assert(forall|i: int| 0 <= i < a.len() ==> !is_ws(#[trigger] s[i]));
    assert(s[a.len() as int] == 32);
    lemma_token_len_is(s, a.len() as int);
    assert(s.subrange(0, a.len() as int) =~= a);
    let rest = s.skip(a.len() as int);
    assert(s[0] == a[0]);
    assert(tokens(s) == seq![a] + tokens(rest));
    assert(rest =~= seq![32u8] + b);
    assert(rest.drop_first() =~= b);
    assert(tokens(rest) == tokens(b));
    lemma_token_len_is(b, b.len() as int);
    assert(b.subrange(0, b.len() as int) =~= b);
    assert(b.skip(b.len() as int) =~= Seq::<u8>::empty());
    assert(tokens(b) == seq![b] + tokens(Seq::<u8>::empty()));
    assert(tokens(Seq::<u8>::empty()) == Seq::<Seq<u8>>::empty());
    assert(tokens(s) =~= seq![a, b]);
}

/// Round trip of the index file: rendering a pointer pair and parsing it back
/// yields the same pair, which is what makes reopening idempotent.
pub proof fn lemma_meta_round_trip(gc: u64, current: u64)
    ensures
        parse_meta_spec(dec_digits(gc as nat) + seq![32u8] + dec_digits(current as nat)) == Some(
            (gc, current),
        ),
{
    let a = dec_digits(gc as nat);
    let b = dec_digits(current as nat);
    lemma_dec_digits_value(gc as nat);
    lemma_dec_digits_value(current as nat);
    assert(forall|i: int| 0 <= i < a.len() ==> !is_ws(#[trigger] a[i]));
    assert(forall|i: int| 0 <= i < b.len() ==> !is_ws(#[trigger] b[i]));
    lemma_tokens_two(a, b);
    assert(tokens(a + seq![32u8] + b)[0] == a);
    assert(tokens(a + seq![32u8] + b)[1] == b);
}

/// Idempotent open: whatever the index file held — a pair, or nothing usable,
/// which counts as the zero pair — the pair that open persists reads back as
/// itself, so a second open without intervening writes sees the same pointers
/// and replays the same segments.
pub proof fn lemma_open_idempotent(meta: Option<(u64, u64)>)
    ensures
        ({
            let pair = crate::manager::normalize_meta(meta);
            parse_meta_spec(
                dec_digits(pair.0 as nat) + seq![32u8] + dec_digits(pair.1 as nat),
            ) == Some(pair)
        }),
{
    let pair = crate::manager::normalize_meta(meta);
    lemma_meta_round_trip(pair.0, pair.1);
}

/// Append the canonical decimal digits of `n`.
fn push_dec(out: &mut Vec<u8>, n: u64)
    ensures
        final(out)@ == old(out)@ + dec_digits(n as nat),
    decreases n,
{
    if n < 10 {
        out.push(48 + n as u8);
        proof {
            assert(old(out)@.push((48 + n) as u8) =~= old(out)@ + dec_digits(n as nat));
        }
    } else {
        push_dec(out, n / 10);
        out.push(48 + (n % 10) as u8);
        proof {
            assert(old(out)@ + dec_digits((n / 10) as nat) + seq![(48 + (n as nat) % 10) as u8]
                =~= old(out)@ + dec_digits(n as nat));
        }
    }
}

/// The persisted segment index, co-located with the segments.
pub struct Meta {
    location: String,
}

impl Meta {
    /// The directory that holds the index file.
    pub closed spec fn spec_location(&self) -> Seq<char> {
        self.location@
    }

    /// Remember the directory; the index lives there under a fixed name.
    pub fn new(dir_path: String) -> (m: Meta)
        ensures
            m.spec_location() == dir_path@,
    {
        Meta { location: dir_path }
    }

    /// The directory that holds the index file.
    pub fn dir(&self) -> (r: &str)
        ensures
            r@ == self.spec_location(),
    {
        self.location.as_str()
    }

    /// The index file's name inside the directory.
    pub fn file_name(&self) -> (r: &'static str)
        ensures
            r@ == "meta"@,
    {
        "meta"
    }

    /// Parse the index file's bytes: exactly two whitespace-separated decimal
    /// integers, or nothing.
    pub fn parse(content: &[u8]) -> (r: Option<(u64, u64)>)
        ensures
            r == parse_meta_spec(content@),
    {
        proof {
            assert(content@.skip(0) =~= content@);
        }
        let first = match next_token(content, 0) {
            None => {
                return None;
            },
            Some(t) => t,
        };
        let second = match next_token(content, first.1) {
            None => {
                return None;
            },
            Some(t) => t,
        };
        match next_token(content, second.1) {
            Some(_) => {
                proof {
                    assert(tokens(content@).len() >= 3);
                }
                return None;
            },
            None => {},
        }
        proof {
            assert(tokens(content@) =~= seq![
                content@.subrange(first.0 as int, first.1 as int),
                content@.subrange(second.0 as int, second.1 as int),
            ]);
        }
        let a = parse_dec(content, first.0, first.1);
        let b = parse_dec(content, second.0, second.1);
        match (a, b) {
            (Some(x), Some(y)) => Some((x, y)),
            _ => None,
        }
    }

    /// Render a pointer pair as the index file's contents: the two numbers in
    /// decimal with a single space between. Parsing gives the pair back.
    pub fn render(gc: u64, current: u64) -> (r: Vec<u8>)
        ensures
            r@ == dec_digits(gc as nat) + seq![32u8] + dec_digits(current as nat),
            parse_meta_spec(r@) == Some((gc, current)),
    {
        let mut out: Vec<u8> = Vec::new();
        push_dec(&mut out, gc);
        out.push(32);
        push_dec(&mut out, current);
        proof {
            assert(out@ =~= dec_digits(gc as nat) + seq![32u8] + dec_digits(current as nat));
            lemma_meta_round_trip(gc, current);
        }
        out
    }
}

} // verus!
