//! How deeply the lists and dictionaries of bencoded data (a .torrent file)
//! nest, read token by token the way a bencode reader takes them.

use vstd::prelude::*;

verus! {

/// Deepest nesting of lists and dictionaries with which a .torrent file is
/// handed to the torrent reader, whose reading, copying and hashing recurse
/// once per level.
pub const MAX_NESTING: u64 = 64;

pub open spec fn is_digit_byte(c: u8) -> bool {
    48 <= c <= 57
}

/// End of the run of ASCII digits that starts at `k`.
pub open spec fn digit_bytes_end(b: Seq<u8>, k: int) -> int
    decreases b.len() - k,
{
    if 0 <= k < b.len() && is_digit_byte(b[k]) {
        digit_bytes_end(b, k + 1)
    } else {
        k
    }
}

/// Value of a run of ASCII digits.
pub open spec fn decimal_of_bytes(s: Seq<u8>) -> nat
    decreases s.len(),
{
    if s.len() == 0 {
        0
    } else {
        decimal_of_bytes(s.drop_last()) * 10 + (s.last() - 48) as nat
    }
}

/// Position of the first `e` at or after `k`, or the end.
pub open spec fn next_e(b: Seq<u8>, k: int) -> int
    decreases b.len() - k,
{
    if 0 <= k < b.len() && b[k] != 101 {
        next_e(b, k + 1)
    } else {
        k
    }
}

/// Whether, reading bencoded tokens from position `p` with `depth` lists and
/// dictionaries open, the nesting stays within `MAX_NESTING` for as long as
/// tokens can be read. `d` and `l` open one, `e` closes one, `i` runs to the
/// next `e`, and anything else is a string: a decimal length (after an
/// optional `+`), `:` and that many bytes. Reading stops at the end of the
/// data and where a token cannot be read: an `e` with nothing open, an `i`
/// without a closing `e`, a length without digits or `:`, or a string that
/// runs past the end.
pub open spec fn nesting_within(b: Seq<u8>, p: int, depth: int) -> bool
    decreases b.len() - p,
{
    if p < 0 || p >= b.len() {
        true
    } else if b[p] == 100 || b[p] == 108 {
        depth + 1 <= MAX_NESTING && nesting_within(b, p + 1, depth + 1)
    } else if b[p] == 101 {
        if depth <= 0 {
            true
        } else {
            nesting_within(b, p + 1, depth - 1)
        }
    } else if b[p] == 105 {
        let q = next_e(b, p + 1);
        proof {
            lemma_next_e(b, p + 1);
        }
        if q >= b.len() {
            true
        } else {
            nesting_within(b, q + 1, depth)
        }
    } else {
        let s = if b[p] == 43 {
            p + 1
        } else {
            p
        };
        let q = digit_bytes_end(b, s);
        proof {
            lemma_digit_bytes(b, s);
        }
        if q == s || q >= b.len() || b[q] != 58 {
            true
        } else {
            let end = q + 1 + decimal_of_bytes(b.subrange(s, q));
            if end > b.len() {
                true
            } else {
                nesting_within(b, end, depth)
            }
        }
    }
}

/// Whether bencoded data nests at most `MAX_NESTING` deep.
pub open spec fn nesting_fits_spec(b: Seq<u8>) -> bool {
    nesting_within(b, 0, 0)
}

pub proof fn lemma_next_e(b: Seq<u8>, k: int)
    requires
        0 <= k,
    ensures
        k <= next_e(b, k),
        next_e(b, k) < b.len() ==> b[next_e(b, k)] == 101,
    decreases b.len() - k,
{
    if k < b.len() && b[k] != 101 {
        lemma_next_e(b, k + 1);
    }
}

pub proof fn lemma_digit_bytes(b: Seq<u8>, k: int)
    requires
        0 <= k,
    ensures
        k <= digit_bytes_end(b, k),
        k <= b.len() ==> digit_bytes_end(b, k) <= b.len(),
        forall|m: int| k <= m < digit_bytes_end(b, k) ==> is_digit_byte(#[trigger] b[m]),
        digit_bytes_end(b, k) < b.len() ==> !is_digit_byte(b[digit_bytes_end(b, k)]),
    decreases b.len() - k,
{
    if k < b.len() && is_digit_byte(b[k]) {
        lemma_digit_bytes(b, k + 1);
    }
}

proof fn lemma_decimal_of_bytes_grows(s: Seq<u8>, k: int)
    requires
        0 <= k <= s.len(),
        forall|m: int| 0 <= m < s.len() ==> is_digit_byte(#[trigger] s[m]),
    ensures
        decimal_of_bytes(s.subrange(0, k)) <= decimal_of_bytes(s),
    decreases s.len() - k,
{
    if k < s.len() {
        lemma_decimal_of_bytes_grows(s, k + 1);
        let t = s.subrange(0, k + 1);
        assert(t.drop_last() =~= s.subrange(0, k));
    } else {
        assert(s.subrange(0, k) =~= s);
    }
}

/// Whether bencoded data nests at most `MAX_NESTING` deep.
pub fn nesting_fits(b: &[u8]) -> (r: bool)
    ensures
        r == nesting_fits_spec(b@),
{
    let n = b.len();
    let mut p: usize = 0;
    let mut depth: u64 = 0;
    while p < n
        invariant
            n == b@.len(),
            p <= n,
            depth <= MAX_NESTING,
            nesting_within(b@, 0, 0) == nesting_within(b@, p as int, depth as int),
        decreases n - p,
    {
        let c = b[p];
        if c == 100 || c == 108 {
            if depth + 1 > MAX_NESTING {
                return false;
            }
            depth = depth + 1;
            p = p + 1;
        } else if c == 101 {
            if depth == 0 {
                return true;
            }
            depth = depth - 1;
            p = p + 1;
        } else if c == 105 {
            let mut q = p + 1;
            proof {
                lemma_next_e(b@, p + 1);
            }
            while q < n && b[q] != 101
                invariant
                    n == b@.len(),
                    p + 1 <= q <= n,
                    next_e(b@, q as int) == next_e(b@, p + 1),
                decreases n - q,
            {
                q = q + 1;
            }
            if q >= n {
                return true;
            }
            p = q + 1;
        } else {
            let s: usize = if c == 43 {
                p + 1
            } else {
                p
            };
            let ghost full = digit_bytes_end(b@, s as int);
            proof {
                lemma_digit_bytes(b@, s as int);
            }
            let mut q = s;
            let mut acc: usize = 0;
            assert(b@.subrange(s as int, s as int) =~= Seq::<u8>::empty());
            while q < n && b[q] >= 48 && b[q] <= 57
                invariant
                    n == b@.len(),
                    p < n,
                    c == b@[p as int],
                    c != 100 && c != 108 && c != 101 && c != 105,
                    s == (if c == 43 { p + 1 } else { p as int }),
                    depth <= MAX_NESTING,
                    nesting_within(b@, 0, 0) == nesting_within(b@, p as int, depth as int),
                    s <= q <= full <= n,
                    full == digit_bytes_end(b@, s as int),
                    digit_bytes_end(b@, q as int) == full,
                    forall|m: int| s <= m < full ==> is_digit_byte(#[trigger] b@[m]),
                    acc <= n,
                    acc as nat == decimal_of_bytes(b@.subrange(s as int, q as int)),
                decreases n - q,
            {
                proof {
                    assert(is_digit_byte(b@[q as int]));
                    assert(digit_bytes_end(b@, q as int) == digit_bytes_end(b@, q + 1));
                    lemma_digit_bytes(b@, q + 1);
                }
                assert(b@.subrange(s as int, q + 1).drop_last() =~= b@.subrange(s as int, q as int));
                let digit = (b[q] - 48) as usize;
                let next = match acc.checked_mul(10) {
                    Some(t) => t.checked_add(digit),
                    None => None,
                };
                let fits = match next {
                    Some(v) => v <= n,
                    None => false,
                };
                if !fits {
                    proof {
                        let d = b@.subrange(s as int, full);
                        assert forall|m: int| 0 <= m < d.len() implies is_digit_byte(#[trigger] d[m]) by {
                            assert(d[m] == b@[s + m]);
                        }
                        lemma_decimal_of_bytes_grows(d, q + 1 - s);
                        assert(d.subrange(0, q + 1 - s) =~= b@.subrange(s as int, q + 1));
                        let v = decimal_of_bytes(b@.subrange(s as int, q + 1));
                        assert(v == acc * 10 + digit);
                        assert(v > n);
                        assert(decimal_of_bytes(d) > n);
                        assert(nesting_within(b@, p as int, depth as int));
                    }
                    return true;
                }
                acc = next.unwrap();
                q = q + 1;
            }
            if q == s || q >= n || b[q] != 58 {
                return true;
            }
            if acc > n - q - 1 {
                return true;
            }
            p = q + 1 + acc;
        }
    }
    true
}

} // verus!
