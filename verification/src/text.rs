//! Byte-level text helpers shared by the `/proc` parsers: whitespace
//! tokenization, line splitting, and decimal `u64` parsing, each specified
//! over the UTF-8 bytes of the input.

use vstd::prelude::*;

verus! {

/// The ASCII bytes that count as whitespace for field splitting
/// (space, tab, line feed, vertical tab, form feed, carriage return).
pub open spec fn is_space(b: u8) -> bool {
    b == 32 || b == 9 || b == 10 || b == 11 || b == 12 || b == 13
}

/// ASCII decimal digit.
pub open spec fn is_digit(b: u8) -> bool {
    48 <= b && b <= 57
}

/// Numeric value of a digit byte; non-digits count as 0 so that the value
/// of a digit string never decreases as it grows.
pub open spec fn digit_val(b: u8) -> nat {
    if is_digit(b) {
        (b - 48) as nat
    } else {
        0
    }
}

/// Value of a run of ASCII digits, most significant first.
pub open spec fn digits_value(d: Seq<u8>) -> nat
    decreases d.len(),
{
    if d.len() == 0 {
        0
    } else {
        digits_value(d.drop_last()) * 10 + digit_val(d.last())
    }
}

/// The digit part of a decimal token: an optional leading `+` is skipped.
pub open spec fn token_digits(t: Seq<u8>) -> Seq<u8> {
    if t.len() > 0 && t[0] == 43 {
        t.skip(1)
    } else {
        t
    }
}

/// Whether a token is a decimal number that fits in a `u64`: after an
/// optional `+`, at least one digit, only digits, and a value at most
/// `u64::MAX`.
pub open spec fn is_u64_token(t: Seq<u8>) -> bool {
    let d = token_digits(t);
    &&& d.len() > 0
    &&& forall|i: int| 0 <= i < d.len() ==> is_digit(d[i])
    &&& digits_value(d) <= u64::MAX
}

/// The value of a valid decimal token.
pub open spec fn u64_token_value(t: Seq<u8>) -> u64 {
    digits_value(token_digits(t)) as u64
}

/// Growing a digit string never shrinks its value.
proof fn lemma_digits_value_mono(d: Seq<u8>, i: int, j: int)
    requires
        0 <= i <= j <= d.len(),
    ensures
        digits_value(d.take(i)) <= digits_value(d.take(j)),
    decreases j - i,
{
    if i < j {
        lemma_digits_value_mono(d, i, j - 1);
        assert(d.take(j).drop_last() =~= d.take(j - 1));
        assert(digits_value(d.take(j)) == digits_value(d.take(j - 1)) * 10 + digit_val(
            d.take(j).last(),
        ));
    }
}

/// Parses a whole token as a decimal `u64`; `None` exactly when the token is
/// not a decimal number that fits.
pub fn parse_u64_token(t: &[u8]) -> (r: Option<u64>)
    ensures
        match r {
            Some(v) => is_u64_token(t@) && v == u64_token_value(t@),
            None => !is_u64_token(t@),
        },
{
    let mut i: usize = 0;
    if t.len() > 0 && t[0] == 43 {
        i = 1;
    }
    let start = i;
    let ghost d = token_digits(t@);
    proof {
        assert(d =~= t@.skip(start as int));
    }
    if i == t.len() {
        return None;
    }
    let mut acc: u64 = 0;
    while i < t.len()
        invariant
            start <= i <= t@.len(),
            t@.len() == t.len(),
            d == token_digits(t@),
            d =~= t@.skip(start as int),
            forall|k: int| 0 <= k < i - start ==> is_digit(d[k]),
            acc == digits_value(d.take(i - start)),
        decreases t@.len() - i,
    {
        let b = t[i];
        if b < 48 || b > 57 {
            assert(!is_digit(d[i - start]));
            return None;
        }
        let next: u128 = (acc as u128) * 10 + ((b - 48) as u128);
        proof {
            assert(d.take(i + 1 - start).drop_last() =~= d.take(i - start));
            assert(d.take(i + 1 - start).last() == d[i - start]);
            assert(digits_value(d.take(i + 1 - start)) == digits_value(d.take(i - start)) * 10
                + digit_val(d[i - start]));
        }
        if next > u64::MAX as u128 {
            proof {
                lemma_digits_value_mono(d, i + 1 - start, d.len() as int);
                assert(d.take(d.len() as int) =~= d);
            }
            return None;
        }
        acc = next as u64;
        i = i + 1;
    }
    proof {
        assert(d.take(d.len() as int) =~= d);
    }
    Some(acc)
}

/// The whitespace-separated tokens of a byte string, in order, defined by
/// how appending one byte extends the token list: whitespace closes the
/// current token, a non-whitespace byte extends it or starts a new one.
pub open spec fn tokens_of(s: Seq<u8>) -> Seq<Seq<u8>>
    decreases s.len(),
{
    if s.len() == 0 {
        Seq::empty()
    } else {
        let ts = tokens_of(s.drop_last());
        let b = s.last();
        if is_space(b) {
            ts
        } else if s.len() >= 2 && !is_space(s[s.len() - 2]) {
            ts.update(ts.len() - 1, ts.last().push(b))
        } else {
            ts.push(seq![b])
        }
    }
}

/// Whitespace test on one byte.
pub fn is_space_byte(b: u8) -> (r: bool)
    ensures
        r == is_space(b),
{
    b == 32 || b == 9 || b == 10 || b == 11 || b == 12 || b == 13
}

/// Splits `s[from..]` into its whitespace-separated tokens.
pub fn split_tokens(s: &[u8], from: usize) -> (r: Vec<Vec<u8>>)
    requires
        from <= s@.len(),
    ensures
        r@.len() == tokens_of(s@.skip(from as int)).len(),
        forall|j: int|
            0 <= j < r@.len() ==> r@[j]@ == tokens_of(s@.skip(from as int))[j],
{
    let mut r: Vec<Vec<u8>> = Vec::new();
    let mut i: usize = from;
    while i < s.len()
        invariant
            from <= i <= s@.len(),
            s@.len() == s.len(),
            r@.len() == tokens_of(s@.subrange(from as int, i as int)).len(),
            forall|j: int|
                0 <= j < r@.len() ==> r@[j]@ == tokens_of(s@.subrange(from as int, i as int))[j],
            (i > from && !is_space(s@[i - 1])) ==> r@.len() > 0,
        decreases s@.len() - i,
    {
        let ghost pre = s@.subrange(from as int, i as int);
        let ghost post = s@.subrange(from as int, i as int + 1);
        proof {
            assert(post.drop_last() =~= pre);
            assert(post.last() == s@[i as int]);
        }
        let b = s[i];
        if is_space_byte(b) {
            // whitespace: the current token, if any, is closed
            proof {
                assert(tokens_of(post) == tokens_of(pre));
            }
        } else if i > from && !is_space_byte(s[i - 1]) {
            // extend the token in progress
            let mut tok = r.pop().unwrap();
            tok.push(b);
            r.push(tok);
            proof {
                assert(post.len() >= 2 && !is_space(post[post.len() - 2]));
                let ts = tokens_of(pre);
                assert(tokens_of(post) == ts.update(ts.len() - 1, ts.last().push(b)));
                assert forall|j: int| 0 <= j < r@.len() implies r@[j]@ == tokens_of(post)[j] by {
                    if j < r@.len() - 1 {
                        assert(r@[j]@ == ts[j]);
                    }
                }
            }
        } else {
            // start a new token
            let mut tok: Vec<u8> = Vec::new();
            tok.push(b);
            r.push(tok);
            proof {
                let ts = tokens_of(pre);
                assert(tokens_of(post) == ts.push(seq![b]));
                assert(r@[r@.len() - 1]@ =~= seq![b]);
            }
        }
        i = i + 1;
    }
    proof {
        assert(s@.subrange(from as int, s@.len() as int) =~= s@.skip(from as int));
    }
    r
}

/// Drops one trailing carriage return, as line splitting does for lines
/// that were ended by a line feed.
pub open spec fn strip_cr(l: Seq<u8>) -> Seq<u8> {
    if l.len() > 0 && l.last() == 13 {
        l.drop_last()
    } else {
        l
    }
}

/// Scans a byte string for line feeds: returns the finished lines (each with
/// a trailing carriage return removed) and the unfinished tail after the
/// last line feed.
pub open spec fn lines_scan(s: Seq<u8>) -> (Seq<Seq<u8>>, Seq<u8>)
    decreases s.len(),
{
    if s.len() == 0 {
        (Seq::empty(), Seq::empty())
    } else {
        let (done, part) = lines_scan(s.drop_last());
        let b = s.last();
        if b == 10 {
            (done.push(strip_cr(part)), Seq::empty())
        } else {
            (done, part.push(b))
        }
    }
}

/// The lines of a byte string, split at line feeds; a non-empty tail
/// without a final line feed counts as a last line, kept as it stands.
pub open spec fn lines_of(s: Seq<u8>) -> Seq<Seq<u8>> {
    let (done, part) = lines_scan(s);
    if part.len() == 0 {
        done
    } else {
        done.push(part)
    }
}

/// Splits a byte string into its lines.
pub fn split_lines(s: &[u8]) -> (r: Vec<Vec<u8>>)
    ensures
        r@.len() == lines_of(s@).len(),
        forall|j: int| 0 <= j < r@.len() ==> r@[j]@ == lines_of(s@)[j],
{
    let mut done: Vec<Vec<u8>> = Vec::new();
    let mut part: Vec<u8> = Vec::new();
    let mut i: usize = 0;
    while i < s.len()
        invariant
            0 <= i <= s@.len(),
            s@.len() == s.len(),
            done@.len() == lines_scan(s@.take(i as int)).0.len(),
            forall|j: int|
                0 <= j < done@.len() ==> done@[j]@ == lines_scan(s@.take(i as int)).0[j],
            part@ == lines_scan(s@.take(i as int)).1,
        decreases s@.len() - i,
    {
        let ghost pre = s@.take(i as int);
        let ghost post = s@.take(i as int + 1);
        proof {
            assert(post.drop_last() =~= pre);
            assert(post.last() == s@[i as int]);
        }
        let b = s[i];
        if b == 10 {
            if part.len() > 0 && part[part.len() - 1] == 13 {
                let _ = part.pop();
            }
            proof {
                assert(part@ == strip_cr(lines_scan(pre).1));
                assert(lines_scan(post).0 == lines_scan(pre).0.push(strip_cr(lines_scan(pre).1)));
            }
            done.push(part);
            part = Vec::new();
        } else {
            part.push(b);
        }
        i = i + 1;
    }
    proof {
        assert(s@.take(s@.len() as int) =~= s@);
    }
    if part.len() > 0 {
        done.push(part);
    }
    done
}

} // verus!
