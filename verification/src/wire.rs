//! Byte-level primitives of the control-channel wire format: a tagged text
//! encoding with quoted, escaped strings and decimal numbers, plus the
//! 4-byte big-endian length prefix that frames every payload.
//!
//! Each primitive has a specification-level emitter and parser, an
//! executable mirror proved against them, and a round-trip lemma showing
//! that parsing what was emitted returns the original value and consumes
//! exactly the emitted bytes.

use vstd::prelude::*;

verus! {

/// Largest payload the channel accepts, in bytes.
pub const MAX_PAYLOAD: u32 = 1000000;

pub const SPACE: u8 = 32;

pub const QUOTE: u8 = 34;

pub const BACKSLASH: u8 = 92;

/// A byte that the string escaping protects with a backslash.
pub open spec fn needs_escape(b: u8) -> bool {
    b == QUOTE || b == BACKSLASH
}

/// Escape a byte string: quote and backslash get a backslash prefix, every
/// other byte passes through unchanged.
pub open spec fn escape_bytes(b: Seq<u8>) -> Seq<u8>
    decreases b.len(),
{
    if b.len() == 0 {
        Seq::empty()
    } else {
        let head = if needs_escape(b[0]) {
            seq![BACKSLASH, b[0]]
        } else {
            seq![b[0]]
        };
        head + escape_bytes(b.drop_first())
    }
}

/// Escaping distributes over concatenation.
pub proof fn lemma_escape_append(a: Seq<u8>, b: Seq<u8>)
    ensures
        escape_bytes(a + b) == escape_bytes(a) + escape_bytes(b),
    decreases a.len(),
{
    if a.len() == 0 {
        assert(a + b =~= b);
        assert(escape_bytes(a) + escape_bytes(b) =~= escape_bytes(b));
    } else {
        assert((a + b).drop_first() =~= a.drop_first() + b);
        lemma_escape_append(a.drop_first(), b);
        let head = if needs_escape(a[0]) {
            seq![BACKSLASH, a[0]]
        } else {
            seq![a[0]]
        };
        assert(escape_bytes(a + b) =~= head + (escape_bytes(a.drop_first()) + escape_bytes(b)));
        assert(escape_bytes(a) + escape_bytes(b) =~= head + (escape_bytes(a.drop_first())
            + escape_bytes(b)));
    }
}

/// Parse the body of a quoted string: consume bytes up to and including the
/// closing unescaped quote, undoing the escaping. Returns the unescaped
/// content and the remainder after the closing quote.
pub open spec fn parse_str_body(b: Seq<u8>) -> Option<(Seq<u8>, Seq<u8>)>
    decreases b.len(),
{
    if b.len() == 0 {
        None
    } else if b[0] == QUOTE {
        Some((Seq::empty(), b.drop_first()))
    } else if b[0] == BACKSLASH {
        if b.len() >= 2 && needs_escape(b[1]) {
            match parse_str_body(b.skip(2)) {
                Option::Some(p) => Some((seq![b[1]] + p.0, p.1)),
                Option::None => None,
            }
        } else {
            None
        }
    } else {
        match parse_str_body(b.drop_first()) {
            Option::Some(p) => Some((seq![b[0]] + p.0, p.1)),
            Option::None => None,
        }
    }
}

/// Parsing a string body undoes the escaping: the escaped content followed
/// by the closing quote and anything after parses back to the content and
/// leaves exactly that remainder.
pub proof fn lemma_str_body_round_trip(u: Seq<u8>, rest: Seq<u8>)
    ensures
        parse_str_body(escape_bytes(u) + seq![QUOTE] + rest) matches Some(p) && p.0 == u && p.1
            == rest,
    decreases u.len(),
{
    if u.len() == 0 {
        assert(escape_bytes(u) + seq![QUOTE] + rest =~= seq![QUOTE] + rest);
        assert((seq![QUOTE] + rest)[0] == QUOTE);
        assert((seq![QUOTE] + rest).drop_first() =~= rest);
    } else {
        lemma_str_body_round_trip(u.drop_first(), rest);
        let b = escape_bytes(u) + seq![QUOTE] + rest;
        let tail = escape_bytes(u.drop_first()) + seq![QUOTE] + rest;
        if needs_escape(u[0]) {
            assert(escape_bytes(u) =~= seq![BACKSLASH, u[0]] + escape_bytes(u.drop_first()));
            assert(b[0] == BACKSLASH);
            assert(b[1] == u[0]);
            assert(b.len() >= 2);
            assert(b.skip(2) =~= tail);
            assert(parse_str_body(b) matches Some(p) && p.0 =~= u && p.1 == rest);
        } else {
            assert(escape_bytes(u) =~= seq![u[0]] + escape_bytes(u.drop_first()));
            assert(b[0] == u[0]);
            assert(b[0] != QUOTE && b[0] != BACKSLASH);
            assert(b.drop_first() =~= tail);
            assert(parse_str_body(b) matches Some(p) && p.0 =~= u && p.1 == rest);
        }
    }
}

/// Append a byte slice to the output.
pub fn push_bytes(out: &mut Vec<u8>, b: &[u8])
    ensures
        final(out)@ == old(out)@ + b@,
{
    let n: usize = b.len();
    let mut i: usize = 0;
    while i < n
        invariant
            n == b@.len(),
            i <= n,
            out@ == old(out)@ + b@.take(i as int),
        decreases n - i,
    {
        out.push(b[i]);
        proof {
            assert(old(out)@ + b@.take(i as int) + seq![b@[i as int]] =~= old(out)@ + b@.take(
                i as int + 1,
            ));
        }
        i = i + 1;
    }
    proof {
        assert(b@.take(n as int) =~= b@);
    }
}

/// Append the escaped form of a byte slice to the output.
pub fn push_escaped(out: &mut Vec<u8>, b: &[u8])
    ensures
        final(out)@ == old(out)@ + escape_bytes(b@),
{
    let n: usize = b.len();
    let mut i: usize = 0;
    while i < n
        invariant
            n == b@.len(),
            i <= n,
            out@ == old(out)@ + escape_bytes(b@.take(i as int)),
        decreases n - i,
    {
        let c = b[i];
        if c == QUOTE || c == BACKSLASH {
            out.push(BACKSLASH);
            out.push(c);
        } else {
            out.push(c);
        }
        proof {
            assert(b@.take(i as int + 1) =~= b@.take(i as int) + seq![b@[i as int]]);
            lemma_escape_append(b@.take(i as int), seq![b@[i as int]]);
            assert(seq![b@[i as int]].drop_first() =~= Seq::<u8>::empty());
            assert(escape_bytes(Seq::<u8>::empty()) =~= Seq::<u8>::empty());
            assert(escape_bytes(seq![b@[i as int]]) =~= if needs_escape(b@[i as int]) {
                seq![BACKSLASH, b@[i as int]]
            } else {
                seq![b@[i as int]]
            });
            assert(out@ =~= old(out)@ + escape_bytes(b@.take(i as int + 1)));
        }
        i = i + 1;
    }
    proof {
        assert(b@.take(n as int) =~= b@);
    }
}

/// Parse a quoted string body starting at `start` (just after the opening
/// quote): collect the unescaped content and return it with the position
/// just after the closing quote.
pub fn parse_string_at(data: &[u8], start: usize) -> (r: Option<(Vec<u8>, usize)>)
    requires
        start <= data@.len(),
    ensures
        match r {
            Some(p) => {
                &&& parse_str_body(data@.skip(start as int)) matches Some(q) && q.0 == p.0@ && q.1
                    == data@.skip(p.1 as int)
                &&& start <= p.1 <= data@.len()
            },
            None => parse_str_body(data@.skip(start as int)) is None,
        },
{
    let ghost orig: Seq<u8> = data@.skip(start as int);
    let mut acc: Vec<u8> = Vec::new();
    let mut i: usize = start;
    loop
        invariant
            start <= i <= data@.len(),
            orig == data@.skip(start as int),
            match parse_str_body(data@.skip(i as int)) {
                Option::Some(q) => parse_str_body(orig) matches Some(q0) && q0.0 == acc@ + q.0
                    && q0.1 == q.1,
                Option::None => parse_str_body(orig) is None,
            },
        decreases data@.len() - i,
    {
        if i >= data.len() {
            proof {
                assert(data@.skip(i as int).len() == 0);
            }
            return None;
        }
        let c = data[i];
        proof {
            assert(data@.skip(i as int)[0] == data@[i as int]);
        }
        if c == QUOTE {
            proof {
                assert(data@.skip(i as int).drop_first() =~= data@.skip(i as int + 1));
                assert(acc@ + Seq::<u8>::empty() =~= acc@);
            }
            return Some((acc, i + 1));
        } else if c == BACKSLASH {
            if i + 1 >= data.len() {
                proof {
                    assert(data@.skip(i as int).len() < 2);
                }
                return None;
            }
            let d = data[i + 1];
            proof {
                assert(data@.skip(i as int)[1] == data@[i as int + 1]);
            }
            if d == QUOTE || d == BACKSLASH {
                let ghost acc0: Seq<u8> = acc@;
                acc.push(d);
                proof {
                    assert(data@.skip(i as int).skip(2) =~= data@.skip(i as int + 2));
                    match parse_str_body(data@.skip(i as int + 2)) {
                        Option::Some(q) => {
                            assert(acc0 + (seq![d] + q.0) =~= acc0.push(d) + q.0);
                        },
                        Option::None => {},
                    }
                }
                i = i + 2;
            } else {
                return None;
            }
        } else {
            let ghost acc0: Seq<u8> = acc@;
            acc.push(c);
            proof {
                assert(data@.skip(i as int).drop_first() =~= data@.skip(i as int + 1));
                match parse_str_body(data@.skip(i as int + 1)) {
                    Option::Some(q) => {
                        assert(acc0 + (seq![c] + q.0) =~= acc0.push(c) + q.0);
                    },
                    Option::None => {},
                }
            }
            i = i + 1;
        }
    }
}

/// An ASCII decimal digit.
pub open spec fn is_digit(b: u8) -> bool {
    48 <= b && b <= 57
}

/// Decimal digits of `n`, most significant first; empty when `n <= 0`.
pub open spec fn dec_digits(n: int) -> Seq<u8>
    decreases n,
{
    if n <= 0 {
        Seq::empty()
    } else {
        dec_digits(n / 10).push((48 + n % 10) as u8)
    }
}

/// Decimal rendering of a non-negative number; `0` renders as a single `0`.
pub open spec fn ser_num(n: int) -> Seq<u8> {
    if n <= 0 {
        seq![48u8]
    } else {
        dec_digits(n)
    }
}

/// The numeric value of a digit string.
pub open spec fn digits_val(d: Seq<u8>) -> int
    decreases d.len(),
{
    if d.len() == 0 {
        0
    } else {
        digits_val(d.drop_last()) * 10 + (d.last() - 48)
    }
}

/// The maximal digit prefix of a byte string.
pub open spec fn take_digits(b: Seq<u8>) -> Seq<u8>
    decreases b.len(),
{
    if b.len() == 0 || !is_digit(b[0]) {
        Seq::empty()
    } else {
        seq![b[0]] + take_digits(b.drop_first())
    }
}

/// Parse a decimal number: the maximal digit run, which must be non-empty,
/// without a superfluous leading zero, and fit in a `u64`.
pub open spec fn parse_num(b: Seq<u8>) -> Option<(u64, Seq<u8>)> {
    let d = take_digits(b);
    if d.len() == 0 {
        None
    } else if d.len() > 1 && d[0] == 48 {
        None
    } else if digits_val(d) > u64::MAX {
        None
    } else {
        Some((digits_val(d) as u64, b.skip(d.len() as int)))
    }
}

/// Every byte of a digit rendering is a digit, the rendering of a positive
/// number is non-empty and starts with a non-zero digit.
pub proof fn lemma_dec_digits_shape(n: int)
    requires
        n >= 0,
    ensures
        forall|i: int| 0 <= i < dec_digits(n).len() ==> is_digit(#[trigger] dec_digits(n)[i]),
        n > 0 ==> dec_digits(n).len() >= 1 && dec_digits(n)[0] != 48,
    decreases n,
{
    if n > 0 {
        lemma_dec_digits_shape(n / 10);
        let c = (48 + n % 10) as u8;
        let d = dec_digits(n);
        assert(0 <= n % 10 < 10);
        assert(is_digit(c));
        assert(d == dec_digits(n / 10).push(c));
        assert forall|i: int| 0 <= i < d.len() implies is_digit(d[i]) by {
            if i < d.len() - 1 {
                assert(d[i] == dec_digits(n / 10)[i]);
            } else {
                assert(d[i] == c);
            }
        }
        if n / 10 == 0 {
            assert(n == 10 * (n / 10) + n % 10);
            assert(n % 10 == n);
            assert(d[0] == c);
            assert(c != 48);
        } else {
            assert(d[0] == dec_digits(n / 10)[0]);
        }
    }
}

/// The digit rendering evaluates back to the number.
pub proof fn lemma_dec_digits_val(n: int)
    requires
        n >= 0,
    ensures
        digits_val(dec_digits(n)) == n,
    decreases n,
{
    if n > 0 {
        lemma_dec_digits_val(n / 10);
        let d = dec_digits(n);
        assert(d.drop_last() =~= dec_digits(n / 10));
    }
}

/// A digit string evaluates to a non-negative number.
pub proof fn lemma_digits_val_nonneg(d: Seq<u8>)
    requires
        forall|i: int| 0 <= i < d.len() ==> is_digit(#[trigger] d[i]),
    ensures
        digits_val(d) >= 0,
    decreases d.len(),
{
    if d.len() > 0 {
        lemma_digits_val_nonneg(d.drop_last());
    }
}

/// The maximal digit prefix of a digit string followed by a non-digit (or
/// nothing) is exactly that digit string.
pub proof fn lemma_take_digits_exact(d: Seq<u8>, rest: Seq<u8>)
    requires
        forall|i: int| 0 <= i < d.len() ==> is_digit(#[trigger] d[i]),
        rest.len() == 0 || !is_digit(rest[0]),
    ensures
        take_digits(d + rest) == d,
        (d + rest).skip(d.len() as int) == rest,
    decreases d.len(),
{
    if d.len() == 0 {
        assert(d + rest =~= rest);
        assert(take_digits(d + rest) =~= d);
        assert((d + rest).skip(0) =~= rest);
    } else {
        assert((d + rest).drop_first() =~= d.drop_first() + rest);
        lemma_take_digits_exact(d.drop_first(), rest);
        assert(take_digits(d + rest) =~= seq![d[0]] + d.drop_first());
        assert(seq![d[0]] + d.drop_first() =~= d);
        assert((d + rest).skip(d.len() as int) =~= rest);
    }
}

/// Parsing a rendered number returns it and consumes exactly its digits,
/// whenever what follows does not begin with a digit.
pub proof fn lemma_num_round_trip(n: u64, rest: Seq<u8>)
    requires
        rest.len() == 0 || !is_digit(rest[0]),
    ensures
        parse_num(ser_num(n as int) + rest) matches Some(p) && p.0 == n && p.1 == rest,
{
    lemma_dec_digits_shape(n as int);
    lemma_dec_digits_val(n as int);
    lemma_take_digits_exact(ser_num(n as int), rest);
    if n == 0 {
        assert(digits_val(seq![48u8]) == 0) by {
            assert(seq![48u8].drop_last() =~= Seq::<u8>::empty());
        }
    }
}

/// Append the decimal rendering of `n` to the output.
pub fn push_num(out: &mut Vec<u8>, n: u64)
    ensures
        final(out)@ == old(out)@ + ser_num(n as int),
{
    if n == 0 {
        out.push(48);
        proof {
            assert(out@ =~= old(out)@ + ser_num(0int));
        }
        return ;
    }
    let mut tmp: Vec<u8> = Vec::new();
    let mut x: u64 = n;
    while x > 0
        invariant
            dec_digits(n as int) =~= dec_digits(x as int) + tmp@.reverse(),
        decreases x,
    {
        let d: u8 = 48 + (x % 10) as u8;
        let ghost tmp0: Seq<u8> = tmp@;
        tmp.push(d);
        proof {
            assert(dec_digits(x as int) == dec_digits(x as int / 10).push(d));
            assert(tmp0.push(d).reverse() =~= seq![d] + tmp0.reverse());
            assert(dec_digits(x as int / 10) + (seq![d] + tmp0.reverse()) =~= (dec_digits(
                x as int / 10,
            ).push(d)) + tmp0.reverse());
        }
        x = x / 10;
    }
    proof {
        assert(dec_digits(0int) =~= Seq::<u8>::empty());
        assert(dec_digits(n as int) =~= tmp@.reverse());
    }
    let m: usize = tmp.len();
    let mut k: usize = 0;
    while k < m
        invariant
            m == tmp@.len(),
            k <= m,
            dec_digits(n as int) =~= tmp@.reverse(),
            out@ == old(out)@ + tmp@.reverse().take(k as int),
        decreases m - k,
    {
        out.push(tmp[m - 1 - k]);
        proof {
            assert(tmp@.reverse()[k as int] == tmp@[m as int - 1 - k as int]);
            assert(old(out)@ + tmp@.reverse().take(k as int) + seq![tmp@.reverse()[k as int]]
                =~= old(out)@ + tmp@.reverse().take(k as int + 1));
        }
        k = k + 1;
    }
    proof {
        assert(tmp@.reverse().take(m as int) =~= tmp@.reverse());
        assert(n > 0);
    }
}

/// Parse a decimal number starting at `start`: scan its digit run, reject a
/// missing run, a superfluous leading zero, or a value over `u64::MAX`, and
/// return the value with the position after the run.
pub fn parse_num_at(data: &[u8], start: usize) -> (r: Option<(u64, usize)>)
    requires
        start <= data@.len(),
    ensures
        match r {
            Some(p) => {
                &&& parse_num(data@.skip(start as int)) matches Some(q) && q.0 == p.0 && q.1
                    == data@.skip(p.1 as int)
                &&& start <= p.1 <= data@.len()
            },
            None => parse_num(data@.skip(start as int)) is None,
        },
{
    let ghost b: Seq<u8> = data@.skip(start as int);
    let mut j: usize = start;
    let mut val: u64 = 0;
    let mut overflow: bool = false;
    while j < data.len() && data[j] >= 48 && data[j] <= 57
        invariant
            start <= j <= data@.len(),
            b == data@.skip(start as int),
            forall|i: int| start <= i < j ==> is_digit(#[trigger] data@[i]),
            take_digits(b) =~= data@.subrange(start as int, j as int) + take_digits(
                data@.skip(j as int),
            ),
            !overflow ==> val == digits_val(data@.subrange(start as int, j as int)),
            overflow ==> digits_val(data@.subrange(start as int, j as int)) > u64::MAX,
        decreases data@.len() - j,
    {
        let dig: u8 = data[j];
        proof {
            assert(data@.skip(j as int)[0] == data@[j as int]);
            assert(data@.skip(j as int).drop_first() =~= data@.skip(j as int + 1));
            assert(data@.subrange(start as int, j as int + 1).drop_last() =~= data@.subrange(
                start as int,
                j as int,
            ));
            assert(data@.subrange(start as int, j as int + 1).last() == data@[j as int]);
            assert(digits_val(data@.subrange(start as int, j as int + 1)) == digits_val(
                data@.subrange(start as int, j as int),
            ) * 10 + (dig - 48));
        }
        if !overflow {
            let nv: u128 = (val as u128) * 10 + ((dig - 48) as u128);
            if nv > u64::MAX as u128 {
                overflow = true;
                proof {
                    assert(digits_val(data@.subrange(start as int, j as int + 1)) > u64::MAX);
                }
            } else {
                val = nv as u64;
            }
        } else {
            proof {
                let pre = data@.subrange(start as int, j as int);
                lemma_digits_val_nonneg(pre.drop_last());
                assert(digits_val(data@.subrange(start as int, j as int + 1)) > u64::MAX);
            }
        }
        j = j + 1;
    }
    proof {
        assert(data@.len() == j || !is_digit(data@[j as int]));
        if j < data@.len() {
            assert(data@.skip(j as int)[0] == data@[j as int]);
        }
        assert(take_digits(data@.skip(j as int)) =~= Seq::<u8>::empty());
        assert(take_digits(b) =~= data@.subrange(start as int, j as int));
    }
    let dlen: usize = j - start;
    if dlen == 0 {
        return None;
    }
    if dlen > 1 && data[start] == 48 {
        proof {
            assert(take_digits(b)[0] == data@[start as int]);
        }
        return None;
    }
    if overflow {
        return None;
    }
    proof {
        assert(b.skip(dlen as int) =~= data@.skip(j as int));
    }
    Some((val, j))
}

/// Parse a decimal number, allowing superfluous leading zeros: the maximal
/// digit run, which must be non-empty and fit in a `u64`.
pub open spec fn parse_num_lz(b: Seq<u8>) -> Option<(u64, Seq<u8>)> {
    let d = take_digits(b);
    if d.len() == 0 {
        None
    } else if digits_val(d) > u64::MAX {
        None
    } else {
        Some((digits_val(d) as u64, b.skip(d.len() as int)))
    }
}

/// Parse a decimal number with leading zeros allowed, starting at `start`.
pub fn parse_num_lz_at(data: &[u8], start: usize) -> (r: Option<(u64, usize)>)
    requires
        start <= data@.len(),
    ensures
        match r {
            Some(p) => {
                &&& parse_num_lz(data@.skip(start as int)) matches Some(q) && q.0 == p.0 && q.1
                    == data@.skip(p.1 as int)
                &&& start <= p.1 <= data@.len()
            },
            None => parse_num_lz(data@.skip(start as int)) is None,
        },
{
    let ghost b: Seq<u8> = data@.skip(start as int);
    let mut j: usize = start;
    let mut val: u64 = 0;
    let mut overflow: bool = false;
    while j < data.len() && data[j] >= 48 && data[j] <= 57
        invariant
            start <= j <= data@.len(),
            b == data@.skip(start as int),
            forall|i: int| start <= i < j ==> is_digit(#[trigger] data@[i]),
            take_digits(b) =~= data@.subrange(start as int, j as int) + take_digits(
                data@.skip(j as int),
            ),
            !overflow ==> val == digits_val(data@.subrange(start as int, j as int)),
            overflow ==> digits_val(data@.subrange(start as int, j as int)) > u64::MAX,
        decreases data@.len() - j,
    {
        let dig: u8 = data[j];
        proof {
            assert(data@.skip(j as int)[0] == data@[j as int]);
            assert(data@.skip(j as int).drop_first() =~= data@.skip(j as int + 1));
            assert(data@.subrange(start as int, j as int + 1).drop_last() =~= data@.subrange(
                start as int,
                j as int,
            ));
            assert(data@.subrange(start as int, j as int + 1).last() == data@[j as int]);
            assert(digits_val(data@.subrange(start as int, j as int + 1)) == digits_val(
                data@.subrange(start as int, j as int),
            ) * 10 + (dig - 48));
        }
        if !overflow {
            let nv: u128 = (val as u128) * 10 + ((dig - 48) as u128);
            if nv > u64::MAX as u128 {
                overflow = true;
                proof {
                    assert(digits_val(data@.subrange(start as int, j as int + 1)) > u64::MAX);
                }
            } else {
                val = nv as u64;
            }
        } else {
            proof {
                let pre = data@.subrange(start as int, j as int);
                lemma_digits_val_nonneg(pre.drop_last());
                assert(digits_val(data@.subrange(start as int, j as int + 1)) > u64::MAX);
            }
        }
        j = j + 1;
    }
    proof {
        if j < data@.len() {
            assert(data@.skip(j as int)[0] == data@[j as int]);
        }
        assert(take_digits(data@.skip(j as int)) =~= Seq::<u8>::empty());
        assert(take_digits(b) =~= data@.subrange(start as int, j as int));
    }
    let dlen: usize = j - start;
    if dlen == 0 {
        return None;
    }
    if overflow {
        return None;
    }
    proof {
        assert(b.skip(dlen as int) =~= data@.skip(j as int));
    }
    Some((val, j))
}

/// The maximal prefix of a byte string before the first space.
pub open spec fn take_word(b: Seq<u8>) -> Seq<u8>
    decreases b.len(),
{
    if b.len() == 0 || b[0] == SPACE {
        Seq::empty()
    } else {
        seq![b[0]] + take_word(b.drop_first())
    }
}

/// The word before a space (or the end) is read back exactly.
pub proof fn lemma_take_word(w: Seq<u8>, rest: Seq<u8>)
    requires
        forall|i: int| 0 <= i < w.len() ==> w[i] != SPACE,
        rest.len() == 0 || rest[0] == SPACE,
    ensures
        take_word(w + rest) == w,
        (w + rest).skip(w.len() as int) == rest,
    decreases w.len(),
{
    if w.len() == 0 {
        assert(w + rest =~= rest);
        assert(take_word(w + rest) =~= w);
        assert((w + rest).skip(0) =~= rest);
    } else {
        assert((w + rest).drop_first() =~= w.drop_first() + rest);
        lemma_take_word(w.drop_first(), rest);
        assert(take_word(w + rest) =~= seq![w[0]] + w.drop_first());
        assert(seq![w[0]] + w.drop_first() =~= w);
        assert((w + rest).skip(w.len() as int) =~= rest);
    }
}

/// The value of a 4-byte big-endian length prefix.
pub open spec fn be32_val(b: Seq<u8>) -> int {
    b[0] * 0x1000000 + b[1] * 0x10000 + b[2] * 0x100 + b[3]
}

/// Encode a length as its 4-byte big-endian prefix.
pub fn encode_frame_len(len: u32) -> (r: Vec<u8>)
    ensures
        r@.len() == 4,
        be32_val(r@) == len,
{
    let b0: u8 = (len >> 24) as u8;
    let b1: u8 = ((len >> 16) & 0xff) as u8;
    let b2: u8 = ((len >> 8) & 0xff) as u8;
    let b3: u8 = (len & 0xff) as u8;
    proof {
        assert(((len >> 24) & 0xff) * 0x1000000 + ((len >> 16) & 0xff) * 0x10000 + ((len >> 8)
            & 0xff) * 0x100 + (len & 0xff) == len) by (bit_vector);
        assert((len >> 24) & 0xff == (len >> 24)) by (bit_vector);
        assert((len >> 24) <= 0xff) by (bit_vector);
        assert((len >> 16) & 0xff <= 0xff) by (bit_vector);
        assert((len >> 8) & 0xff <= 0xff) by (bit_vector);
        assert(len & 0xff <= 0xff) by (bit_vector);
    }
    let mut r: Vec<u8> = Vec::new();
    r.push(b0);
    r.push(b1);
    r.push(b2);
    r.push(b3);
    r
}

/// Decode a 4-byte big-endian length prefix.
pub fn decode_frame_len(b: &[u8]) -> (r: u32)
    requires
        b@.len() == 4,
    ensures
        r == be32_val(b@),
{
    (b[0] as u32) * 0x1000000 + (b[1] as u32) * 0x10000 + (b[2] as u32) * 0x100 + (b[3] as u32)
}

/// Whether `b` begins with `p`.
pub open spec fn starts_with(b: Seq<u8>, p: Seq<u8>) -> bool {
    p.len() <= b.len() && b.take(p.len() as int) == p
}

/// The word `true` on the wire.
pub open spec fn lit_true() -> Seq<u8> {
    seq!['t' as u8, 'r' as u8, 'u' as u8, 'e' as u8]
}

/// The word `false` on the wire.
pub open spec fn lit_false() -> Seq<u8> {
    seq!['f' as u8, 'a' as u8, 'l' as u8, 's' as u8, 'e' as u8]
}

/// The word `null` on the wire.
pub open spec fn lit_null() -> Seq<u8> {
    seq!['n' as u8, 'u' as u8, 'l' as u8, 'l' as u8]
}

/// Emit a quoted, escaped string field body (without the leading space).
pub open spec fn ser_quoted(u: Seq<u8>) -> Seq<u8> {
    seq![QUOTE] + escape_bytes(u) + seq![QUOTE]
}

/// Emit a boolean.
pub open spec fn ser_bool(v: bool) -> Seq<u8> {
    if v {
        lit_true()
    } else {
        lit_false()
    }
}

/// Emit an optional number: `null` or its decimal rendering.
pub open spec fn ser_opt_num(v: Option<u64>) -> Seq<u8> {
    match v {
        Option::Some(n) => ser_num(n as int),
        Option::None => lit_null(),
    }
}

/// Parse a space followed by a quoted string; returns the unescaped bytes.
pub open spec fn parse_sp_string(b: Seq<u8>) -> Option<(Seq<u8>, Seq<u8>)> {
    if b.len() >= 2 && b[0] == SPACE && b[1] == QUOTE {
        parse_str_body(b.skip(2))
    } else {
        None
    }
}

/// Parse a space followed by a decimal number.
pub open spec fn parse_sp_num(b: Seq<u8>) -> Option<(u64, Seq<u8>)> {
    if b.len() >= 1 && b[0] == SPACE {
        parse_num(b.skip(1))
    } else {
        None
    }
}

/// Parse a space followed by `true` or `false`.
pub open spec fn parse_sp_bool(b: Seq<u8>) -> Option<(bool, Seq<u8>)> {
    if b.len() >= 1 && b[0] == SPACE {
        let c = b.skip(1);
        if starts_with(c, lit_true()) {
            Some((true, c.skip(lit_true().len() as int)))
        } else if starts_with(c, lit_false()) {
            Some((false, c.skip(lit_false().len() as int)))
        } else {
            None
        }
    } else {
        None
    }
}

/// Parse a space followed by `null` or a decimal number.
pub open spec fn parse_sp_opt_num(b: Seq<u8>) -> Option<(Option<u64>, Seq<u8>)> {
    if b.len() >= 1 && b[0] == SPACE {
        let c = b.skip(1);
        if starts_with(c, lit_null()) {
            Some((None, c.skip(lit_null().len() as int)))
        } else {
            match parse_num(c) {
                Option::Some(p) => Some((Some(p.0), p.1)),
                Option::None => None,
            }
        }
    } else {
        None
    }
}

/// A rendered string field parses back to its unescaped bytes.
pub proof fn lemma_sp_quoted_round_trip(u: Seq<u8>, rest: Seq<u8>)
    ensures
        parse_sp_string(seq![SPACE] + ser_quoted(u) + rest) matches Some(p) && p.0 == u && p.1
            == rest,
{
    let b = seq![SPACE] + ser_quoted(u) + rest;
    assert(b[0] == SPACE);
    assert(b[1] == QUOTE);
    assert(b.len() >= 2);
    assert(b.skip(2) =~= escape_bytes(u) + seq![QUOTE] + rest);
    lemma_str_body_round_trip(u, rest);
}

/// A rendered number field parses back to its value whenever what follows
/// does not begin with a digit.
pub proof fn lemma_sp_num_round_trip(n: u64, rest: Seq<u8>)
    requires
        rest.len() == 0 || !is_digit(rest[0]),
    ensures
        parse_sp_num(seq![SPACE] + ser_num(n as int) + rest) matches Some(p) && p.0 == n && p.1
            == rest,
{
    let b = seq![SPACE] + ser_num(n as int) + rest;
    assert(b[0] == SPACE);
    assert(b.skip(1) =~= ser_num(n as int) + rest);
    lemma_num_round_trip(n, rest);
}

/// A rendered boolean field parses back to its value.
pub proof fn lemma_sp_bool_round_trip(v: bool, rest: Seq<u8>)
    ensures
        parse_sp_bool(seq![SPACE] + ser_bool(v) + rest) matches Some(p) && p.0 == v && p.1 == rest,
{
    let b = seq![SPACE] + ser_bool(v) + rest;
    assert(b[0] == SPACE);
    assert(b.skip(1) =~= ser_bool(v) + rest);
    let c = ser_bool(v) + rest;
    if v {
        assert(c.take(lit_true().len() as int) =~= lit_true());
        assert(c.skip(lit_true().len() as int) =~= rest);
    } else {
        assert(c.take(lit_false().len() as int) =~= lit_false());
        assert(!starts_with(c, lit_true())) by {
            if starts_with(c, lit_true()) {
                assert(c.take(lit_true().len() as int)[0] == lit_true()[0]);
            }
        }
        assert(c.skip(lit_false().len() as int) =~= rest);
    }
}

/// A rendered optional number parses back to its value whenever what
/// follows does not begin with a digit.
pub proof fn lemma_sp_opt_num_round_trip(v: Option<u64>, rest: Seq<u8>)
    requires
        rest.len() == 0 || !is_digit(rest[0]),
    ensures
        parse_sp_opt_num(seq![SPACE] + ser_opt_num(v) + rest) matches Some(p) && p.0 == v && p.1
            == rest,
{
    let b = seq![SPACE] + ser_opt_num(v) + rest;
    assert(b[0] == SPACE);
    assert(b.skip(1) =~= ser_opt_num(v) + rest);
    let c = ser_opt_num(v) + rest;
    match v {
        Option::None => {
            assert(c.take(lit_null().len() as int) =~= lit_null());
            assert(c.skip(lit_null().len() as int) =~= rest);
        },
        Option::Some(n) => {
            lemma_dec_digits_shape(n as int);
            assert(!starts_with(c, lit_null())) by {
                if starts_with(c, lit_null()) {
                    assert(c.take(lit_null().len() as int)[0] == lit_null()[0]);
                    assert(c[0] == 'n' as u8);
                    assert(c[0] == ser_num(n as int)[0]);
                    assert(is_digit(ser_num(n as int)[0]));
                }
            }
            lemma_num_round_trip(n, rest);
        },
    }
}

/// Whether the bytes of `data` between `i` and `j` are exactly `pat`.
pub fn range_eq(data: &[u8], i: usize, j: usize, pat: &[u8]) -> (r: bool)
    requires
        i <= j <= data@.len(),
    ensures
        r == (data@.subrange(i as int, j as int) == pat@),
{
    let plen: usize = pat.len();
    if j - i != plen {
        return false;
    }
    let mut k: usize = 0;
    while k < plen
        invariant
            i <= j <= data@.len(),
            plen == pat@.len(),
            j - i == plen,
            k <= plen,
            forall|a: int| 0 <= a < k ==> data@[i + a] == pat@[a],
        decreases plen - k,
    {
        if data[i + k] != pat[k] {
            proof {
                assert(data@.subrange(i as int, j as int)[k as int] == data@[i + k as int]);
            }
            return false;
        }
        k = k + 1;
    }
    proof {
        assert(data@.subrange(i as int, j as int) =~= pat@);
    }
    true
}

/// Append a boolean field body.
pub fn push_bool(out: &mut Vec<u8>, v: bool)
    ensures
        final(out)@ == old(out)@ + ser_bool(v),
{
    if v {
        out.push('t' as u8);
        out.push('r' as u8);
        out.push('u' as u8);
        out.push('e' as u8);
        proof {
            assert(out@ =~= old(out)@ + lit_true());
        }
    } else {
        out.push('f' as u8);
        out.push('a' as u8);
        out.push('l' as u8);
        out.push('s' as u8);
        out.push('e' as u8);
        proof {
            assert(out@ =~= old(out)@ + lit_false());
        }
    }
}

/// Append an optional-number field body.
pub fn push_opt_num(out: &mut Vec<u8>, v: Option<u64>)
    ensures
        final(out)@ == old(out)@ + ser_opt_num(v),
{
    match v {
        Some(n) => {
            push_num(out, n);
        },
        None => {
            out.push('n' as u8);
            out.push('u' as u8);
            out.push('l' as u8);
            out.push('l' as u8);
            proof {
                assert(out@ =~= old(out)@ + lit_null());
            }
        },
    }
}

/// Parse a string field at `pos`: a space, then a quoted string. Returns
/// the unescaped bytes and the position after the closing quote.
pub fn parse_field_string(data: &[u8], pos: usize) -> (r: Option<(Vec<u8>, usize)>)
    requires
        pos <= data@.len(),
    ensures
        match r {
            Some(p) => {
                &&& parse_sp_string(data@.skip(pos as int)) matches Some(q) && q.0 == p.0@ && q.1
                    == data@.skip(p.1 as int)
                &&& pos <= p.1 <= data@.len()
            },
            None => parse_sp_string(data@.skip(pos as int)) is None,
        },
{
    if data.len() - pos < 2 {
        return None;
    }
    proof {
        assert(data@.skip(pos as int)[0] == data@[pos as int]);
        assert(data@.skip(pos as int)[1] == data@[pos as int + 1]);
    }
    if data[pos] != SPACE || data[pos + 1] != QUOTE {
        return None;
    }
    proof {
        assert(data@.skip(pos as int).skip(2) =~= data@.skip(pos as int + 2));
    }
    parse_string_at(data, pos + 2)
}

/// Parse a number field at `pos`: a space, then a decimal number.
pub fn parse_field_num(data: &[u8], pos: usize) -> (r: Option<(u64, usize)>)
    requires
        pos <= data@.len(),
    ensures
        match r {
            Some(p) => {
                &&& parse_sp_num(data@.skip(pos as int)) matches Some(q) && q.0 == p.0 && q.1
                    == data@.skip(p.1 as int)
                &&& pos <= p.1 <= data@.len()
            },
            None => parse_sp_num(data@.skip(pos as int)) is None,
        },
{
    if pos >= data.len() {
        return None;
    }
    proof {
        assert(data@.skip(pos as int)[0] == data@[pos as int]);
    }
    if data[pos] != SPACE {
        return None;
    }
    proof {
        assert(data@.skip(pos as int).skip(1) =~= data@.skip(pos as int + 1));
    }
    parse_num_at(data, pos + 1)
}

/// Parse a boolean field at `pos`: a space, then `true` or `false`.
pub fn parse_field_bool(data: &[u8], pos: usize) -> (r: Option<(bool, usize)>)
    requires
        pos <= data@.len(),
    ensures
        match r {
            Some(p) => {
                &&& parse_sp_bool(data@.skip(pos as int)) matches Some(q) && q.0 == p.0 && q.1
                    == data@.skip(p.1 as int)
                &&& pos <= p.1 <= data@.len()
            },
            None => parse_sp_bool(data@.skip(pos as int)) is None,
        },
{
    if pos >= data.len() {
        return None;
    }
    proof {
        assert(data@.skip(pos as int)[0] == data@[pos as int]);
    }
    if data[pos] != SPACE {
        return None;
    }
    let c0: usize = pos + 1;
    let ghost c: Seq<u8> = data@.skip(c0 as int);
    proof {
        assert(data@.skip(pos as int).skip(1) =~= c);
    }
    if data.len() - c0 >= 4 && data[c0] == 't' as u8 && data[c0 + 1] == 'r' as u8 && data[c0 + 2]
        == 'u' as u8 && data[c0 + 3] == 'e' as u8 {
        proof {
            assert(c.take(4) =~= lit_true()) by {
                assert(c.take(4).len() == 4);
                assert(c[0] == data@[c0 as int]);
                assert(c[1] == data@[c0 as int + 1]);
                assert(c[2] == data@[c0 as int + 2]);
                assert(c[3] == data@[c0 as int + 3]);
            }
            assert(c.skip(4) =~= data@.skip(c0 as int + 4));
        }
        return Some((true, c0 + 4));
    }
    if data.len() - c0 >= 5 && data[c0] == 'f' as u8 && data[c0 + 1] == 'a' as u8 && data[c0 + 2]
        == 'l' as u8 && data[c0 + 3] == 's' as u8 && data[c0 + 4] == 'e' as u8 {
        proof {
            assert(!starts_with(c, lit_true())) by {
                if starts_with(c, lit_true()) {
                    assert(c.take(4)[0] == lit_true()[0]);
                }
            }
            assert(c.take(5) =~= lit_false()) by {
                assert(c.take(5).len() == 5);
                assert(c[0] == data@[c0 as int]);
                assert(c[1] == data@[c0 as int + 1]);
                assert(c[2] == data@[c0 as int + 2]);
                assert(c[3] == data@[c0 as int + 3]);
                assert(c[4] == data@[c0 as int + 4]);
            }
            assert(c.skip(5) =~= data@.skip(c0 as int + 5));
        }
        return Some((false, c0 + 5));
    }
    proof {
        if starts_with(c, lit_true()) {
            assert(c.take(4)[0] == lit_true()[0]);
            assert(c.take(4)[1] == lit_true()[1]);
            assert(c.take(4)[2] == lit_true()[2]);
            assert(c.take(4)[3] == lit_true()[3]);
            assert(c[0] == data@[c0 as int]);
            assert(c[1] == data@[c0 as int + 1]);
            assert(c[2] == data@[c0 as int + 2]);
            assert(c[3] == data@[c0 as int + 3]);
        }
        if starts_with(c, lit_false()) {
            assert(c.take(5)[0] == lit_false()[0]);
            assert(c.take(5)[1] == lit_false()[1]);
            assert(c.take(5)[2] == lit_false()[2]);
            assert(c.take(5)[3] == lit_false()[3]);
            assert(c.take(5)[4] == lit_false()[4]);
            assert(c[0] == data@[c0 as int]);
            assert(c[1] == data@[c0 as int + 1]);
            assert(c[2] == data@[c0 as int + 2]);
            assert(c[3] == data@[c0 as int + 3]);
            assert(c[4] == data@[c0 as int + 4]);
        }
    }
    None
}

/// Parse an optional-number field at `pos`: a space, then `null` or a
/// decimal number.
pub fn parse_field_opt_num(data: &[u8], pos: usize) -> (r: Option<(Option<u64>, usize)>)
    requires
        pos <= data@.len(),
    ensures
        match r {
            Some(p) => {
                &&& parse_sp_opt_num(data@.skip(pos as int)) matches Some(q) && q.0 == p.0 && q.1
                    == data@.skip(p.1 as int)
                &&& pos <= p.1 <= data@.len()
            },
            None => parse_sp_opt_num(data@.skip(pos as int)) is None,
        },
{
    if pos >= data.len() {
        return None;
    }
    proof {
        assert(data@.skip(pos as int)[0] == data@[pos as int]);
    }
    if data[pos] != SPACE {
        return None;
    }
    let c0: usize = pos + 1;
    let ghost c: Seq<u8> = data@.skip(c0 as int);
    proof {
        assert(data@.skip(pos as int).skip(1) =~= c);
    }
    if data.len() - c0 >= 4 && data[c0] == 'n' as u8 && data[c0 + 1] == 'u' as u8 && data[c0 + 2]
        == 'l' as u8 && data[c0 + 3] == 'l' as u8 {
        proof {
            assert(c.take(4) =~= lit_null()) by {
                assert(c.take(4).len() == 4);
                assert(c[0] == data@[c0 as int]);
                assert(c[1] == data@[c0 as int + 1]);
                assert(c[2] == data@[c0 as int + 2]);
                assert(c[3] == data@[c0 as int + 3]);
            }
            assert(c.skip(4) =~= data@.skip(c0 as int + 4));
        }
        return Some((None, c0 + 4));
    }
    proof {
        if starts_with(c, lit_null()) {
            assert(c.take(4)[0] == lit_null()[0]);
            assert(c.take(4)[1] == lit_null()[1]);
            assert(c.take(4)[2] == lit_null()[2]);
            assert(c.take(4)[3] == lit_null()[3]);
            assert(c[0] == data@[c0 as int]);
            assert(c[1] == data@[c0 as int + 1]);
            assert(c[2] == data@[c0 as int + 2]);
            assert(c[3] == data@[c0 as int + 3]);
        }
    }
    match parse_num_at(data, c0) {
        Some(p) => Some((Some(p.0), p.1)),
        None => None,
    }
}

/// Find the end of the word starting at `start`: the first space or the end
/// of the input.
pub fn scan_word(data: &[u8], start: usize) -> (r: usize)
    requires
        start <= data@.len(),
    ensures
        start <= r <= data@.len(),
        take_word(data@.skip(start as int)) =~= data@.subrange(start as int, r as int),
        r == data@.len() || data@[r as int] == SPACE,
{
    let mut j: usize = start;
    while j < data.len() && data[j] != SPACE
        invariant
            start <= j <= data@.len(),
            forall|i: int| start <= i < j ==> data@[i] != SPACE,
            take_word(data@.skip(start as int)) =~= data@.subrange(start as int, j as int)
                + take_word(data@.skip(j as int)),
        decreases data@.len() - j,
    {
        proof {
            assert(data@.skip(j as int)[0] == data@[j as int]);
            assert(data@.skip(j as int).drop_first() =~= data@.skip(j as int + 1));
        }
        j = j + 1;
    }
    proof {
        if j < data@.len() {
            assert(data@.skip(j as int)[0] == data@[j as int]);
        }
        assert(take_word(data@.skip(j as int)) =~= Seq::<u8>::empty());
    }
    j
}

} // verus!
