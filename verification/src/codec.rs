//! The persisted form of the knowledge base: a fixed binary layout that
//! round-trips exactly, so that a reloaded knowledge base is the one that was
//! stored. Integers are little-endian, fixed width; text is a count followed
//! by one scalar value per character.
use vstd::prelude::*;
use vstd::utf8::char_is_scalar;
use vstd::utf8::char_u32_cast;
use vstd::utf8::is_scalar;
use crate::text::push_char;

verus! {

broadcast use vstd::seq::group_seq_axioms, char_is_scalar, char_u32_cast;

/// The little-endian bytes of `n`, `w` of them.
pub open spec fn enc_int(n: int, w: nat) -> Seq<u8>
    decreases w,
{
    if w == 0 {
        Seq::empty()
    } else {
        seq![(n % 256) as u8] + enc_int(n / 256, (w - 1) as nat)
    }
}

/// The value read back from `w` little-endian bytes.
pub open spec fn dec_int(s: Seq<u8>) -> int
    decreases s.len(),
{
    if s.len() == 0 {
        0
    } else {
        (s[0] as int) + 256 * dec_int(s.drop_first())
    }
}

/// The `w`-th power of 256.
pub open spec fn pow256(w: nat) -> int
    decreases w,
{
    if w == 0 {
        1
    } else {
        256 * pow256((w - 1) as nat)
    }
}

/// Reading back the bytes of `n` gives `n`, for `n` within width.
pub proof fn lemma_int_round_trip(n: int, w: nat)
    requires
        0 <= n < pow256(w),
    ensures
        enc_int(n, w).len() == w,
        dec_int(enc_int(n, w)) == n,
    decreases w,
{
    if w == 0 {
    } else {
        let q = n / 256;
        let r = n % 256;
        assert(0 <= r < 256);
        assert(n == 256 * q + r);
        assert(q < pow256((w - 1) as nat)) by {
            if q >= pow256((w - 1) as nat) {
                assert(n >= 256 * pow256((w - 1) as nat));
            }
        }
        lemma_int_round_trip(q, (w - 1) as nat);
        assert(enc_int(n, w).drop_first() =~= enc_int(q, (w - 1) as nat));
    }
}

/// Appends the `w` little-endian bytes of `n`.
pub fn push_int(out: &mut Vec<u8>, n: u64, w: u64)
    requires
        w <= 8,
    ensures
        final(out)@ == old(out)@ + enc_int(n as int, w as nat),
    decreases w,
{
    if w == 0 {
        proof {
            assert(old(out)@ + enc_int(n as int, 0) =~= old(out)@);
        }
    } else {
        let b: u8 = (n % 256) as u8;
        out.push(b);
        let ghost mid = out@;
        push_int(out, n / 256, w - 1);
        proof {
            assert(old(out)@ + enc_int(n as int, w as nat) =~= (old(out)@.push(
                (n as int % 256) as u8,
            )) + enc_int(n as int / 256, (w - 1) as nat));
        }
    }
}

/// Reads back `w` little-endian bytes from `pos`.
pub fn read_int(data: &Vec<u8>, pos: usize, w: u64) -> (r: Option<(u64, usize)>)
    requires
        w <= 8,
    ensures
        ({
            match r {
                Some(p) => {
                    &&& pos + w <= data@.len()
                    &&& p.1 == pos + w
                    &&& p.0 as int == dec_int(data@.subrange(pos as int, pos + w))
                    &&& (p.0 as int) < pow256(w as nat)
                },
                None => pos + w > data@.len(),
            }
        }),
    decreases w,
{
    if w == 0 {
        if pos <= data.len() {
            proof {
                assert(data@.subrange(pos as int, pos as int) =~= Seq::<u8>::empty());
            }
            Some((0, pos))
        } else {
            None
        }
    } else {
        if pos >= data.len() {
            return None;
        }
        let b = data[pos];
        match read_int(data, pos + 1, w - 1) {
            None => None,
            Some(p) => {
                let rest = p.0;
                proof {
                    assert(pow256((w - 1) as nat) >= 1) by {
                        lemma_pow256_pos((w - 1) as nat);
                    }
                    assert(rest as int * 256 + b < pow256(w as nat)) by {
                        assert(rest as int <= pow256((w - 1) as nat) - 1);
                        assert(rest as int * 256 <= (pow256((w - 1) as nat) - 1) * 256) by (
                        nonlinear_arith)
                            requires
                                rest as int <= pow256((w - 1) as nat) - 1,
                        ;
                    }
                    lemma_pow256_values();
                    lemma_pow256_mono(w as nat, 8);
                }
                let value: u64 = (b as u64) + 256 * rest;
                proof {
                    let s = data@.subrange(pos as int, pos + w);
                    assert(s[0] == b);
                    assert(s.drop_first() =~= data@.subrange(pos + 1 as int, pos + 1 + (w - 1)));
                }
                Some((value, p.1))
            },
        }
    }
}

/// The concrete powers of 256 the fixed widths use.
pub proof fn lemma_pow256_values()
    ensures
        pow256(1) == 0x100,
        pow256(4) == 0x100000000,
        pow256(8) == 0x10000000000000000,
{
    assert(pow256(0) == 1);
    assert(pow256(1) == 256 * pow256(0));
    assert(pow256(2) == 256 * pow256(1));
    assert(pow256(3) == 256 * pow256(2));
    assert(pow256(4) == 256 * pow256(3));
    assert(pow256(5) == 256 * pow256(4));
    assert(pow256(6) == 256 * pow256(5));
    assert(pow256(7) == 256 * pow256(6));
    assert(pow256(8) == 256 * pow256(7));
}

/// Powers of 256 are positive.
pub proof fn lemma_pow256_pos(w: nat)
    ensures
        pow256(w) >= 1,
    decreases w,
{
    if w > 0 {
        lemma_pow256_pos((w - 1) as nat);
    }
}

/// Powers of 256 grow with the width.
pub proof fn lemma_pow256_mono(a: nat, b: nat)
    requires
        a <= b,
    ensures
        pow256(a) <= pow256(b),
    decreases b,
{
    if a < b {
        lemma_pow256_mono(a, (b - 1) as nat);
        lemma_pow256_pos((b - 1) as nat);
    }
}

/// Relies on `char::from_u32`: the value back as a character when it is a
/// Unicode scalar value, and nothing otherwise.
#[verifier::external_body]
fn char_from_u32(u: u32) -> (r: Option<char>)
    ensures
        match r {
            Some(c) => (c as u32) == u,
            None => !is_scalar(u),
        },
{
    char::from_u32(u)
}

/// The bytes of one character: its scalar value, four bytes wide.
pub open spec fn enc_char(c: char) -> Seq<u8> {
    enc_int(c as u32 as int, 4)
}

/// The character read back at `pos`, if the four bytes hold a scalar value.
pub open spec fn dec_char(s: Seq<u8>) -> Option<(char, Seq<u8>)> {
    if s.len() < 4 {
        None
    } else {
        let u = dec_int(s.take(4));
        if 0 <= u < 0x100000000 && is_scalar(u as u32) {
            Some(((u as u32) as char, s.skip(4)))
        } else {
            None
        }
    }
}

/// Characters round-trip: a character is recovered from its scalar value.
pub proof fn lemma_char_round_trip(c: char, rest: Seq<u8>)
    ensures
        dec_char(enc_char(c) + rest) == Some((c, rest)),
{
    let s = enc_char(c) + rest;
    assert((c as u32 as int) < pow256(4)) by {
        lemma_pow256_values();
    }
    lemma_int_round_trip(c as u32 as int, 4);
    assert(s.take(4) =~= enc_char(c));
    assert(dec_int(s.take(4)) == c as u32 as int);
    char_is_scalar(c);
    char_u32_cast(c, c as u32);
    assert(s.skip(4) =~= rest);
}

/// Appends one character.
pub fn push_char_bytes(out: &mut Vec<u8>, c: char)
    ensures
        final(out)@ == old(out)@ + enc_char(c),
{
    let u = c as u32;
    push_int(out, u as u64, 4);
}

/// Reads back one character from `pos`.
pub fn read_char(data: &Vec<u8>, pos: usize) -> (r: Option<(char, usize)>)
    ensures
        ({
            match r {
                Some(p) => {
                    &&& dec_char(data@.skip(pos as int)) matches Some(q) && q.0 == p.0
                    &&& pos + 4 == p.1 <= data@.len()
                    &&& data@.skip(p.1 as int) == dec_char(data@.skip(pos as int)).unwrap().1
                },
                None => dec_char(data@.skip(pos as int)) is None || pos > data@.len(),
            }
        }),
{
    match read_int(data, pos, 4) {
        None => {
            proof {
                if pos <= data@.len() {
                    assert(data@.skip(pos as int).len() < 4);
                }
            }
            None
        },
        Some(p) => {
            proof {
                assert(data@.skip(pos as int).take(4) =~= data@.subrange(pos as int, pos + 4));
                lemma_pow256_values();
            }
            if p.0 > 0xFFFFFFFF {
                proof {
                    assert(false);
                }
                None
            } else {
                let u: u32 = p.0 as u32;
                match char_from_u32(u) {
                    Some(c) => {
                        proof {
                            assert(u as int == p.0 as int);
                            assert((c as u32) == u);
                            assert(p.0 as int == dec_int(
                                data@.subrange(pos as int, pos as int + 4),
                            ));
                            assert(data@.skip(pos as int).take(4) == data@.subrange(
                                pos as int,
                                pos as int + 4,
                            ));
                            char_is_scalar(c);
                            char_u32_cast(c, u);
                            assert(data@.skip(pos as int).skip(4) =~= data@.skip(pos + 4));
                        }
                        Some((c, p.1))
                    },
                    None => {
                        proof {
                            assert(u as int == dec_int(data@.skip(pos as int).take(4)));
                            assert(!is_scalar(u));
                        }
                        None
                    },
                }
            }
        },
    }
}

} // verus!

verus! {

/// The two's-complement value of a signed integer, as an unsigned one.
pub open spec fn to_u64v(v: int) -> int {
    if v < 0 {
        v + 0x10000000000000000
    } else {
        v
    }
}

/// The signed value of a two's-complement unsigned one.
pub open spec fn from_u64v(u: int) -> int {
    if u >= 0x8000000000000000 {
        u - 0x10000000000000000
    } else {
        u
    }
}

/// The bytes of one boolean.
pub open spec fn enc_bool(b: bool) -> Seq<u8> {
    seq![if b {
        1u8
    } else {
        0u8
    }]
}

/// The boolean read back, one byte.
pub open spec fn dec_bool(s: Seq<u8>) -> Option<(bool, Seq<u8>)> {
    if s.len() < 1 {
        None
    } else if s[0] == 1u8 {
        Some((true, s.skip(1)))
    } else if s[0] == 0u8 {
        Some((false, s.skip(1)))
    } else {
        None
    }
}

pub proof fn lemma_bool_rt(b: bool, rest: Seq<u8>)
    ensures
        dec_bool(enc_bool(b) + rest) == Some((b, rest)),
{
    let s = enc_bool(b) + rest;
    assert(s[0] == (if b {
        1u8
    } else {
        0u8
    }));
    assert(s.skip(1) =~= rest);
}

/// Appends one boolean.
pub fn write_bool(out: &mut Vec<u8>, b: bool)
    ensures
        final(out)@ == old(out)@ + enc_bool(b),
{
    if b {
        out.push(1u8);
    } else {
        out.push(0u8);
    }
    proof {
        assert(out@ =~= old(out)@ + enc_bool(b));
    }
}

/// Reads back one boolean.
pub fn parse_bool(data: &Vec<u8>, pos: usize) -> (r: Option<(bool, usize)>)
    ensures
        match r {
            Some(p) => {
                &&& pos < data@.len() && p.1 == pos + 1
                &&& dec_bool(data@.skip(pos as int)) == Some((p.0, data@.skip(p.1 as int)))
            },
            None => pos >= data@.len() || dec_bool(data@.skip(pos as int)) is None,
        },
{
    if pos >= data.len() {
        return None;
    }
    let b = data[pos];
    proof {
        assert(data@.skip(pos as int)[0] == b);
        assert(data@.skip(pos as int).skip(1) =~= data@.skip(pos + 1));
    }
    if b == 1u8 {
        Some((true, pos + 1))
    } else if b == 0u8 {
        Some((false, pos + 1))
    } else {
        None
    }
}

/// The bytes of one unsigned integer: eight, little-endian.
pub open spec fn enc_u64(n: int) -> Seq<u8> {
    enc_int(n, 8)
}

/// The unsigned integer read back, eight bytes.
pub open spec fn dec_u64(s: Seq<u8>) -> Option<(int, Seq<u8>)> {
    if s.len() < 8 {
        None
    } else {
        Some((dec_int(s.take(8)), s.skip(8)))
    }
}

pub proof fn lemma_u64_rt(n: int, rest: Seq<u8>)
    requires
        0 <= n < 0x10000000000000000,
    ensures
        dec_u64(enc_u64(n) + rest) == Some((n, rest)),
{
    lemma_pow256_values();
    lemma_int_round_trip(n, 8);
    let s = enc_u64(n) + rest;
    assert(s.take(8) =~= enc_u64(n));
    assert(s.skip(8) =~= rest);
}

/// Appends one unsigned integer.
pub fn write_u64(out: &mut Vec<u8>, n: u64)
    ensures
        final(out)@ == old(out)@ + enc_u64(n as int),
{
    push_int(out, n, 8);
}

/// Reads back one unsigned integer.
pub fn parse_u64(data: &Vec<u8>, pos: usize) -> (r: Option<(u64, usize)>)
    ensures
        match r {
            Some(p) => {
                &&& pos <= p.1 <= data@.len()
                &&& dec_u64(data@.skip(pos as int)) == Some((p.0 as int, data@.skip(p.1 as int)))
            },
            None => pos > data@.len() || dec_u64(data@.skip(pos as int)) is None,
        },
{
    match read_int(data, pos, 8) {
        None => {
            proof {
                if pos <= data@.len() {
                    assert(data@.skip(pos as int).len() < 8);
                }
            }
            None
        },
        Some(p) => {
            proof {
                assert(data@.skip(pos as int).take(8) =~= data@.subrange(pos as int, pos + 8));
                assert(data@.skip(pos as int).skip(8) =~= data@.skip(pos + 8));
            }
            Some((p.0, p.1))
        },
    }
}

/// The bytes of one signed integer: its two's complement, eight bytes.
pub open spec fn enc_i64(v: int) -> Seq<u8> {
    enc_u64(to_u64v(v))
}

/// The signed integer read back.
pub open spec fn dec_i64(s: Seq<u8>) -> Option<(int, Seq<u8>)> {
    match dec_u64(s) {
        Some(p) => Some((from_u64v(p.0), p.1)),
        None => None,
    }
}

pub proof fn lemma_i64_rt(v: int, rest: Seq<u8>)
    requires
        -0x8000000000000000 <= v < 0x8000000000000000,
    ensures
        dec_i64(enc_i64(v) + rest) == Some((v, rest)),
{
    lemma_u64_rt(to_u64v(v), rest);
}

/// Appends one signed integer.
pub fn write_i64(out: &mut Vec<u8>, v: i64)
    ensures
        final(out)@ == old(out)@ + enc_i64(v as int),
{
    proof {
        assert((v as u64) as int == to_u64v(v as int)) by (bit_vector);
    }
    write_u64(out, v as u64);
}

/// Reads back one signed integer.
pub fn parse_i64(data: &Vec<u8>, pos: usize) -> (r: Option<(i64, usize)>)
    ensures
        match r {
            Some(p) => {
                &&& pos <= p.1 <= data@.len()
                &&& dec_i64(data@.skip(pos as int)) == Some((p.0 as int, data@.skip(p.1 as int)))
            },
            None => pos > data@.len() || dec_i64(data@.skip(pos as int)) is None,
        },
{
    match parse_u64(data, pos) {
        None => None,
        Some(p) => {
            let v: i64 = p.0 as i64;
            proof {
                let u: u64 = p.0;
                assert((u as i64) as int == (if u >= 0x8000000000000000 {
                    u as int - 0x10000000000000000
                } else {
                    u as int
                })) by (bit_vector);
            }
            Some((v, p.1))
        },
    }
}

/// The bytes of a text: its character count, then one scalar value each.
pub open spec fn enc_chars(s: Seq<char>) -> Seq<u8>
    decreases s.len(),
{
    if s.len() == 0 {
        Seq::empty()
    } else {
        enc_char(s[0]) + enc_chars(s.drop_first())
    }
}

/// The bytes of one string.
pub open spec fn enc_str(s: Seq<char>) -> Seq<u8> {
    enc_u64(s.len() as int) + enc_chars(s)
}

/// `n` characters read back.
pub open spec fn dec_chars(s: Seq<u8>, n: int) -> Option<(Seq<char>, Seq<u8>)>
    decreases n,
{
    if n <= 0 {
        Some((Seq::empty(), s))
    } else {
        match dec_char(s) {
            None => None,
            Some(p) => match dec_chars(p.1, n - 1) {
                None => None,
                Some(q) => Some((seq![p.0] + q.0, q.1)),
            },
        }
    }
}

/// One string read back.
pub open spec fn dec_str(s: Seq<u8>) -> Option<(Seq<char>, Seq<u8>)> {
    match dec_u64(s) {
        None => None,
        Some(p) => dec_chars(p.1, p.0),
    }
}

pub proof fn lemma_chars_rt(s: Seq<char>, rest: Seq<u8>)
    ensures
        dec_chars(enc_chars(s) + rest, s.len() as int) == Some((s, rest)),
    decreases s.len(),
{
    if s.len() == 0 {
        assert(enc_chars(s) + rest =~= rest);
        assert(dec_chars(rest, 0) == Some((Seq::<char>::empty(), rest)));
        assert(Seq::<char>::empty() =~= s);
    } else {
        lemma_char_round_trip(s[0], enc_chars(s.drop_first()) + rest);
        assert(enc_chars(s) + rest =~= enc_char(s[0]) + (enc_chars(s.drop_first()) + rest));
        lemma_chars_rt(s.drop_first(), rest);
        assert(seq![s[0]] + s.drop_first() =~= s);
    }
}

pub proof fn lemma_str_rt(s: Seq<char>, rest: Seq<u8>)
    requires
        s.len() < 0x10000000000000000,
    ensures
        dec_str(enc_str(s) + rest) == Some((s, rest)),
{
    lemma_u64_rt(s.len() as int, enc_chars(s) + rest);
    assert(enc_str(s) + rest =~= enc_u64(s.len() as int) + (enc_chars(s) + rest));
    lemma_chars_rt(s, rest);
}

/// Appends one string.
pub fn write_str(out: &mut Vec<u8>, s: &str)
    ensures
        final(out)@ == old(out)@ + enc_str(s@),
{
    let len = s.unicode_len();
    write_u64(out, len as u64);
    let ghost mid = out@;
    let mut i: usize = 0;
    while i < len
        invariant
            len == s@.len(),
            i <= len,
            out@ == mid + enc_chars(s@.take(i as int)),
        decreases len - i,
    {
        let c = s.get_char(i);
        let ghost acc = out@;
        push_char_bytes(out, c);
        proof {
            lemma_enc_chars_push(s@.take(i as int), s@[i as int]);
            assert(s@.take(i + 1 as int) =~= s@.take(i as int).push(s@[i as int]));
            assert(out@ =~= mid + enc_chars(s@.take(i + 1 as int)));
        }
        i = i + 1;
    }
    proof {
        assert(s@.take(len as int) =~= s@);
        assert(out@ =~= old(out)@ + enc_str(s@));
    }
}

proof fn lemma_enc_chars_push(s: Seq<char>, c: char)
    ensures
        enc_chars(s.push(c)) == enc_chars(s) + enc_char(c),
    decreases s.len(),
{
    if s.len() == 0 {
        let sp = s.push(c);
        assert(sp.drop_first() =~= Seq::<char>::empty());
        assert(sp[0] == c);
        assert(enc_chars(sp) == enc_char(c) + enc_chars(Seq::<char>::empty()));
        assert(enc_chars(Seq::<char>::empty()) =~= Seq::<u8>::empty());
        assert(enc_chars(sp) =~= enc_chars(s) + enc_char(c));
    } else {
        assert(s.push(c).drop_first() =~= s.drop_first().push(c));
        lemma_enc_chars_push(s.drop_first(), c);
        assert(enc_chars(s.push(c)) =~= enc_chars(s) + enc_char(c));
    }
}

/// Reads back one string.
pub fn parse_str(data: &Vec<u8>, pos: usize) -> (r: Option<(String, usize)>)
    ensures
        match r {
            Some(p) => {
                &&& pos <= p.1 <= data@.len()
                &&& dec_str(data@.skip(pos as int)) == Some((p.0@, data@.skip(p.1 as int)))
            },
            None => pos > data@.len() || dec_str(data@.skip(pos as int)) is None,
        },
{
    let (count, chars_pos) = match parse_u64(data, pos) {
        Some(p) => p,
        None => {
            return None;
        },
    };
    let mut out = String::new();
    let mut cur = chars_pos;
    let mut remaining = count;
    proof {
        if dec_chars(data@.skip(chars_pos as int), count as int) is Some {
            let q = dec_chars(data@.skip(chars_pos as int), count as int)->Some_0;
            assert(Seq::<char>::empty() + q.0 =~= q.0);
        }
    }
    while remaining > 0
        invariant
            pos <= chars_pos <= cur <= data@.len(),
            0 <= remaining <= count,
            out@.len() == count - remaining,
            dec_u64(data@.skip(pos as int)) == Some((count as int, data@.skip(chars_pos as int))),
            dec_chars(data@.skip(chars_pos as int), count as int) == (match dec_chars(
                data@.skip(cur as int),
                remaining as int,
            ) {
                Some(q) => Some::<(Seq<char>, Seq<u8>)>((out@ + q.0, q.1)),
                None => None::<(Seq<char>, Seq<u8>)>,
            }),
        decreases remaining,
    {
        match read_char(data, cur) {
            Some(p) => {
                let ghost acc = out@;
                push_char(&mut out, p.0);
                proof {
                    if dec_chars(data@.skip(p.1 as int), remaining - 1) is Some {
                        let q = dec_chars(data@.skip(p.1 as int), remaining - 1)->Some_0;
                        assert(acc + (seq![p.0] + q.0) =~= (acc.push(p.0)) + q.0);
                    }
                }
                cur = p.1;
                remaining = remaining - 1;
            },
            None => {
                return None;
            },
        }
    }
    proof {
        assert(out@ + Seq::<char>::empty() =~= out@);
    }
    Some((out, cur))
}

} // verus!

verus! {

/// Concatenation of byte strings is associative.
pub proof fn lemma_assoc(a: Seq<u8>, b: Seq<u8>, c: Seq<u8>)
    ensures
        (a + b) + c == a + (b + c),
{
    assert((a + b) + c =~= a + (b + c));
}

/// The bytes of an optional string: a presence byte, then the string.
pub open spec fn enc_opt_str(o: Option<Seq<char>>) -> Seq<u8> {
    match o {
        Some(s) => enc_bool(true) + enc_str(s),
        None => enc_bool(false),
    }
}

/// The optional string read back.
pub open spec fn dec_opt_str(s: Seq<u8>) -> Option<(Option<Seq<char>>, Seq<u8>)> {
    match dec_bool(s) {
        None => None,
        Some(p) => if p.0 {
            match dec_str(p.1) {
                None => None,
                Some(q) => Some((Some(q.0), q.1)),
            }
        } else {
            Some((None, p.1))
        },
    }
}

pub proof fn lemma_opt_str_rt(o: Option<Seq<char>>, rest: Seq<u8>)
    requires
        o matches Some(s) ==> s.len() < 0x10000000000000000,
    ensures
        dec_opt_str(enc_opt_str(o) + rest) == Some((o, rest)),
{
    match o {
        Some(s) => {
            lemma_bool_rt(true, enc_str(s) + rest);
            assert(enc_opt_str(o) + rest =~= enc_bool(true) + (enc_str(s) + rest));
            lemma_str_rt(s, rest);
        },
        None => {
            lemma_bool_rt(false, rest);
        },
    }
}

/// Appends an optional string.
pub fn write_opt_str(out: &mut Vec<u8>, o: &Option<String>)
    ensures
        final(out)@ == old(out)@ + enc_opt_str(crate::data::opt_str_view(o)),
{
    match o {
        Some(s) => {
            write_bool(out, true);
            write_str(out, s.as_str());
            proof {
                assert(out@ =~= old(out)@ + enc_opt_str(crate::data::opt_str_view(o)));
            }
        },
        None => {
            write_bool(out, false);
        },
    }
}

/// Reads back an optional string.
pub fn parse_opt_str(data: &Vec<u8>, pos: usize) -> (r: Option<(Option<String>, usize)>)
    ensures
        match r {
            Some(p) => {
                &&& pos <= p.1 <= data@.len()
                &&& dec_opt_str(data@.skip(pos as int)) == Some(
                    (crate::data::opt_str_view(&p.0), data@.skip(p.1 as int)),
                )
            },
            None => pos > data@.len() || dec_opt_str(data@.skip(pos as int)) is None,
        },
{
    let (tag, p1) = match parse_bool(data, pos) {
        Some(p) => p,
        None => {
            return None;
        },
    };
    if tag {
        match parse_str(data, p1) {
            Some(q) => Some((Some(q.0), q.1)),
            None => None,
        }
    } else {
        Some((None, p1))
    }
}

/// The tag byte of a collection phase.
pub open spec fn enc_source(d: crate::data::DataSource) -> Seq<u8> {
    match d {
        crate::data::DataSource::CppParser => seq![0u8],
        crate::data::DataSource::CppChecker => seq![1u8],
    }
}

/// The collection phase read back.
pub open spec fn dec_source(s: Seq<u8>) -> Option<(crate::data::DataSource, Seq<u8>)> {
    if s.len() < 1 {
        None
    } else if s[0] == 0u8 {
        Some((crate::data::DataSource::CppParser, s.skip(1)))
    } else if s[0] == 1u8 {
        Some((crate::data::DataSource::CppChecker, s.skip(1)))
    } else {
        None
    }
}

pub proof fn lemma_source_rt(d: crate::data::DataSource, rest: Seq<u8>)
    ensures
        dec_source(enc_source(d) + rest) == Some((d, rest)),
{
    let s = enc_source(d) + rest;
    assert(s.skip(1) =~= rest);
}

/// Appends a collection phase.
pub fn write_source(out: &mut Vec<u8>, d: crate::data::DataSource)
    ensures
        final(out)@ == old(out)@ + enc_source(d),
{
    match d {
        crate::data::DataSource::CppParser => out.push(0u8),
        crate::data::DataSource::CppChecker => out.push(1u8),
    }
    proof {
        assert(out@ =~= old(out)@ + enc_source(d));
    }
}

/// Reads back a collection phase.
pub fn parse_source(data: &Vec<u8>, pos: usize) -> (r: Option<(crate::data::DataSource, usize)>)
    ensures
        match r {
            Some(p) => {
                &&& pos <= p.1 <= data@.len()
                &&& dec_source(data@.skip(pos as int)) == Some((p.0, data@.skip(p.1 as int)))
            },
            None => pos > data@.len() || dec_source(data@.skip(pos as int)) is None,
        },
{
    if pos >= data.len() {
        return None;
    }
    let b = data[pos];
    proof {
        assert(data@.skip(pos as int)[0] == b);
        assert(data@.skip(pos as int).skip(1) =~= data@.skip(pos + 1));
    }
    if b == 0u8 {
        Some((crate::data::DataSource::CppParser, pos + 1))
    } else if b == 1u8 {
        Some((crate::data::DataSource::CppChecker, pos + 1))
    } else {
        None
    }
}

/// The tag byte of a visibility.
pub open spec fn enc_visibility(v: crate::data::CppVisibility) -> Seq<u8> {
    match v {
        crate::data::CppVisibility::Public => seq![0u8],
        crate::data::CppVisibility::Protected => seq![1u8],
        crate::data::CppVisibility::Private => seq![2u8],
    }
}

/// The visibility read back.
pub open spec fn dec_visibility(s: Seq<u8>) -> Option<(crate::data::CppVisibility, Seq<u8>)> {
    if s.len() < 1 {
        None
    } else if s[0] == 0u8 {
        Some((crate::data::CppVisibility::Public, s.skip(1)))
    } else if s[0] == 1u8 {
        Some((crate::data::CppVisibility::Protected, s.skip(1)))
    } else if s[0] == 2u8 {
        Some((crate::data::CppVisibility::Private, s.skip(1)))
    } else {
        None
    }
}

pub proof fn lemma_visibility_rt(v: crate::data::CppVisibility, rest: Seq<u8>)
    ensures
        dec_visibility(enc_visibility(v) + rest) == Some((v, rest)),
{
    let s = enc_visibility(v) + rest;
    assert(s.skip(1) =~= rest);
}

/// Appends a visibility.
pub fn write_visibility(out: &mut Vec<u8>, v: crate::data::CppVisibility)
    ensures
        final(out)@ == old(out)@ + enc_visibility(v),
{
    match v {
        crate::data::CppVisibility::Public => out.push(0u8),
        crate::data::CppVisibility::Protected => out.push(1u8),
        crate::data::CppVisibility::Private => out.push(2u8),
    }
    proof {
        assert(out@ =~= old(out)@ + enc_visibility(v));
    }
}

/// Reads back a visibility.
pub fn parse_visibility(data: &Vec<u8>, pos: usize) -> (r: Option<
    (crate::data::CppVisibility, usize),
>)
    ensures
        match r {
            Some(p) => {
                &&& pos <= p.1 <= data@.len()
                &&& dec_visibility(data@.skip(pos as int)) == Some((p.0, data@.skip(p.1 as int)))
            },
            None => pos > data@.len() || dec_visibility(data@.skip(pos as int)) is None,
        },
{
    if pos >= data.len() {
        return None;
    }
    let b = data[pos];
    proof {
        assert(data@.skip(pos as int)[0] == b);
        assert(data@.skip(pos as int).skip(1) =~= data@.skip(pos + 1));
    }
    if b == 0u8 {
        Some((crate::data::CppVisibility::Public, pos + 1))
    } else if b == 1u8 {
        Some((crate::data::CppVisibility::Protected, pos + 1))
    } else if b == 2u8 {
        Some((crate::data::CppVisibility::Private, pos + 1))
    } else {
        None
    }
}

} // verus!

verus! {

/// Whether a string model fits the count width; every stored string does.
pub open spec fn str_ok(s: Seq<char>) -> bool {
    s.len() < 0x10000000000000000
}

/// Whether an unsigned model value fits eight bytes.
pub open spec fn u64_ok(n: int) -> bool {
    0 <= n < 0x10000000000000000
}

/// The bytes of a platform triple.
pub open spec fn enc_target(t: crate::data::TargetV) -> Seq<u8> {
    enc_str(t.arch) + enc_str(t.os) + enc_str(t.family) + enc_str(t.env)
}

/// The platform triple read back.
pub open spec fn dec_target(s: Seq<u8>) -> Option<(crate::data::TargetV, Seq<u8>)> {
    match dec_str(s) {
        None => None,
        Some(p1) => match dec_str(p1.1) {
            None => None,
            Some(p2) => match dec_str(p2.1) {
                None => None,
                Some(p3) => match dec_str(p3.1) {
                    None => None,
                    Some(p4) => Some(
                        (
                            crate::data::TargetV {
                                arch: p1.0,
                                os: p2.0,
                                family: p3.0,
                                env: p4.0,
                            },
                            p4.1,
                        ),
                    ),
                },
            },
        },
    }
}

/// Whether a platform triple model is storable.
pub open spec fn target_ok(t: crate::data::TargetV) -> bool {
    str_ok(t.arch) && str_ok(t.os) && str_ok(t.family) && str_ok(t.env)
}

pub proof fn lemma_target_rt(t: crate::data::TargetV, rest: Seq<u8>)
    requires
        target_ok(t),
    ensures
        dec_target(enc_target(t) + rest) == Some((t, rest)),
{
    let a = enc_str(t.arch);
    let b = enc_str(t.os);
    let c = enc_str(t.family);
    let d = enc_str(t.env);
    let r3 = d + rest;
    let r2 = c + r3;
    let r1 = b + r2;
    lemma_assoc(a + b + c, d, rest);
    lemma_assoc(a + b, c, r3);
    lemma_assoc(a, b, r2);
    assert(enc_target(t) + rest == a + r1);
    lemma_str_rt(t.arch, r1);
    lemma_str_rt(t.os, r2);
    lemma_str_rt(t.family, r3);
    lemma_str_rt(t.env, rest);
}

/// Appends a platform triple.
pub fn write_target(out: &mut Vec<u8>, t: &crate::data::Target)
    ensures
        final(out)@ == old(out)@ + enc_target(t@),
{
    write_str(out, t.arch.as_str());
    write_str(out, t.os.as_str());
    write_str(out, t.family.as_str());
    write_str(out, t.env.as_str());
    proof {
        assert(out@ =~= old(out)@ + enc_target(t@));
    }
}

/// Reads back a platform triple.
pub fn parse_target(data: &Vec<u8>, pos: usize) -> (r: Option<(crate::data::Target, usize)>)
    ensures
        match r {
            Some(p) => {
                &&& pos <= p.1 <= data@.len()
                &&& dec_target(data@.skip(pos as int)) == Some((p.0@, data@.skip(p.1 as int)))
            },
            None => pos > data@.len() || dec_target(data@.skip(pos as int)) is None,
        },
{
    let (arch, p1) = match parse_str(data, pos) {
        Some(p) => p,
        None => {
            return None;
        },
    };
    let (os, p2) = match parse_str(data, p1) {
        Some(p) => p,
        None => {
            return None;
        },
    };
    let (family, p3) = match parse_str(data, p2) {
        Some(p) => p,
        None => {
            return None;
        },
    };
    let (env, p4) = match parse_str(data, p3) {
        Some(p) => p,
        None => {
            return None;
        },
    };
    let t = crate::data::Target { arch, os, family, env };
    proof {
        assert(t@ =~= dec_target(data@.skip(pos as int)).unwrap().0);
    }
    Some((t, p4))
}

/// The bytes of an environment.
pub open spec fn enc_env(e: crate::data::DataEnvV) -> Seq<u8> {
    enc_target(e.target) + enc_source(e.data_source) + enc_opt_str(e.cpp_library_version)
}

/// The environment read back.
pub open spec fn dec_env(s: Seq<u8>) -> Option<(crate::data::DataEnvV, Seq<u8>)> {
    match dec_target(s) {
        None => None,
        Some(p1) => match dec_source(p1.1) {
            None => None,
            Some(p2) => match dec_opt_str(p2.1) {
                None => None,
                Some(p3) => Some(
                    (
                        crate::data::DataEnvV {
                            target: p1.0,
                            data_source: p2.0,
                            cpp_library_version: p3.0,
                        },
                        p3.1,
                    ),
                ),
            },
        },
    }
}

/// Whether an environment model is storable.
pub open spec fn env_ok(e: crate::data::DataEnvV) -> bool {
    target_ok(e.target) && (e.cpp_library_version matches Some(v) ==> str_ok(v))
}

pub proof fn lemma_env_rt(e: crate::data::DataEnvV, rest: Seq<u8>)
    requires
        env_ok(e),
    ensures
        dec_env(enc_env(e) + rest) == Some((e, rest)),
{
    let a = enc_target(e.target);
    let b = enc_source(e.data_source);
    let c = enc_opt_str(e.cpp_library_version);
    let r2 = c + rest;
    let r1 = b + r2;
    lemma_assoc(a + b, c, rest);
    lemma_assoc(a, b, r2);
    assert(enc_env(e) + rest == a + r1);
    lemma_target_rt(e.target, r1);
    lemma_source_rt(e.data_source, r2);
    lemma_opt_str_rt(e.cpp_library_version, rest);
}

/// Appends an environment.
pub fn write_env(out: &mut Vec<u8>, e: &crate::data::DataEnv)
    ensures
        final(out)@ == old(out)@ + enc_env(e@),
{
    write_target(out, &e.target);
    write_source(out, e.data_source);
    write_opt_str(out, &e.cpp_library_version);
    proof {
        assert(out@ =~= old(out)@ + enc_env(e@));
    }
}

/// Reads back an environment.
pub fn parse_env(data: &Vec<u8>, pos: usize) -> (r: Option<(crate::data::DataEnv, usize)>)
    ensures
        match r {
            Some(p) => {
                &&& pos <= p.1 <= data@.len()
                &&& dec_env(data@.skip(pos as int)) == Some((p.0@, data@.skip(p.1 as int)))
            },
            None => pos > data@.len() || dec_env(data@.skip(pos as int)) is None,
        },
{
    let (target, p1) = match parse_target(data, pos) {
        Some(p) => p,
        None => {
            return None;
        },
    };
    let (data_source, p2) = match parse_source(data, p1) {
        Some(p) => p,
        None => {
            return None;
        },
    };
    let (cpp_library_version, p3) = match parse_opt_str(data, p2) {
        Some(p) => p,
        None => {
            return None;
        },
    };
    let e = crate::data::DataEnv { target, data_source, cpp_library_version };
    proof {
        assert(e@ =~= dec_env(data@.skip(pos as int)).unwrap().0);
    }
    Some((e, p3))
}

/// The bytes of an origin location.
pub open spec fn enc_loc(l: crate::data::CppOriginLocationV) -> Seq<u8> {
    enc_str(l.include_file) + enc_u64(l.line) + enc_u64(l.column)
}

/// The origin location read back.
pub open spec fn dec_loc(s: Seq<u8>) -> Option<(crate::data::CppOriginLocationV, Seq<u8>)> {
    match dec_str(s) {
        None => None,
        Some(p1) => match dec_u64(p1.1) {
            None => None,
            Some(p2) => match dec_u64(p2.1) {
                None => None,
                Some(p3) => Some(
                    (
                        crate::data::CppOriginLocationV {
                            include_file: p1.0,
                            line: p2.0,
                            column: p3.0,
                        },
                        p3.1,
                    ),
                ),
            },
        },
    }
}

/// Whether an origin location model is storable.
pub open spec fn loc_ok(l: crate::data::CppOriginLocationV) -> bool {
    str_ok(l.include_file) && u64_ok(l.line) && u64_ok(l.column)
}

pub proof fn lemma_loc_rt(l: crate::data::CppOriginLocationV, rest: Seq<u8>)
    requires
        loc_ok(l),
    ensures
        dec_loc(enc_loc(l) + rest) == Some((l, rest)),
{
    lemma_str_rt(l.include_file, enc_u64(l.line) + enc_u64(l.column) + rest);
    assert(enc_loc(l) + rest =~= enc_str(l.include_file) + (enc_u64(l.line) + enc_u64(l.column)
        + rest));
    lemma_u64_rt(l.line, enc_u64(l.column) + rest);
    assert(enc_u64(l.line) + enc_u64(l.column) + rest =~= enc_u64(l.line) + (enc_u64(l.column)
        + rest));
    lemma_u64_rt(l.column, rest);
    assert(crate::data::CppOriginLocationV {
        include_file: l.include_file,
        line: l.line,
        column: l.column,
    } =~= l);
}

/// Appends an origin location.
pub fn write_loc(out: &mut Vec<u8>, l: &crate::data::CppOriginLocation)
    ensures
        final(out)@ == old(out)@ + enc_loc(l@),
{
    write_str(out, l.include_file.as_str());
    write_u64(out, l.line);
    write_u64(out, l.column);
    proof {
        assert(out@ =~= old(out)@ + enc_loc(l@));
    }
}

/// Reads back an origin location.
pub fn parse_loc(data: &Vec<u8>, pos: usize) -> (r: Option<
    (crate::data::CppOriginLocation, usize),
>)
    ensures
        match r {
            Some(p) => {
                &&& pos <= p.1 <= data@.len()
                &&& dec_loc(data@.skip(pos as int)) == Some((p.0@, data@.skip(p.1 as int)))
            },
            None => pos > data@.len() || dec_loc(data@.skip(pos as int)) is None,
        },
{
    let (include_file, p1) = match parse_str(data, pos) {
        Some(p) => p,
        None => {
            return None;
        },
    };
    let (line, p2) = match parse_u64(data, p1) {
        Some(p) => p,
        None => {
            return None;
        },
    };
    let (column, p3) = match parse_u64(data, p2) {
        Some(p) => p,
        None => {
            return None;
        },
    };
    let l = crate::data::CppOriginLocation { include_file, line, column };
    proof {
        assert(l@ =~= dec_loc(data@.skip(pos as int)).unwrap().0);
    }
    Some((l, p3))
}

/// The bytes of an optional origin location.
pub open spec fn enc_opt_loc(o: Option<crate::data::CppOriginLocationV>) -> Seq<u8> {
    match o {
        Some(l) => enc_bool(true) + enc_loc(l),
        None => enc_bool(false),
    }
}

/// The optional origin location read back.
pub open spec fn dec_opt_loc(s: Seq<u8>) -> Option<
    (Option<crate::data::CppOriginLocationV>, Seq<u8>),
> {
    match dec_bool(s) {
        None => None,
        Some(p) => if p.0 {
            match dec_loc(p.1) {
                None => None,
                Some(q) => Some((Some(q.0), q.1)),
            }
        } else {
            Some((None, p.1))
        },
    }
}

pub proof fn lemma_opt_loc_rt(o: Option<crate::data::CppOriginLocationV>, rest: Seq<u8>)
    requires
        o matches Some(l) ==> loc_ok(l),
    ensures
        dec_opt_loc(enc_opt_loc(o) + rest) == Some((o, rest)),
{
    match o {
        Some(l) => {
            lemma_bool_rt(true, enc_loc(l) + rest);
            assert(enc_opt_loc(o) + rest =~= enc_bool(true) + (enc_loc(l) + rest));
            lemma_loc_rt(l, rest);
        },
        None => {
            lemma_bool_rt(false, rest);
        },
    }
}

/// Appends an optional origin location.
pub fn write_opt_loc(out: &mut Vec<u8>, o: &Option<crate::data::CppOriginLocation>)
    ensures
        final(out)@ == old(out)@ + enc_opt_loc(crate::data::opt_loc_view(o)),
{
    match o {
        Some(l) => {
            write_bool(out, true);
            write_loc(out, l);
            proof {
                assert(out@ =~= old(out)@ + enc_opt_loc(crate::data::opt_loc_view(o)));
            }
        },
        None => {
            write_bool(out, false);
        },
    }
}

/// Reads back an optional origin location.
pub fn parse_opt_loc(data: &Vec<u8>, pos: usize) -> (r: Option<
    (Option<crate::data::CppOriginLocation>, usize),
>)
    ensures
        match r {
            Some(p) => {
                &&& pos <= p.1 <= data@.len()
                &&& dec_opt_loc(data@.skip(pos as int)) == Some(
                    (crate::data::opt_loc_view(&p.0), data@.skip(p.1 as int)),
                )
            },
            None => pos > data@.len() || dec_opt_loc(data@.skip(pos as int)) is None,
        },
{
    let (tag, p1) = match parse_bool(data, pos) {
        Some(p) => p,
        None => {
            return None;
        },
    };
    if tag {
        match parse_loc(data, p1) {
            Some(q) => Some((Some(q.0), q.1)),
            None => None,
        }
    } else {
        Some((None, p1))
    }
}

/// The bytes of an outcome.
pub open spec fn enc_info(i: crate::data::DataEnvInfoV) -> Seq<u8> {
    enc_bool(i.is_success) + enc_opt_str(i.error) + enc_opt_str(i.include_file) + enc_opt_loc(
        i.origin_location,
    ) + enc_bool(i.is_invalidated)
}

/// The outcome read back.
pub open spec fn dec_info(s: Seq<u8>) -> Option<(crate::data::DataEnvInfoV, Seq<u8>)> {
    match dec_bool(s) {
        None => None,
        Some(p1) => match dec_opt_str(p1.1) {
            None => None,
            Some(p2) => match dec_opt_str(p2.1) {
                None => None,
                Some(p3) => match dec_opt_loc(p3.1) {
                    None => None,
                    Some(p4) => match dec_bool(p4.1) {
                        None => None,
                        Some(p5) => Some(
                            (
                                crate::data::DataEnvInfoV {
                                    is_success: p1.0,
                                    error: p2.0,
                                    include_file: p3.0,
                                    origin_location: p4.0,
                                    is_invalidated: p5.0,
                                },
                                p5.1,
                            ),
                        ),
                    },
                },
            },
        },
    }
}

/// Whether an outcome model is storable.
pub open spec fn info_ok(i: crate::data::DataEnvInfoV) -> bool {
    &&& (i.error matches Some(s) ==> str_ok(s))
    &&& (i.include_file matches Some(s) ==> str_ok(s))
    &&& (i.origin_location matches Some(l) ==> loc_ok(l))
}

pub proof fn lemma_info_rt(i: crate::data::DataEnvInfoV, rest: Seq<u8>)
    requires
        info_ok(i),
    ensures
        dec_info(enc_info(i) + rest) == Some((i, rest)),
{
    let a = enc_bool(i.is_success);
    let b = enc_opt_str(i.error);
    let c = enc_opt_str(i.include_file);
    let d = enc_opt_loc(i.origin_location);
    let e = enc_bool(i.is_invalidated);
    let r4 = e + rest;
    let r3 = d + r4;
    let r2 = c + r3;
    let r1 = b + r2;
    lemma_assoc(a + b + c + d, e, rest);
    lemma_assoc(a + b + c, d, r4);
    lemma_assoc(a + b, c, r3);
    lemma_assoc(a, b, r2);
    assert(enc_info(i) + rest == a + r1);
    lemma_bool_rt(i.is_success, r1);
    lemma_opt_str_rt(i.error, r2);
    lemma_opt_str_rt(i.include_file, r3);
    lemma_opt_loc_rt(i.origin_location, r4);
    lemma_bool_rt(i.is_invalidated, rest);
}

/// Appends an outcome.
#[verifier::rlimit(60)]
pub fn write_info(out: &mut Vec<u8>, i: &crate::data::DataEnvInfo)
    ensures
        final(out)@ == old(out)@ + enc_info(i@),
{
    write_bool(out, i.is_success);
    write_opt_str(out, &i.error);
    write_opt_str(out, &i.include_file);
    write_opt_loc(out, &i.origin_location);
    write_bool(out, i.is_invalidated);
    proof {
        assert(out@ =~= old(out)@ + enc_info(i@));
    }
}

/// Reads back an outcome.
#[verifier::rlimit(60)]
pub fn parse_info(data: &Vec<u8>, pos: usize) -> (r: Option<(crate::data::DataEnvInfo, usize)>)
    ensures
        match r {
            Some(p) => {
                &&& pos <= p.1 <= data@.len()
                &&& dec_info(data@.skip(pos as int)) == Some((p.0@, data@.skip(p.1 as int)))
            },
            None => pos > data@.len() || dec_info(data@.skip(pos as int)) is None,
        },
{
    let (is_success, p1) = match parse_bool(data, pos) {
        Some(p) => p,
        None => {
            return None;
        },
    };
    let (error, p2) = match parse_opt_str(data, p1) {
        Some(p) => p,
        None => {
            return None;
        },
    };
    let (include_file, p3) = match parse_opt_str(data, p2) {
        Some(p) => p,
        None => {
            return None;
        },
    };
    let (origin_location, p4) = match parse_opt_loc(data, p3) {
        Some(p) => p,
        None => {
            return None;
        },
    };
    let (is_invalidated, p5) = match parse_bool(data, p4) {
        Some(p) => p,
        None => {
            return None;
        },
    };
    let i = crate::data::DataEnvInfo {
        is_success,
        error,
        include_file,
        origin_location,
        is_invalidated,
    };
    proof {
        assert(i@ =~= dec_info(data@.skip(pos as int)).unwrap().0);
    }
    Some((i, p5))
}

} // verus!

verus! {

/// The bytes of one environment record.
pub open spec fn enc_rec(r: crate::data::DataEnvWithInfoV) -> Seq<u8> {
    enc_env(r.env) + enc_info(r.info)
}

/// The environment record read back.
pub open spec fn dec_rec(s: Seq<u8>) -> Option<(crate::data::DataEnvWithInfoV, Seq<u8>)> {
    match dec_env(s) {
        None => None,
        Some(p1) => match dec_info(p1.1) {
            None => None,
            Some(p2) => Some(
                (crate::data::DataEnvWithInfoV { env: p1.0, info: p2.0 }, p2.1),
            ),
        },
    }
}

/// Whether an environment record model is storable.
pub open spec fn rec_ok(r: crate::data::DataEnvWithInfoV) -> bool {
    env_ok(r.env) && info_ok(r.info)
}

pub proof fn lemma_rec_rt(r: crate::data::DataEnvWithInfoV, rest: Seq<u8>)
    requires
        rec_ok(r),
    ensures
        dec_rec(enc_rec(r) + rest) == Some((r, rest)),
{
    let r1 = enc_info(r.info) + rest;
    lemma_assoc(enc_env(r.env), enc_info(r.info), rest);
    lemma_env_rt(r.env, r1);
    lemma_info_rt(r.info, rest);
}

/// Appends one environment record.
pub fn write_rec(out: &mut Vec<u8>, r: &crate::data::DataEnvWithInfo)
    ensures
        final(out)@ == old(out)@ + enc_rec(r@),
{
    write_env(out, &r.env);
    write_info(out, &r.info);
    proof {
        assert(out@ =~= old(out)@ + enc_rec(r@));
    }
}

/// Reads back one environment record.
pub fn parse_rec(data: &Vec<u8>, pos: usize) -> (r: Option<(crate::data::DataEnvWithInfo, usize)>)
    ensures
        match r {
            Some(p) => {
                &&& pos <= p.1 <= data@.len()
                &&& dec_rec(data@.skip(pos as int)) == Some((p.0@, data@.skip(p.1 as int)))
            },
            None => pos > data@.len() || dec_rec(data@.skip(pos as int)) is None,
        },
{
    let (env, p1) = match parse_env(data, pos) {
        Some(p) => p,
        None => {
            return None;
        },
    };
    let (info, p2) = match parse_info(data, p1) {
        Some(p) => p,
        None => {
            return None;
        },
    };
    let rec = crate::data::DataEnvWithInfo { env, info };
    proof {
        assert(rec@ =~= dec_rec(data@.skip(pos as int)).unwrap().0);
    }
    Some((rec, p2))
}

/// The bytes of an environment-record list, one record after another.
pub open spec fn enc_rec_items(rs: Seq<crate::data::DataEnvWithInfoV>) -> Seq<u8>
    decreases rs.len(),
{
    if rs.len() == 0 {
        Seq::empty()
    } else {
        enc_rec(rs[0]) + enc_rec_items(rs.drop_first())
    }
}

/// The bytes of an environment-record list with its count.
pub open spec fn enc_recs(rs: Seq<crate::data::DataEnvWithInfoV>) -> Seq<u8> {
    enc_u64(rs.len() as int) + enc_rec_items(rs)
}

/// `n` environment records read back.
pub open spec fn dec_rec_items(s: Seq<u8>, n: int) -> Option<
    (Seq<crate::data::DataEnvWithInfoV>, Seq<u8>),
>
    decreases n,
{
    if n <= 0 {
        Some((Seq::empty(), s))
    } else {
        match dec_rec(s) {
            None => None,
            Some(p) => match dec_rec_items(p.1, n - 1) {
                None => None,
                Some(q) => Some((seq![p.0] + q.0, q.1)),
            },
        }
    }
}

/// An environment-record list read back.
pub open spec fn dec_recs(s: Seq<u8>) -> Option<(Seq<crate::data::DataEnvWithInfoV>, Seq<u8>)> {
    match dec_u64(s) {
        None => None,
        Some(p) => dec_rec_items(p.1, p.0),
    }
}

/// Whether every record of a list is storable, and the list fits its count.
pub open spec fn recs_ok(rs: Seq<crate::data::DataEnvWithInfoV>) -> bool {
    rs.len() < 0x10000000000000000 && forall|i: int| 0 <= i < rs.len() ==> rec_ok(#[trigger] rs[i])
}

pub proof fn lemma_rec_items_rt(rs: Seq<crate::data::DataEnvWithInfoV>, rest: Seq<u8>)
    requires
        forall|i: int| 0 <= i < rs.len() ==> rec_ok(#[trigger] rs[i]),
    ensures
        dec_rec_items(enc_rec_items(rs) + rest, rs.len() as int) == Some((rs, rest)),
    decreases rs.len(),
{
    if rs.len() == 0 {
        assert(enc_rec_items(rs) + rest =~= rest);
        assert(Seq::<crate::data::DataEnvWithInfoV>::empty() =~= rs);
    } else {
        lemma_assoc(enc_rec(rs[0]), enc_rec_items(rs.drop_first()), rest);
        lemma_rec_rt(rs[0], enc_rec_items(rs.drop_first()) + rest);
        lemma_rec_items_rt(rs.drop_first(), rest);
        assert(seq![rs[0]] + rs.drop_first() =~= rs);
    }
}

pub proof fn lemma_recs_rt(rs: Seq<crate::data::DataEnvWithInfoV>, rest: Seq<u8>)
    requires
        recs_ok(rs),
    ensures
        dec_recs(enc_recs(rs) + rest) == Some((rs, rest)),
{
    lemma_assoc(enc_u64(rs.len() as int), enc_rec_items(rs), rest);
    lemma_u64_rt(rs.len() as int, enc_rec_items(rs) + rest);
    lemma_rec_items_rt(rs, rest);
}

proof fn lemma_enc_rec_items_push(rs: Seq<crate::data::DataEnvWithInfoV>, r: crate::data::DataEnvWithInfoV)
    ensures
        enc_rec_items(rs.push(r)) == enc_rec_items(rs) + enc_rec(r),
    decreases rs.len(),
{
    if rs.len() == 0 {
        let sp = rs.push(r);
        assert(sp.drop_first() =~= Seq::<crate::data::DataEnvWithInfoV>::empty());
        assert(sp[0] == r);
        assert(enc_rec_items(sp) == enc_rec(r) + enc_rec_items(
            Seq::<crate::data::DataEnvWithInfoV>::empty(),
        ));
        assert(enc_rec_items(Seq::<crate::data::DataEnvWithInfoV>::empty()) =~= Seq::<u8>::empty());
        assert(enc_rec_items(sp) =~= enc_rec_items(rs) + enc_rec(r));
    } else {
        assert(rs.push(r).drop_first() =~= rs.drop_first().push(r));
        lemma_enc_rec_items_push(rs.drop_first(), r);
        assert(enc_rec_items(rs.push(r)) =~= enc_rec_items(rs) + enc_rec(r));
    }
}

/// Appends an environment-record list.
pub fn write_recs(out: &mut Vec<u8>, rs: &Vec<crate::data::DataEnvWithInfo>)
    ensures
        final(out)@ == old(out)@ + enc_recs(crate::data::recs_view(rs)),
{
    let ghost rsv = crate::data::recs_view(rs);
    write_u64(out, rs.len() as u64);
    let ghost mid = out@;
    let mut i: usize = 0;
    while i < rs.len()
        invariant
            rsv == crate::data::recs_view(rs),
            rsv.len() == rs@.len(),
            i <= rs@.len(),
            out@ == mid + enc_rec_items(rsv.take(i as int)),
        decreases rs@.len() - i,
    {
        proof {
            assert(rsv[i as int] == rs@[i as int]@);
        }
        write_rec(out, &rs[i]);
        proof {
            lemma_enc_rec_items_push(rsv.take(i as int), rsv[i as int]);
            assert(rsv.take(i + 1 as int) =~= rsv.take(i as int).push(rsv[i as int]));
            assert(out@ =~= mid + enc_rec_items(rsv.take(i + 1 as int)));
        }
        i = i + 1;
    }
    proof {
        assert(rsv.take(rsv.len() as int) =~= rsv);
        assert(out@ =~= old(out)@ + enc_recs(rsv));
    }
}

/// Reads back an environment-record list.
pub fn parse_recs(data: &Vec<u8>, pos: usize) -> (r: Option<
    (Vec<crate::data::DataEnvWithInfo>, usize),
>)
    ensures
        match r {
            Some(p) => {
                &&& pos <= p.1 <= data@.len()
                &&& dec_recs(data@.skip(pos as int)) == Some(
                    (crate::data::recs_view(&p.0), data@.skip(p.1 as int)),
                )
            },
            None => pos > data@.len() || dec_recs(data@.skip(pos as int)) is None,
        },
{
    let (count, items_pos) = match parse_u64(data, pos) {
        Some(p) => p,
        None => {
            return None;
        },
    };
    let mut out: Vec<crate::data::DataEnvWithInfo> = Vec::new();
    let mut cur = items_pos;
    let mut remaining = count;
    proof {
        assert(crate::data::recs_view(&out) =~= Seq::<crate::data::DataEnvWithInfoV>::empty());
        if dec_rec_items(data@.skip(items_pos as int), count as int) is Some {
            let q = dec_rec_items(data@.skip(items_pos as int), count as int)->Some_0;
            assert(Seq::<crate::data::DataEnvWithInfoV>::empty() + q.0 =~= q.0);
        }
    }
    while remaining > 0
        invariant
            pos <= items_pos <= cur <= data@.len(),
            0 <= remaining <= count,
            out@.len() == count - remaining,
            dec_u64(data@.skip(pos as int)) == Some((count as int, data@.skip(items_pos as int))),
            dec_rec_items(data@.skip(items_pos as int), count as int) == (match dec_rec_items(
                data@.skip(cur as int),
                remaining as int,
            ) {
                Some(q) => Some::<(Seq<crate::data::DataEnvWithInfoV>, Seq<u8>)>(
                    (crate::data::recs_view(&out) + q.0, q.1),
                ),
                None => None::<(Seq<crate::data::DataEnvWithInfoV>, Seq<u8>)>,
            }),
        decreases remaining,
    {
        match parse_rec(data, cur) {
            Some(p) => {
                let ghost acc = crate::data::recs_view(&out);
                let ghost m = p.0@;
                out.push(p.0);
                proof {
                    assert(crate::data::recs_view(&out) =~= acc.push(m));
                    if dec_rec_items(data@.skip(p.1 as int), remaining - 1) is Some {
                        let q = dec_rec_items(data@.skip(p.1 as int), remaining - 1)->Some_0;
                        assert(acc + (seq![m] + q.0) =~= (acc.push(m)) + q.0);
                    }
                }
                cur = p.1;
                remaining = remaining - 1;
            },
            None => {
                return None;
            },
        }
    }
    proof {
        assert(crate::data::recs_view(&out) + Seq::<crate::data::DataEnvWithInfoV>::empty()
            =~= crate::data::recs_view(&out));
    }
    Some((out, cur))
}

} // verus!

verus! {

/// The bytes of a string list, one after another.
pub open spec fn enc_strs_items(xs: Seq<Seq<char>>) -> Seq<u8>
    decreases xs.len(),
{
    if xs.len() == 0 {
        Seq::empty()
    } else {
        enc_str(xs[0]) + enc_strs_items(xs.drop_first())
    }
}

/// The bytes of a string list with its count.
pub open spec fn enc_strs_list(xs: Seq<Seq<char>>) -> Seq<u8> {
    enc_u64(xs.len() as int) + enc_strs_items(xs)
}

/// `n` strings read back.
pub open spec fn dec_strs_items(s: Seq<u8>, n: int) -> Option<(Seq<Seq<char>>, Seq<u8>)>
    decreases n,
{
    if n <= 0 {
        Some((Seq::empty(), s))
    } else {
        match dec_str(s) {
            None => None,
            Some(p) => match dec_strs_items(p.1, n - 1) {
                None => None,
                Some(q) => Some((seq![p.0] + q.0, q.1)),
            },
        }
    }
}

/// A string list read back.
pub open spec fn dec_strs_list(s: Seq<u8>) -> Option<(Seq<Seq<char>>, Seq<u8>)> {
    match dec_u64(s) {
        None => None,
        Some(p) => dec_strs_items(p.1, p.0),
    }
}

/// Whether every string of a list is storable, and the list fits its count.
pub open spec fn strs_list_ok(xs: Seq<Seq<char>>) -> bool {
    xs.len() < 0x10000000000000000 && forall|i: int| 0 <= i < xs.len() ==> str_ok(#[trigger] xs[i])
}

pub proof fn lemma_strs_items_rt(xs: Seq<Seq<char>>, rest: Seq<u8>)
    requires
        forall|i: int| 0 <= i < xs.len() ==> str_ok(#[trigger] xs[i]),
    ensures
        dec_strs_items(enc_strs_items(xs) + rest, xs.len() as int) == Some((xs, rest)),
    decreases xs.len(),
{
    if xs.len() == 0 {
        assert(enc_strs_items(xs) + rest =~= rest);
        assert(Seq::<Seq<char>>::empty() =~= xs);
    } else {
        lemma_assoc(enc_str(xs[0]), enc_strs_items(xs.drop_first()), rest);
        lemma_str_rt(xs[0], enc_strs_items(xs.drop_first()) + rest);
        lemma_strs_items_rt(xs.drop_first(), rest);
        assert(seq![xs[0]] + xs.drop_first() =~= xs);
    }
}

pub proof fn lemma_strs_list_rt(xs: Seq<Seq<char>>, rest: Seq<u8>)
    requires
        strs_list_ok(xs),
    ensures
        dec_strs_list(enc_strs_list(xs) + rest) == Some((xs, rest)),
{
    lemma_assoc(enc_u64(xs.len() as int), enc_strs_items(xs), rest);
    lemma_u64_rt(xs.len() as int, enc_strs_items(xs) + rest);
    lemma_strs_items_rt(xs, rest);
}

proof fn lemma_enc_strs_items_push(xs: Seq<Seq<char>>, x: Seq<char>)
    ensures
        enc_strs_items(xs.push(x)) == enc_strs_items(xs) + enc_str(x),
    decreases xs.len(),
{
    if xs.len() == 0 {
        let sp = xs.push(x);
        assert(sp.drop_first() =~= Seq::<Seq<char>>::empty());
        assert(sp[0] == x);
        assert(enc_strs_items(sp) == enc_str(x) + enc_strs_items(Seq::<Seq<char>>::empty()));
        assert(enc_strs_items(Seq::<Seq<char>>::empty()) =~= Seq::<u8>::empty());
        assert(enc_strs_items(sp) =~= enc_strs_items(xs) + enc_str(x));
    } else {
        assert(xs.push(x).drop_first() =~= xs.drop_first().push(x));
        lemma_enc_strs_items_push(xs.drop_first(), x);
        assert(enc_strs_items(xs.push(x)) =~= enc_strs_items(xs) + enc_str(x));
    }
}

/// Appends a string list.
pub fn write_strs_list(out: &mut Vec<u8>, xs: &Vec<String>)
    ensures
        final(out)@ == old(out)@ + enc_strs_list(crate::data::strs_view(xs)),
{
    let ghost xsv = crate::data::strs_view(xs);
    write_u64(out, xs.len() as u64);
    let ghost mid = out@;
    let mut i: usize = 0;
    while i < xs.len()
        invariant
            xsv == crate::data::strs_view(xs),
            xsv.len() == xs@.len(),
            i <= xs@.len(),
            out@ == mid + enc_strs_items(xsv.take(i as int)),
        decreases xs@.len() - i,
    {
        proof {
            assert(xsv[i as int] == xs@[i as int]@);
        }
        write_str(out, xs[i].as_str());
        proof {
            lemma_enc_strs_items_push(xsv.take(i as int), xsv[i as int]);
            assert(xsv.take(i + 1 as int) =~= xsv.take(i as int).push(xsv[i as int]));
            assert(out@ =~= mid + enc_strs_items(xsv.take(i + 1 as int)));
        }
        i = i + 1;
    }
    proof {
        assert(xsv.take(xsv.len() as int) =~= xsv);
        assert(out@ =~= old(out)@ + enc_strs_list(xsv));
    }
}

/// Reads back a string list.
pub fn parse_strs_list(data: &Vec<u8>, pos: usize) -> (r: Option<(Vec<String>, usize)>)
    ensures
        match r {
            Some(p) => {
                &&& pos <= p.1 <= data@.len()
                &&& dec_strs_list(data@.skip(pos as int)) == Some(
                    (crate::data::strs_view(&p.0), data@.skip(p.1 as int)),
                )
            },
            None => pos > data@.len() || dec_strs_list(data@.skip(pos as int)) is None,
        },
{
    let (count, items_pos) = match parse_u64(data, pos) {
        Some(p) => p,
        None => {
            return None;
        },
    };
    let mut out: Vec<String> = Vec::new();
    let mut cur = items_pos;
    let mut remaining = count;
    proof {
        assert(crate::data::strs_view(&out) =~= Seq::<Seq<char>>::empty());
        if dec_strs_items(data@.skip(items_pos as int), count as int) is Some {
            let q = dec_strs_items(data@.skip(items_pos as int), count as int)->Some_0;
            assert(Seq::<Seq<char>>::empty() + q.0 =~= q.0);
        }
    }
    while remaining > 0
        invariant
            pos <= items_pos <= cur <= data@.len(),
            0 <= remaining <= count,
            out@.len() == count - remaining,
            dec_u64(data@.skip(pos as int)) == Some((count as int, data@.skip(items_pos as int))),
            dec_strs_items(data@.skip(items_pos as int), count as int) == (match dec_strs_items(
                data@.skip(cur as int),
                remaining as int,
            ) {
                Some(q) => Some::<(Seq<Seq<char>>, Seq<u8>)>((crate::data::strs_view(&out) + q.0, q.1)),
                None => None::<(Seq<Seq<char>>, Seq<u8>)>,
            }),
        decreases remaining,
    {
        match parse_str(data, cur) {
            Some(p) => {
                let ghost acc = crate::data::strs_view(&out);
                let ghost m = p.0@;
                out.push(p.0);
                proof {
                    assert(crate::data::strs_view(&out) =~= acc.push(m));
                    if dec_strs_items(data@.skip(p.1 as int), remaining - 1) is Some {
                        let q = dec_strs_items(data@.skip(p.1 as int), remaining - 1)->Some_0;
                        assert(acc + (seq![m] + q.0) =~= (acc.push(m)) + q.0);
                    }
                }
                cur = p.1;
                remaining = remaining - 1;
            },
            None => {
                return None;
            },
        }
    }
    proof {
        assert(crate::data::strs_view(&out) + Seq::<Seq<char>>::empty() =~= crate::data::strs_view(&out));
    }
    Some((out, cur))
}

} // verus!

verus! {

/// The bytes of a type fact: a tag, then the name or the class path.
pub open spec fn enc_type_data(t: crate::data::CppTypeDataV) -> Seq<u8> {
    match t {
        crate::data::CppTypeDataV::Enum { name } => seq![0u8] + enc_str(name),
        crate::data::CppTypeDataV::Class { type_base } => seq![1u8] + enc_str(type_base),
    }
}

/// The type fact read back.
pub open spec fn dec_type_data(s: Seq<u8>) -> Option<(crate::data::CppTypeDataV, Seq<u8>)> {
    if s.len() < 1 {
        None
    } else if s[0] == 0u8 {
        match dec_str(s.skip(1)) {
            None => None,
            Some(p) => Some((crate::data::CppTypeDataV::Enum { name: p.0 }, p.1)),
        }
    } else if s[0] == 1u8 {
        match dec_str(s.skip(1)) {
            None => None,
            Some(p) => Some((crate::data::CppTypeDataV::Class { type_base: p.0 }, p.1)),
        }
    } else {
        None
    }
}

/// Whether a type fact model is storable.
pub open spec fn type_data_ok(t: crate::data::CppTypeDataV) -> bool {
    match t {
        crate::data::CppTypeDataV::Enum { name } => str_ok(name),
        crate::data::CppTypeDataV::Class { type_base } => str_ok(type_base),
    }
}

pub proof fn lemma_type_data_rt(t: crate::data::CppTypeDataV, rest: Seq<u8>)
    requires
        type_data_ok(t),
    ensures
        dec_type_data(enc_type_data(t) + rest) == Some((t, rest)),
{
    match t {
        crate::data::CppTypeDataV::Enum { name } => {
            lemma_assoc(seq![0u8], enc_str(name), rest);
            let s = seq![0u8] + (enc_str(name) + rest);
            assert(s[0] == 0u8);
            assert(s.skip(1) =~= enc_str(name) + rest);
            lemma_str_rt(name, rest);
        },
        crate::data::CppTypeDataV::Class { type_base } => {
            lemma_assoc(seq![1u8], enc_str(type_base), rest);
            let s = seq![1u8] + (enc_str(type_base) + rest);
            assert(s[0] == 1u8);
            assert(s.skip(1) =~= enc_str(type_base) + rest);
            lemma_str_rt(type_base, rest);
        },
    }
}

/// Appends a type fact.
pub fn write_type_data(out: &mut Vec<u8>, t: &crate::data::CppTypeData)
    ensures
        final(out)@ == old(out)@ + enc_type_data(t@),
{
    match t {
        crate::data::CppTypeData::Enum { name } => {
            out.push(0u8);
            write_str(out, name.as_str());
            proof {
                assert(out@ =~= old(out)@ + enc_type_data(t@));
            }
        },
        crate::data::CppTypeData::Class { type_base } => {
            out.push(1u8);
            write_str(out, type_base.as_str());
            proof {
                assert(out@ =~= old(out)@ + enc_type_data(t@));
            }
        },
    }
}

/// Reads back a type fact.
pub fn parse_type_data(data: &Vec<u8>, pos: usize) -> (r: Option<(crate::data::CppTypeData, usize)>)
    ensures
        match r {
            Some(p) => {
                &&& pos <= p.1 <= data@.len()
                &&& dec_type_data(data@.skip(pos as int)) == Some((p.0@, data@.skip(p.1 as int)))
            },
            None => pos > data@.len() || dec_type_data(data@.skip(pos as int)) is None,
        },
{
    if pos >= data.len() {
        return None;
    }
    let tag = data[pos];
    proof {
        assert(data@.skip(pos as int)[0] == tag);
        assert(data@.skip(pos as int).skip(1) =~= data@.skip(pos + 1));
    }
    if tag == 0u8 {
        match parse_str(data, pos + 1) {
            Some(p) => {
                let t = crate::data::CppTypeData::Enum { name: p.0 };
                proof {
                    assert(t@ =~= dec_type_data(data@.skip(pos as int)).unwrap().0);
                }
                Some((t, p.1))
            },
            None => None,
        }
    } else if tag == 1u8 {
        match parse_str(data, pos + 1) {
            Some(p) => {
                let t = crate::data::CppTypeData::Class { type_base: p.0 };
                proof {
                    assert(t@ =~= dec_type_data(data@.skip(pos as int)).unwrap().0);
                }
                Some((t, p.1))
            },
            None => None,
        }
    } else {
        None
    }
}

/// The bytes of a method fact.
pub open spec fn enc_method(m: crate::data::CppMethodV) -> Seq<u8> {
    enc_str(m.return_type) + enc_str(m.name) + enc_strs_list(m.arguments) + enc_bool(m.is_const)
}

/// The method fact read back.
pub open spec fn dec_method(s: Seq<u8>) -> Option<(crate::data::CppMethodV, Seq<u8>)> {
    match dec_str(s) {
        None => None,
        Some(p1) => match dec_str(p1.1) {
            None => None,
            Some(p2) => match dec_strs_list(p2.1) {
                None => None,
                Some(p3) => match dec_bool(p3.1) {
                    None => None,
                    Some(p4) => Some(
                        (
                            crate::data::CppMethodV {
                                return_type: p1.0,
                                name: p2.0,
                                arguments: p3.0,
                                is_const: p4.0,
                            },
                            p4.1,
                        ),
                    ),
                },
            },
        },
    }
}

/// Whether a method fact model is storable.
pub open spec fn method_ok(m: crate::data::CppMethodV) -> bool {
    str_ok(m.return_type) && str_ok(m.name) && strs_list_ok(m.arguments)
}

pub proof fn lemma_method_rt(m: crate::data::CppMethodV, rest: Seq<u8>)
    requires
        method_ok(m),
    ensures
        dec_method(enc_method(m) + rest) == Some((m, rest)),
{
    let a = enc_str(m.return_type);
    let b = enc_str(m.name);
    let c = enc_strs_list(m.arguments);
    let d = enc_bool(m.is_const);
    let r3 = d + rest;
    let r2 = c + r3;
    let r1 = b + r2;
    lemma_assoc(a + b + c, d, rest);
    lemma_assoc(a + b, c, r3);
    lemma_assoc(a, b, r2);
    assert(enc_method(m) + rest == a + r1);
    lemma_str_rt(m.return_type, r1);
    lemma_str_rt(m.name, r2);
    lemma_strs_list_rt(m.arguments, r3);
    lemma_bool_rt(m.is_const, rest);
}

/// Appends a method fact.
pub fn write_method(out: &mut Vec<u8>, m: &crate::data::CppMethod)
    ensures
        final(out)@ == old(out)@ + enc_method(m@),
{
    write_str(out, m.return_type.as_str());
    write_str(out, m.name.as_str());
    write_strs_list(out, &m.arguments);
    write_bool(out, m.is_const);
    proof {
        assert(out@ =~= old(out)@ + enc_method(m@));
    }
}

/// Reads back a method fact.
pub fn parse_method(data: &Vec<u8>, pos: usize) -> (r: Option<(crate::data::CppMethod, usize)>)
    ensures
        match r {
            Some(p) => {
                &&& pos <= p.1 <= data@.len()
                &&& dec_method(data@.skip(pos as int)) == Some((p.0@, data@.skip(p.1 as int)))
            },
            None => pos > data@.len() || dec_method(data@.skip(pos as int)) is None,
        },
{
    let (return_type, p1) = match parse_str(data, pos) {
        Some(p) => p,
        None => {
            return None;
        },
    };
    let (name, p2) = match parse_str(data, p1) {
        Some(p) => p,
        None => {
            return None;
        },
    };
    let (arguments, p3) = match parse_strs_list(data, p2) {
        Some(p) => p,
        None => {
            return None;
        },
    };
    let (is_const, p4) = match parse_bool(data, p3) {
        Some(p) => p,
        None => {
            return None;
        },
    };
    let m = crate::data::CppMethod { return_type, name, arguments, is_const };
    proof {
        assert(m@ =~= dec_method(data@.skip(pos as int)).unwrap().0);
    }
    Some((m, p4))
}

/// The bytes of an enumerator fact.
pub open spec fn enc_enum_value(v: crate::data::CppEnumValueV) -> Seq<u8> {
    enc_str(v.enum_name) + enc_str(v.name) + enc_i64(v.value)
}

/// The enumerator fact read back.
pub open spec fn dec_enum_value(s: Seq<u8>) -> Option<(crate::data::CppEnumValueV, Seq<u8>)> {
    match dec_str(s) {
        None => None,
        Some(p1) => match dec_str(p1.1) {
            None => None,
            Some(p2) => match dec_i64(p2.1) {
                None => None,
                Some(p3) => Some(
                    (
                        crate::data::CppEnumValueV { enum_name: p1.0, name: p2.0, value: p3.0 },
                        p3.1,
                    ),
                ),
            },
        },
    }
}

/// Whether an enumerator fact model is storable.
pub open spec fn enum_value_ok(v: crate::data::CppEnumValueV) -> bool {
    str_ok(v.enum_name) && str_ok(v.name) && -0x8000000000000000 <= v.value < 0x8000000000000000
}

pub proof fn lemma_enum_value_rt(v: crate::data::CppEnumValueV, rest: Seq<u8>)
    requires
        enum_value_ok(v),
    ensures
        dec_enum_value(enc_enum_value(v) + rest) == Some((v, rest)),
{
    let a = enc_str(v.enum_name);
    let b = enc_str(v.name);
    let c = enc_i64(v.value);
    let r2 = c + rest;
    let r1 = b + r2;
    lemma_assoc(a + b, c, rest);
    lemma_assoc(a, b, r2);
    assert(enc_enum_value(v) + rest == a + r1);
    lemma_str_rt(v.enum_name, r1);
    lemma_str_rt(v.name, r2);
    lemma_i64_rt(v.value, rest);
}

/// Appends an enumerator fact.
pub fn write_enum_value(out: &mut Vec<u8>, v: &crate::data::CppEnumValue)
    ensures
        final(out)@ == old(out)@ + enc_enum_value(v@),
{
    write_str(out, v.enum_name.as_str());
    write_str(out, v.name.as_str());
    write_i64(out, v.value);
    proof {
        assert(out@ =~= old(out)@ + enc_enum_value(v@));
    }
}

/// Reads back an enumerator fact.
pub fn parse_enum_value(data: &Vec<u8>, pos: usize) -> (r: Option<
    (crate::data::CppEnumValue, usize),
>)
    ensures
        match r {
            Some(p) => {
                &&& pos <= p.1 <= data@.len()
                &&& dec_enum_value(data@.skip(pos as int)) == Some((p.0@, data@.skip(p.1 as int)))
            },
            None => pos > data@.len() || dec_enum_value(data@.skip(pos as int)) is None,
        },
{
    let (enum_name, p1) = match parse_str(data, pos) {
        Some(p) => p,
        None => {
            return None;
        },
    };
    let (name, p2) = match parse_str(data, p1) {
        Some(p) => p,
        None => {
            return None;
        },
    };
    let (value, p3) = match parse_i64(data, p2) {
        Some(p) => p,
        None => {
            return None;
        },
    };
    let v = crate::data::CppEnumValue { enum_name, name, value };
    proof {
        assert(v@ =~= dec_enum_value(data@.skip(pos as int)).unwrap().0);
    }
    Some((v, p3))
}

/// The bytes of a class-field fact.
pub open spec fn enc_class_field(f: crate::data::CppClassFieldV) -> Seq<u8> {
    enc_str(f.class_type) + enc_visibility(f.visibility) + enc_str(f.field_type) + enc_str(f.name)
}

/// The class-field fact read back.
pub open spec fn dec_class_field(s: Seq<u8>) -> Option<(crate::data::CppClassFieldV, Seq<u8>)> {
    match dec_str(s) {
        None => None,
        Some(p1) => match dec_visibility(p1.1) {
            None => None,
            Some(p2) => match dec_str(p2.1) {
                None => None,
                Some(p3) => match dec_str(p3.1) {
                    None => None,
                    Some(p4) => Some(
                        (
                            crate::data::CppClassFieldV {
                                class_type: p1.0,
                                visibility: p2.0,
                                field_type: p3.0,
                                name: p4.0,
                            },
                            p4.1,
                        ),
                    ),
                },
            },
        },
    }
}

/// Whether a class-field fact model is storable.
pub open spec fn class_field_ok(f: crate::data::CppClassFieldV) -> bool {
    str_ok(f.class_type) && str_ok(f.field_type) && str_ok(f.name)
}

pub proof fn lemma_class_field_rt(f: crate::data::CppClassFieldV, rest: Seq<u8>)
    requires
        class_field_ok(f),
    ensures
        dec_class_field(enc_class_field(f) + rest) == Some((f, rest)),
{
    let a = enc_str(f.class_type);
    let b = enc_visibility(f.visibility);
    let c = enc_str(f.field_type);
    let d = enc_str(f.name);
    let r3 = d + rest;
    let r2 = c + r3;
    let r1 = b + r2;
    lemma_assoc(a + b + c, d, rest);
    lemma_assoc(a + b, c, r3);
    lemma_assoc(a, b, r2);
    assert(enc_class_field(f) + rest == a + r1);
    lemma_str_rt(f.class_type, r1);
    lemma_visibility_rt(f.visibility, r2);
    lemma_str_rt(f.field_type, r3);
    lemma_str_rt(f.name, rest);
}

/// Appends a class-field fact.
pub fn write_class_field(out: &mut Vec<u8>, f: &crate::data::CppClassField)
    ensures
        final(out)@ == old(out)@ + enc_class_field(f@),
{
    write_str(out, f.class_type.as_str());
    write_visibility(out, f.visibility);
    write_str(out, f.field_type.as_str());
    write_str(out, f.name.as_str());
    proof {
        assert(out@ =~= old(out)@ + enc_class_field(f@));
    }
}

/// Reads back a class-field fact.
pub fn parse_class_field(data: &Vec<u8>, pos: usize) -> (r: Option<
    (crate::data::CppClassField, usize),
>)
    ensures
        match r {
            Some(p) => {
                &&& pos <= p.1 <= data@.len()
                &&& dec_class_field(data@.skip(pos as int)) == Some((p.0@, data@.skip(p.1 as int)))
            },
            None => pos > data@.len() || dec_class_field(data@.skip(pos as int)) is None,
        },
{
    let (class_type, p1) = match parse_str(data, pos) {
        Some(p) => p,
        None => {
            return None;
        },
    };
    let (visibility, p2) = match parse_visibility(data, p1) {
        Some(p) => p,
        None => {
            return None;
        },
    };
    let (field_type, p3) = match parse_str(data, p2) {
        Some(p) => p,
        None => {
            return None;
        },
    };
    let (name, p4) = match parse_str(data, p3) {
        Some(p) => p,
        None => {
            return None;
        },
    };
    let f = crate::data::CppClassField { class_type, visibility, field_type, name };
    proof {
        assert(f@ =~= dec_class_field(data@.skip(pos as int)).unwrap().0);
    }
    Some((f, p4))
}

/// The bytes of a base-class fact.
pub open spec fn enc_base_spec(b: crate::data::CppBaseSpecifierV) -> Seq<u8> {
    enc_str(b.derived_class_type) + enc_str(b.base_class_type) + enc_visibility(b.visibility)
        + enc_bool(b.is_virtual) + enc_u64(b.base_index)
}

/// The base-class fact read back.
pub open spec fn dec_base_spec(s: Seq<u8>) -> Option<(crate::data::CppBaseSpecifierV, Seq<u8>)> {
    match dec_str(s) {
        None => None,
        Some(p1) => match dec_str(p1.1) {
            None => None,
            Some(p2) => match dec_visibility(p2.1) {
                None => None,
                Some(p3) => match dec_bool(p3.1) {
                    None => None,
                    Some(p4) => match dec_u64(p4.1) {
                        None => None,
                        Some(p5) => Some(
                            (
                                crate::data::CppBaseSpecifierV {
                                    derived_class_type: p1.0,
                                    base_class_type: p2.0,
                                    visibility: p3.0,
                                    is_virtual: p4.0,
                                    base_index: p5.0,
                                },
                                p5.1,
                            ),
                        ),
                    },
                },
            },
        },
    }
}

/// Whether a base-class fact model is storable.
pub open spec fn base_spec_ok(b: crate::data::CppBaseSpecifierV) -> bool {
    str_ok(b.derived_class_type) && str_ok(b.base_class_type) && u64_ok(b.base_index)
}

pub proof fn lemma_base_spec_rt(b: crate::data::CppBaseSpecifierV, rest: Seq<u8>)
    requires
        base_spec_ok(b),
    ensures
        dec_base_spec(enc_base_spec(b) + rest) == Some((b, rest)),
{
    let a = enc_str(b.derived_class_type);
    let b2 = enc_str(b.base_class_type);
    let c = enc_visibility(b.visibility);
    let d = enc_bool(b.is_virtual);
    let e = enc_u64(b.base_index);
    let r4 = e + rest;
    let r3 = d + r4;
    let r2 = c + r3;
    let r1 = b2 + r2;
    lemma_assoc(a + b2 + c + d, e, rest);
    lemma_assoc(a + b2 + c, d, r4);
    lemma_assoc(a + b2, c, r3);
    lemma_assoc(a, b2, r2);
    assert(enc_base_spec(b) + rest == a + r1);
    lemma_str_rt(b.derived_class_type, r1);
    lemma_str_rt(b.base_class_type, r2);
    lemma_visibility_rt(b.visibility, r3);
    lemma_bool_rt(b.is_virtual, r4);
    lemma_u64_rt(b.base_index, rest);
}

/// Appends a base-class fact.
pub fn write_base_spec(out: &mut Vec<u8>, b: &crate::data::CppBaseSpecifier)
    ensures
        final(out)@ == old(out)@ + enc_base_spec(b@),
{
    write_str(out, b.derived_class_type.as_str());
    write_str(out, b.base_class_type.as_str());
    write_visibility(out, b.visibility);
    write_bool(out, b.is_virtual);
    write_u64(out, b.base_index);
    proof {
        assert(out@ =~= old(out)@ + enc_base_spec(b@));
    }
}

/// Reads back a base-class fact.
pub fn parse_base_spec(data: &Vec<u8>, pos: usize) -> (r: Option<
    (crate::data::CppBaseSpecifier, usize),
>)
    ensures
        match r {
            Some(p) => {
                &&& pos <= p.1 <= data@.len()
                &&& dec_base_spec(data@.skip(pos as int)) == Some((p.0@, data@.skip(p.1 as int)))
            },
            None => pos > data@.len() || dec_base_spec(data@.skip(pos as int)) is None,
        },
{
    let (derived_class_type, p1) = match parse_str(data, pos) {
        Some(p) => p,
        None => {
            return None;
        },
    };
    let (base_class_type, p2) = match parse_str(data, p1) {
        Some(p) => p,
        None => {
            return None;
        },
    };
    let (visibility, p3) = match parse_visibility(data, p2) {
        Some(p) => p,
        None => {
            return None;
        },
    };
    let (is_virtual, p4) = match parse_bool(data, p3) {
        Some(p) => p,
        None => {
            return None;
        },
    };
    let (base_index, p5) = match parse_u64(data, p4) {
        Some(p) => p,
        None => {
            return None;
        },
    };
    let b = crate::data::CppBaseSpecifier {
        derived_class_type,
        base_class_type,
        visibility,
        is_virtual,
        base_index,
    };
    proof {
        assert(b@ =~= dec_base_spec(data@.skip(pos as int)).unwrap().0);
    }
    Some((b, p5))
}

} // verus!

verus! {

/// The bytes of one structural fact: a variant tag, then its payload.
pub open spec fn enc_item_data(d: crate::data::CppItemDataV) -> Seq<u8> {
    match d {
        crate::data::CppItemDataV::Type(t) => seq![0u8] + enc_type_data(t),
        crate::data::CppItemDataV::Method(m) => seq![1u8] + enc_method(m),
        crate::data::CppItemDataV::EnumValue(v) => seq![2u8] + enc_enum_value(v),
        crate::data::CppItemDataV::ClassField(f) => seq![3u8] + enc_class_field(f),
        crate::data::CppItemDataV::ClassBase(b) => seq![4u8] + enc_base_spec(b),
    }
}

/// The structural fact read back.
pub open spec fn dec_item_data(s: Seq<u8>) -> Option<(crate::data::CppItemDataV, Seq<u8>)> {
    if s.len() < 1 {
        None
    } else if s[0] == 0u8 {
        match dec_type_data(s.skip(1)) {
            None => None,
            Some(p) => Some((crate::data::CppItemDataV::Type(p.0), p.1)),
        }
    } else if s[0] == 1u8 {
        match dec_method(s.skip(1)) {
            None => None,
            Some(p) => Some((crate::data::CppItemDataV::Method(p.0), p.1)),
        }
    } else if s[0] == 2u8 {
        match dec_enum_value(s.skip(1)) {
            None => None,
            Some(p) => Some((crate::data::CppItemDataV::EnumValue(p.0), p.1)),
        }
    } else if s[0] == 3u8 {
        match dec_class_field(s.skip(1)) {
            None => None,
            Some(p) => Some((crate::data::CppItemDataV::ClassField(p.0), p.1)),
        }
    } else if s[0] == 4u8 {
        match dec_base_spec(s.skip(1)) {
            None => None,
            Some(p) => Some((crate::data::CppItemDataV::ClassBase(p.0), p.1)),
        }
    } else {
        None
    }
}

/// Whether a structural fact model is storable.
pub open spec fn item_data_ok(d: crate::data::CppItemDataV) -> bool {
    match d {
        crate::data::CppItemDataV::Type(t) => type_data_ok(t),
        crate::data::CppItemDataV::Method(m) => method_ok(m),
        crate::data::CppItemDataV::EnumValue(v) => enum_value_ok(v),
        crate::data::CppItemDataV::ClassField(f) => class_field_ok(f),
        crate::data::CppItemDataV::ClassBase(b) => base_spec_ok(b),
    }
}

pub proof fn lemma_item_data_rt(d: crate::data::CppItemDataV, rest: Seq<u8>)
    requires
        item_data_ok(d),
    ensures
        dec_item_data(enc_item_data(d) + rest) == Some((d, rest)),
{
    match d {
        crate::data::CppItemDataV::Type(t) => {
            lemma_assoc(seq![0u8], enc_type_data(t), rest);
            let s = seq![0u8] + (enc_type_data(t) + rest);
            assert(s[0] == 0u8);
            assert(s.skip(1) =~= enc_type_data(t) + rest);
            lemma_type_data_rt(t, rest);
        },
        crate::data::CppItemDataV::Method(m) => {
            lemma_assoc(seq![1u8], enc_method(m), rest);
            let s = seq![1u8] + (enc_method(m) + rest);
            assert(s[0] == 1u8);
            assert(s.skip(1) =~= enc_method(m) + rest);
            lemma_method_rt(m, rest);
        },
        crate::data::CppItemDataV::EnumValue(v) => {
            lemma_assoc(seq![2u8], enc_enum_value(v), rest);
            let s = seq![2u8] + (enc_enum_value(v) + rest);
            assert(s[0] == 2u8);
            assert(s.skip(1) =~= enc_enum_value(v) + rest);
            lemma_enum_value_rt(v, rest);
        },
        crate::data::CppItemDataV::ClassField(f) => {
            lemma_assoc(seq![3u8], enc_class_field(f), rest);
            let s = seq![3u8] + (enc_class_field(f) + rest);
            assert(s[0] == 3u8);
            assert(s.skip(1) =~= enc_class_field(f) + rest);
            lemma_class_field_rt(f, rest);
        },
        crate::data::CppItemDataV::ClassBase(b) => {
            lemma_assoc(seq![4u8], enc_base_spec(b), rest);
            let s = seq![4u8] + (enc_base_spec(b) + rest);
            assert(s[0] == 4u8);
            assert(s.skip(1) =~= enc_base_spec(b) + rest);
            lemma_base_spec_rt(b, rest);
        },
    }
}

/// Appends one structural fact.
pub fn write_item_data(out: &mut Vec<u8>, d: &crate::data::CppItemData)
    ensures
        final(out)@ == old(out)@ + enc_item_data(d@),
{
    match d {
        crate::data::CppItemData::Type(t) => {
            out.push(0u8);
            write_type_data(out, t);
        },
        crate::data::CppItemData::Method(m) => {
            out.push(1u8);
            write_method(out, m);
        },
        crate::data::CppItemData::EnumValue(v) => {
            out.push(2u8);
            write_enum_value(out, v);
        },
        crate::data::CppItemData::ClassField(f) => {
            out.push(3u8);
            write_class_field(out, f);
        },
        crate::data::CppItemData::ClassBase(b) => {
            out.push(4u8);
            write_base_spec(out, b);
        },
    }
    proof {
        assert(out@ =~= old(out)@ + enc_item_data(d@));
    }
}

/// Reads back one structural fact.
pub fn parse_item_data(data: &Vec<u8>, pos: usize) -> (r: Option<(crate::data::CppItemData, usize)>)
    ensures
        match r {
            Some(p) => {
                &&& pos <= p.1 <= data@.len()
                &&& dec_item_data(data@.skip(pos as int)) == Some((p.0@, data@.skip(p.1 as int)))
            },
            None => pos > data@.len() || dec_item_data(data@.skip(pos as int)) is None,
        },
{
    if pos >= data.len() {
        return None;
    }
    let tag = data[pos];
    proof {
        assert(data@.skip(pos as int)[0] == tag);
        assert(data@.skip(pos as int).skip(1) =~= data@.skip(pos + 1));
    }
    if tag == 0u8 {
        match parse_type_data(data, pos + 1) {
            Some(p) => Some((crate::data::CppItemData::Type(p.0), p.1)),
            None => None,
        }
    } else if tag == 1u8 {
        match parse_method(data, pos + 1) {
            Some(p) => Some((crate::data::CppItemData::Method(p.0), p.1)),
            None => None,
        }
    } else if tag == 2u8 {
        match parse_enum_value(data, pos + 1) {
            Some(p) => Some((crate::data::CppItemData::EnumValue(p.0), p.1)),
            None => None,
        }
    } else if tag == 3u8 {
        match parse_class_field(data, pos + 1) {
            Some(p) => Some((crate::data::CppItemData::ClassField(p.0), p.1)),
            None => None,
        }
    } else if tag == 4u8 {
        match parse_base_spec(data, pos + 1) {
            Some(p) => Some((crate::data::CppItemData::ClassBase(p.0), p.1)),
            None => None,
        }
    } else {
        None
    }
}

/// The bytes of an item documentation: a variant tag, then its text.
pub open spec fn enc_doc(d: crate::data::CppItemDocV) -> Seq<u8> {
    match d {
        crate::data::CppItemDocV::Type(s) => seq![0u8] + enc_str(s),
        crate::data::CppItemDocV::Method(s) => seq![1u8] + enc_str(s),
        crate::data::CppItemDocV::EnumValue(s) => seq![2u8] + enc_str(s),
    }
}

/// The item documentation read back.
pub open spec fn dec_doc(s: Seq<u8>) -> Option<(crate::data::CppItemDocV, Seq<u8>)> {
    if s.len() < 1 {
        None
    } else if s[0] == 0u8 {
        match dec_str(s.skip(1)) {
            None => None,
            Some(p) => Some((crate::data::CppItemDocV::Type(p.0), p.1)),
        }
    } else if s[0] == 1u8 {
        match dec_str(s.skip(1)) {
            None => None,
            Some(p) => Some((crate::data::CppItemDocV::Method(p.0), p.1)),
        }
    } else if s[0] == 2u8 {
        match dec_str(s.skip(1)) {
            None => None,
            Some(p) => Some((crate::data::CppItemDocV::EnumValue(p.0), p.1)),
        }
    } else {
        None
    }
}

/// Whether an item documentation model is storable.
pub open spec fn doc_ok(d: crate::data::CppItemDocV) -> bool {
    match d {
        crate::data::CppItemDocV::Type(s) => str_ok(s),
        crate::data::CppItemDocV::Method(s) => str_ok(s),
        crate::data::CppItemDocV::EnumValue(s) => str_ok(s),
    }
}

pub proof fn lemma_doc_rt(d: crate::data::CppItemDocV, rest: Seq<u8>)
    requires
        doc_ok(d),
    ensures
        dec_doc(enc_doc(d) + rest) == Some((d, rest)),
{
    match d {
        crate::data::CppItemDocV::Type(t) => {
            lemma_assoc(seq![0u8], enc_str(t), rest);
            let s = seq![0u8] + (enc_str(t) + rest);
            assert(s[0] == 0u8);
            assert(s.skip(1) =~= enc_str(t) + rest);
            lemma_str_rt(t, rest);
        },
        crate::data::CppItemDocV::Method(t) => {
            lemma_assoc(seq![1u8], enc_str(t), rest);
            let s = seq![1u8] + (enc_str(t) + rest);
            assert(s[0] == 1u8);
            assert(s.skip(1) =~= enc_str(t) + rest);
            lemma_str_rt(t, rest);
        },
        crate::data::CppItemDocV::EnumValue(t) => {
            lemma_assoc(seq![2u8], enc_str(t), rest);
            let s = seq![2u8] + (enc_str(t) + rest);
            assert(s[0] == 2u8);
            assert(s.skip(1) =~= enc_str(t) + rest);
            lemma_str_rt(t, rest);
        },
    }
}

/// Appends an item documentation.
pub fn write_doc(out: &mut Vec<u8>, d: &crate::data::CppItemDoc)
    ensures
        final(out)@ == old(out)@ + enc_doc(d@),
{
    match d {
        crate::data::CppItemDoc::Type(s) => {
            out.push(0u8);
            write_str(out, s.as_str());
        },
        crate::data::CppItemDoc::Method(s) => {
            out.push(1u8);
            write_str(out, s.as_str());
        },
        crate::data::CppItemDoc::EnumValue(s) => {
            out.push(2u8);
            write_str(out, s.as_str());
        },
    }
    proof {
        assert(out@ =~= old(out)@ + enc_doc(d@));
    }
}

/// Reads back an item documentation.
pub fn parse_doc(data: &Vec<u8>, pos: usize) -> (r: Option<(crate::data::CppItemDoc, usize)>)
    ensures
        match r {
            Some(p) => {
                &&& pos <= p.1 <= data@.len()
                &&& dec_doc(data@.skip(pos as int)) == Some((p.0@, data@.skip(p.1 as int)))
            },
            None => pos > data@.len() || dec_doc(data@.skip(pos as int)) is None,
        },
{
    if pos >= data.len() {
        return None;
    }
    let tag = data[pos];
    proof {
        assert(data@.skip(pos as int)[0] == tag);
        assert(data@.skip(pos as int).skip(1) =~= data@.skip(pos + 1));
    }
    if tag == 0u8 {
        match parse_str(data, pos + 1) {
            Some(p) => Some((crate::data::CppItemDoc::Type(p.0), p.1)),
            None => None,
        }
    } else if tag == 1u8 {
        match parse_str(data, pos + 1) {
            Some(p) => Some((crate::data::CppItemDoc::Method(p.0), p.1)),
            None => None,
        }
    } else if tag == 2u8 {
        match parse_str(data, pos + 1) {
            Some(p) => Some((crate::data::CppItemDoc::EnumValue(p.0), p.1)),
            None => None,
        }
    } else {
        None
    }
}

/// The bytes of an optional item documentation.
pub open spec fn enc_opt_doc(o: Option<crate::data::CppItemDocV>) -> Seq<u8> {
    match o {
        Some(d) => enc_bool(true) + enc_doc(d),
        None => enc_bool(false),
    }
}

/// The optional item documentation read back.
pub open spec fn dec_opt_doc(s: Seq<u8>) -> Option<(Option<crate::data::CppItemDocV>, Seq<u8>)> {
    match dec_bool(s) {
        None => None,
        Some(p) => if p.0 {
            match dec_doc(p.1) {
                None => None,
                Some(q) => Some((Some(q.0), q.1)),
            }
        } else {
            Some((None, p.1))
        },
    }
}

pub proof fn lemma_opt_doc_rt(o: Option<crate::data::CppItemDocV>, rest: Seq<u8>)
    requires
        o matches Some(d) ==> doc_ok(d),
    ensures
        dec_opt_doc(enc_opt_doc(o) + rest) == Some((o, rest)),
{
    match o {
        Some(d) => {
            lemma_assoc(enc_bool(true), enc_doc(d), rest);
            lemma_bool_rt(true, enc_doc(d) + rest);
            lemma_doc_rt(d, rest);
        },
        None => {
            lemma_bool_rt(false, rest);
        },
    }
}

/// Appends an optional item documentation.
pub fn write_opt_doc(out: &mut Vec<u8>, o: &Option<crate::data::CppItemDoc>)
    ensures
        final(out)@ == old(out)@ + enc_opt_doc(crate::data::opt_doc_view(o)),
{
    match o {
        Some(d) => {
            write_bool(out, true);
            write_doc(out, d);
            proof {
                assert(out@ =~= old(out)@ + enc_opt_doc(crate::data::opt_doc_view(o)));
            }
        },
        None => {
            write_bool(out, false);
        },
    }
}

/// Reads back an optional item documentation.
pub fn parse_opt_doc(data: &Vec<u8>, pos: usize) -> (r: Option<
    (Option<crate::data::CppItemDoc>, usize),
>)
    ensures
        match r {
            Some(p) => {
                &&& pos <= p.1 <= data@.len()
                &&& dec_opt_doc(data@.skip(pos as int)) == Some(
                    (crate::data::opt_doc_view(&p.0), data@.skip(p.1 as int)),
                )
            },
            None => pos > data@.len() || dec_opt_doc(data@.skip(pos as int)) is None,
        },
{
    let (tag, p1) = match parse_bool(data, pos) {
        Some(p) => p,
        None => {
            return None;
        },
    };
    if tag {
        match parse_doc(data, p1) {
            Some(q) => Some((Some(q.0), q.1)),
            None => None,
        }
    } else {
        Some((None, p1))
    }
}

/// The bytes of one boundary function.
pub open spec fn enc_ffi_method(m: crate::data::CppFfiMethodV) -> Seq<u8> {
    enc_str(m.name) + enc_strs_list(m.arguments)
}

/// The boundary function read back.
pub open spec fn dec_ffi_method(s: Seq<u8>) -> Option<(crate::data::CppFfiMethodV, Seq<u8>)> {
    match dec_str(s) {
        None => None,
        Some(p1) => match dec_strs_list(p1.1) {
            None => None,
            Some(p2) => Some(
                (crate::data::CppFfiMethodV { name: p1.0, arguments: p2.0 }, p2.1),
            ),
        },
    }
}

/// Whether a boundary function model is storable.
pub open spec fn ffi_method_ok(m: crate::data::CppFfiMethodV) -> bool {
    str_ok(m.name) && strs_list_ok(m.arguments)
}

pub proof fn lemma_ffi_method_rt(m: crate::data::CppFfiMethodV, rest: Seq<u8>)
    requires
        ffi_method_ok(m),
    ensures
        dec_ffi_method(enc_ffi_method(m) + rest) == Some((m, rest)),
{
    lemma_assoc(enc_str(m.name), enc_strs_list(m.arguments), rest);
    lemma_str_rt(m.name, enc_strs_list(m.arguments) + rest);
    lemma_strs_list_rt(m.arguments, rest);
}

/// Appends one boundary function.
pub fn write_ffi_method(out: &mut Vec<u8>, m: &crate::data::CppFfiMethod)
    ensures
        final(out)@ == old(out)@ + enc_ffi_method(m@),
{
    write_str(out, m.name.as_str());
    write_strs_list(out, &m.arguments);
    proof {
        assert(out@ =~= old(out)@ + enc_ffi_method(m@));
    }
}

/// Reads back one boundary function.
pub fn parse_ffi_method(data: &Vec<u8>, pos: usize) -> (r: Option<
    (crate::data::CppFfiMethod, usize),
>)
    ensures
        match r {
            Some(p) => {
                &&& pos <= p.1 <= data@.len()
                &&& dec_ffi_method(data@.skip(pos as int)) == Some((p.0@, data@.skip(p.1 as int)))
            },
            None => pos > data@.len() || dec_ffi_method(data@.skip(pos as int)) is None,
        },
{
    let (name, p1) = match parse_str(data, pos) {
        Some(p) => p,
        None => {
            return None;
        },
    };
    let (arguments, p2) = match parse_strs_list(data, p1) {
        Some(p) => p,
        None => {
            return None;
        },
    };
    let m = crate::data::CppFfiMethod { name, arguments };
    proof {
        assert(m@ =~= dec_ffi_method(data@.skip(pos as int)).unwrap().0);
    }
    Some((m, p2))
}

} // verus!

verus! {

/// The bytes of a boundary-function list, one after another.
pub open spec fn enc_ffim_items(xs: Seq<crate::data::CppFfiMethodV>) -> Seq<u8>
    decreases xs.len(),
{
    if xs.len() == 0 {
        Seq::empty()
    } else {
        enc_ffi_method(xs[0]) + enc_ffim_items(xs.drop_first())
    }
}

/// The bytes of a boundary-function list with its count.
pub open spec fn enc_ffim_list(xs: Seq<crate::data::CppFfiMethodV>) -> Seq<u8> {
    enc_u64(xs.len() as int) + enc_ffim_items(xs)
}

/// `n` boundary-functions read back.
pub open spec fn dec_ffim_items(s: Seq<u8>, n: int) -> Option<(Seq<crate::data::CppFfiMethodV>, Seq<u8>)>
    decreases n,
{
    if n <= 0 {
        Some((Seq::empty(), s))
    } else {
        match dec_ffi_method(s) {
            None => None,
            Some(p) => match dec_ffim_items(p.1, n - 1) {
                None => None,
                Some(q) => Some((seq![p.0] + q.0, q.1)),
            },
        }
    }
}

/// A boundary-function list read back.
pub open spec fn dec_ffim_list(s: Seq<u8>) -> Option<(Seq<crate::data::CppFfiMethodV>, Seq<u8>)> {
    match dec_u64(s) {
        None => None,
        Some(p) => dec_ffim_items(p.1, p.0),
    }
}

/// Whether every boundary-function of a list is storable, and the list fits its count.
pub open spec fn ffim_list_ok(xs: Seq<crate::data::CppFfiMethodV>) -> bool {
    xs.len() < 0x10000000000000000 && forall|i: int| 0 <= i < xs.len() ==> ffi_method_ok(#[trigger] xs[i])
}

pub proof fn lemma_ffim_items_rt(xs: Seq<crate::data::CppFfiMethodV>, rest: Seq<u8>)
    requires
        forall|i: int| 0 <= i < xs.len() ==> ffi_method_ok(#[trigger] xs[i]),
    ensures
        dec_ffim_items(enc_ffim_items(xs) + rest, xs.len() as int) == Some((xs, rest)),
    decreases xs.len(),
{
    if xs.len() == 0 {
        assert(enc_ffim_items(xs) + rest =~= rest);
        assert(Seq::<crate::data::CppFfiMethodV>::empty() =~= xs);
    } else {
        lemma_assoc(enc_ffi_method(xs[0]), enc_ffim_items(xs.drop_first()), rest);
        lemma_ffi_method_rt(xs[0], enc_ffim_items(xs.drop_first()) + rest);
        lemma_ffim_items_rt(xs.drop_first(), rest);
        assert(seq![xs[0]] + xs.drop_first() =~= xs);
    }
}

pub proof fn lemma_ffim_list_rt(xs: Seq<crate::data::CppFfiMethodV>, rest: Seq<u8>)
    requires
        ffim_list_ok(xs),
    ensures
        dec_ffim_list(enc_ffim_list(xs) + rest) == Some((xs, rest)),
{
    lemma_assoc(enc_u64(xs.len() as int), enc_ffim_items(xs), rest);
    lemma_u64_rt(xs.len() as int, enc_ffim_items(xs) + rest);
    lemma_ffim_items_rt(xs, rest);
}

proof fn lemma_enc_ffim_items_push(xs: Seq<crate::data::CppFfiMethodV>, x: crate::data::CppFfiMethodV)
    ensures
        enc_ffim_items(xs.push(x)) == enc_ffim_items(xs) + enc_ffi_method(x),
    decreases xs.len(),
{
    if xs.len() == 0 {
        let sp = xs.push(x);
        assert(sp.drop_first() =~= Seq::<crate::data::CppFfiMethodV>::empty());
        assert(sp[0] == x);
        assert(enc_ffim_items(sp) == enc_ffi_method(x) + enc_ffim_items(Seq::<crate::data::CppFfiMethodV>::empty()));
        assert(enc_ffim_items(Seq::<crate::data::CppFfiMethodV>::empty()) =~= Seq::<u8>::empty());
        assert(enc_ffim_items(sp) =~= enc_ffim_items(xs) + enc_ffi_method(x));
    } else {
        assert(xs.push(x).drop_first() =~= xs.drop_first().push(x));
        lemma_enc_ffim_items_push(xs.drop_first(), x);
        assert(enc_ffim_items(xs.push(x)) =~= enc_ffim_items(xs) + enc_ffi_method(x));
    }
}

/// Appends a boundary-function list.
pub fn write_ffim_list(out: &mut Vec<u8>, xs: &Vec<crate::data::CppFfiMethod>)
    ensures
        final(out)@ == old(out)@ + enc_ffim_list(crate::data::ffi_methods_view(xs)),
{
    let ghost xsv = crate::data::ffi_methods_view(xs);
    write_u64(out, xs.len() as u64);
    let ghost mid = out@;
    let mut i: usize = 0;
    while i < xs.len()
        invariant
            xsv == crate::data::ffi_methods_view(xs),
            xsv.len() == xs@.len(),
            i <= xs@.len(),
            out@ == mid + enc_ffim_items(xsv.take(i as int)),
        decreases xs@.len() - i,
    {
        proof {
            assert(xsv[i as int] == xs@[i as int]@);
        }
        write_ffi_method(out, &xs[i]);
        proof {
            lemma_enc_ffim_items_push(xsv.take(i as int), xsv[i as int]);
            assert(xsv.take(i + 1 as int) =~= xsv.take(i as int).push(xsv[i as int]));
            assert(out@ =~= mid + enc_ffim_items(xsv.take(i + 1 as int)));
        }
        i = i + 1;
    }
    proof {
        assert(xsv.take(xsv.len() as int) =~= xsv);
        assert(out@ =~= old(out)@ + enc_ffim_list(xsv));
    }
}

/// Reads back a boundary-function list.
pub fn parse_ffim_list(data: &Vec<u8>, pos: usize) -> (r: Option<(Vec<crate::data::CppFfiMethod>, usize)>)
    ensures
        match r {
            Some(p) => {
                &&& pos <= p.1 <= data@.len()
                &&& dec_ffim_list(data@.skip(pos as int)) == Some(
                    (crate::data::ffi_methods_view(&p.0), data@.skip(p.1 as int)),
                )
            },
            None => pos > data@.len() || dec_ffim_list(data@.skip(pos as int)) is None,
        },
{
    let (count, items_pos) = match parse_u64(data, pos) {
        Some(p) => p,
        None => {
            return None;
        },
    };
    let mut out: Vec<crate::data::CppFfiMethod> = Vec::new();
    let mut cur = items_pos;
    let mut remaining = count;
    proof {
        assert(crate::data::ffi_methods_view(&out) =~= Seq::<crate::data::CppFfiMethodV>::empty());
        if dec_ffim_items(data@.skip(items_pos as int), count as int) is Some {
            let q = dec_ffim_items(data@.skip(items_pos as int), count as int)->Some_0;
            assert(Seq::<crate::data::CppFfiMethodV>::empty() + q.0 =~= q.0);
        }
    }
    while remaining > 0
        invariant
            pos <= items_pos <= cur <= data@.len(),
            0 <= remaining <= count,
            out@.len() == count - remaining,
            dec_u64(data@.skip(pos as int)) == Some((count as int, data@.skip(items_pos as int))),
            dec_ffim_items(data@.skip(items_pos as int), count as int) == (match dec_ffim_items(
                data@.skip(cur as int),
                remaining as int,
            ) {
                Some(q) => Some::<(Seq<crate::data::CppFfiMethodV>, Seq<u8>)>((crate::data::ffi_methods_view(&out) + q.0, q.1)),
                None => None::<(Seq<crate::data::CppFfiMethodV>, Seq<u8>)>,
            }),
        decreases remaining,
    {
        match parse_ffi_method(data, cur) {
            Some(p) => {
                let ghost acc = crate::data::ffi_methods_view(&out);
                let ghost m = p.0@;
                out.push(p.0);
                proof {
                    assert(crate::data::ffi_methods_view(&out) =~= acc.push(m));
                    if dec_ffim_items(data@.skip(p.1 as int), remaining - 1) is Some {
                        let q = dec_ffim_items(data@.skip(p.1 as int), remaining - 1)->Some_0;
                        assert(acc + (seq![m] + q.0) =~= (acc.push(m)) + q.0);
                    }
                }
                cur = p.1;
                remaining = remaining - 1;
            },
            None => {
                return None;
            },
        }
    }
    proof {
        assert(crate::data::ffi_methods_view(&out) + Seq::<crate::data::CppFfiMethodV>::empty() =~= crate::data::ffi_methods_view(&out));
    }
    Some((out, cur))
}

/// The bytes of a environment list, one after another.
pub open spec fn enc_envs_items(xs: Seq<crate::data::DataEnvV>) -> Seq<u8>
    decreases xs.len(),
{
    if xs.len() == 0 {
        Seq::empty()
    } else {
        enc_env(xs[0]) + enc_envs_items(xs.drop_first())
    }
}

/// The bytes of a environment list with its count.
pub open spec fn enc_envs_list(xs: Seq<crate::data::DataEnvV>) -> Seq<u8> {
    enc_u64(xs.len() as int) + enc_envs_items(xs)
}

/// `n` environments read back.
pub open spec fn dec_envs_items(s: Seq<u8>, n: int) -> Option<(Seq<crate::data::DataEnvV>, Seq<u8>)>
    decreases n,
{
    if n <= 0 {
        Some((Seq::empty(), s))
    } else {
        match dec_env(s) {
            None => None,
            Some(p) => match dec_envs_items(p.1, n - 1) {
                None => None,
                Some(q) => Some((seq![p.0] + q.0, q.1)),
            },
        }
    }
}

/// A environment list read back.
pub open spec fn dec_envs_list(s: Seq<u8>) -> Option<(Seq<crate::data::DataEnvV>, Seq<u8>)> {
    match dec_u64(s) {
        None => None,
        Some(p) => dec_envs_items(p.1, p.0),
    }
}

/// Whether every environment of a list is storable, and the list fits its count.
pub open spec fn envs_list_ok(xs: Seq<crate::data::DataEnvV>) -> bool {
    xs.len() < 0x10000000000000000 && forall|i: int| 0 <= i < xs.len() ==> env_ok(#[trigger] xs[i])
}

pub proof fn lemma_envs_items_rt(xs: Seq<crate::data::DataEnvV>, rest: Seq<u8>)
    requires
        forall|i: int| 0 <= i < xs.len() ==> env_ok(#[trigger] xs[i]),
    ensures
        dec_envs_items(enc_envs_items(xs) + rest, xs.len() as int) == Some((xs, rest)),
    decreases xs.len(),
{
    if xs.len() == 0 {
        assert(enc_envs_items(xs) + rest =~= rest);
        assert(Seq::<crate::data::DataEnvV>::empty() =~= xs);
    } else {
        lemma_assoc(enc_env(xs[0]), enc_envs_items(xs.drop_first()), rest);
        lemma_env_rt(xs[0], enc_envs_items(xs.drop_first()) + rest);
        lemma_envs_items_rt(xs.drop_first(), rest);
        assert(seq![xs[0]] + xs.drop_first() =~= xs);
    }
}

pub proof fn lemma_envs_list_rt(xs: Seq<crate::data::DataEnvV>, rest: Seq<u8>)
    requires
        envs_list_ok(xs),
    ensures
        dec_envs_list(enc_envs_list(xs) + rest) == Some((xs, rest)),
{
    lemma_assoc(enc_u64(xs.len() as int), enc_envs_items(xs), rest);
    lemma_u64_rt(xs.len() as int, enc_envs_items(xs) + rest);
    lemma_envs_items_rt(xs, rest);
}

proof fn lemma_enc_envs_items_push(xs: Seq<crate::data::DataEnvV>, x: crate::data::DataEnvV)
    ensures
        enc_envs_items(xs.push(x)) == enc_envs_items(xs) + enc_env(x),
    decreases xs.len(),
{
    if xs.len() == 0 {
        let sp = xs.push(x);
        assert(sp.drop_first() =~= Seq::<crate::data::DataEnvV>::empty());
        assert(sp[0] == x);
        assert(enc_envs_items(sp) == enc_env(x) + enc_envs_items(Seq::<crate::data::DataEnvV>::empty()));
        assert(enc_envs_items(Seq::<crate::data::DataEnvV>::empty()) =~= Seq::<u8>::empty());
        assert(enc_envs_items(sp) =~= enc_envs_items(xs) + enc_env(x));
    } else {
        assert(xs.push(x).drop_first() =~= xs.drop_first().push(x));
        lemma_enc_envs_items_push(xs.drop_first(), x);
        assert(enc_envs_items(xs.push(x)) =~= enc_envs_items(xs) + enc_env(x));
    }
}

/// Appends a environment list.
pub fn write_envs_list(out: &mut Vec<u8>, xs: &Vec<crate::data::DataEnv>)
    ensures
        final(out)@ == old(out)@ + enc_envs_list(crate::database::envs_view(xs)),
{
    let ghost xsv = crate::database::envs_view(xs);
    write_u64(out, xs.len() as u64);
    let ghost mid = out@;
    let mut i: usize = 0;
    while i < xs.len()
        invariant
            xsv == crate::database::envs_view(xs),
            xsv.len() == xs@.len(),
            i <= xs@.len(),
            out@ == mid + enc_envs_items(xsv.take(i as int)),
        decreases xs@.len() - i,
    {
        proof {
            assert(xsv[i as int] == xs@[i as int]@);
        }
        write_env(out, &xs[i]);
        proof {
            lemma_enc_envs_items_push(xsv.take(i as int), xsv[i as int]);
            assert(xsv.take(i + 1 as int) =~= xsv.take(i as int).push(xsv[i as int]));
            assert(out@ =~= mid + enc_envs_items(xsv.take(i + 1 as int)));
        }
        i = i + 1;
    }
    proof {
        assert(xsv.take(xsv.len() as int) =~= xsv);
        assert(out@ =~= old(out)@ + enc_envs_list(xsv));
    }
}

/// Reads back a environment list.
pub fn parse_envs_list(data: &Vec<u8>, pos: usize) -> (r: Option<(Vec<crate::data::DataEnv>, usize)>)
    ensures
        match r {
            Some(p) => {
                &&& pos <= p.1 <= data@.len()
                &&& dec_envs_list(data@.skip(pos as int)) == Some(
                    (crate::database::envs_view(&p.0), data@.skip(p.1 as int)),
                )
            },
            None => pos > data@.len() || dec_envs_list(data@.skip(pos as int)) is None,
        },
{
    let (count, items_pos) = match parse_u64(data, pos) {
        Some(p) => p,
        None => {
            return None;
        },
    };
    let mut out: Vec<crate::data::DataEnv> = Vec::new();
    let mut cur = items_pos;
    let mut remaining = count;
    proof {
        assert(crate::database::envs_view(&out) =~= Seq::<crate::data::DataEnvV>::empty());
        if dec_envs_items(data@.skip(items_pos as int), count as int) is Some {
            let q = dec_envs_items(data@.skip(items_pos as int), count as int)->Some_0;
            assert(Seq::<crate::data::DataEnvV>::empty() + q.0 =~= q.0);
        }
    }
    while remaining > 0
        invariant
            pos <= items_pos <= cur <= data@.len(),
            0 <= remaining <= count,
            out@.len() == count - remaining,
            dec_u64(data@.skip(pos as int)) == Some((count as int, data@.skip(items_pos as int))),
            dec_envs_items(data@.skip(items_pos as int), count as int) == (match dec_envs_items(
                data@.skip(cur as int),
                remaining as int,
            ) {
                Some(q) => Some::<(Seq<crate::data::DataEnvV>, Seq<u8>)>((crate::database::envs_view(&out) + q.0, q.1)),
                None => None::<(Seq<crate::data::DataEnvV>, Seq<u8>)>,
            }),
        decreases remaining,
    {
        match parse_env(data, cur) {
            Some(p) => {
                let ghost acc = crate::database::envs_view(&out);
                let ghost m = p.0@;
                out.push(p.0);
                proof {
                    assert(crate::database::envs_view(&out) =~= acc.push(m));
                    if dec_envs_items(data@.skip(p.1 as int), remaining - 1) is Some {
                        let q = dec_envs_items(data@.skip(p.1 as int), remaining - 1)->Some_0;
                        assert(acc + (seq![m] + q.0) =~= (acc.push(m)) + q.0);
                    }
                }
                cur = p.1;
                remaining = remaining - 1;
            },
            None => {
                return None;
            },
        }
    }
    proof {
        assert(crate::database::envs_view(&out) + Seq::<crate::data::DataEnvV>::empty() =~= crate::database::envs_view(&out));
    }
    Some((out, cur))
}

} // verus!

verus! {

/// The bytes of one knowledge-base entry.
pub open spec fn enc_db_item(it: crate::database::DatabaseItemV) -> Seq<u8> {
    enc_recs(it.environments) + enc_item_data(it.cpp_data) + enc_opt_doc(it.doc) + enc_ffim_list(
        it.cpp_ffi_methods,
    ) + enc_bool(it.is_stack_allocated_type)
}

/// The knowledge-base entry read back.
pub open spec fn dec_db_item(s: Seq<u8>) -> Option<(crate::database::DatabaseItemV, Seq<u8>)> {
    match dec_recs(s) {
        None => None,
        Some(p1) => match dec_item_data(p1.1) {
            None => None,
            Some(p2) => match dec_opt_doc(p2.1) {
                None => None,
                Some(p3) => match dec_ffim_list(p3.1) {
                    None => None,
                    Some(p4) => match dec_bool(p4.1) {
                        None => None,
                        Some(p5) => Some(
                            (
                                crate::database::DatabaseItemV {
                                    environments: p1.0,
                                    cpp_data: p2.0,
                                    doc: p3.0,
                                    cpp_ffi_methods: p4.0,
                                    is_stack_allocated_type: p5.0,
                                },
                                p5.1,
                            ),
                        ),
                    },
                },
            },
        },
    }
}

/// Whether a knowledge-base entry model is storable.
pub open spec fn db_item_ok(it: crate::database::DatabaseItemV) -> bool {
    &&& recs_ok(it.environments)
    &&& item_data_ok(it.cpp_data)
    &&& (it.doc matches Some(d) ==> doc_ok(d))
    &&& ffim_list_ok(it.cpp_ffi_methods)
}

pub proof fn lemma_db_item_rt(it: crate::database::DatabaseItemV, rest: Seq<u8>)
    requires
        db_item_ok(it),
    ensures
        dec_db_item(enc_db_item(it) + rest) == Some((it, rest)),
{
    let a = enc_recs(it.environments);
    let b = enc_item_data(it.cpp_data);
    let c = enc_opt_doc(it.doc);
    let d = enc_ffim_list(it.cpp_ffi_methods);
    let e = enc_bool(it.is_stack_allocated_type);
    let r4 = e + rest;
    let r3 = d + r4;
    let r2 = c + r3;
    let r1 = b + r2;
    lemma_assoc(a + b + c + d, e, rest);
    lemma_assoc(a + b + c, d, r4);
    lemma_assoc(a + b, c, r3);
    lemma_assoc(a, b, r2);
    assert(enc_db_item(it) + rest == a + r1);
    lemma_recs_rt(it.environments, r1);
    lemma_item_data_rt(it.cpp_data, r2);
    lemma_opt_doc_rt(it.doc, r3);
    lemma_ffim_list_rt(it.cpp_ffi_methods, r4);
    lemma_bool_rt(it.is_stack_allocated_type, rest);
}

/// Appends one knowledge-base entry.
pub fn write_db_item(out: &mut Vec<u8>, it: &crate::database::DatabaseItem)
    ensures
        final(out)@ == old(out)@ + enc_db_item(it@),
{
    write_recs(out, &it.environments);
    write_item_data(out, &it.cpp_data);
    write_opt_doc(out, &it.doc);
    write_ffim_list(out, &it.cpp_ffi_methods);
    write_bool(out, it.is_stack_allocated_type);
    proof {
        assert(out@ =~= old(out)@ + enc_db_item(it@));
    }
}

/// Reads back one knowledge-base entry.
pub fn parse_db_item(data: &Vec<u8>, pos: usize) -> (r: Option<
    (crate::database::DatabaseItem, usize),
>)
    ensures
        match r {
            Some(p) => {
                &&& pos <= p.1 <= data@.len()
                &&& dec_db_item(data@.skip(pos as int)) == Some((p.0@, data@.skip(p.1 as int)))
            },
            None => pos > data@.len() || dec_db_item(data@.skip(pos as int)) is None,
        },
{
    let (environments, p1) = match parse_recs(data, pos) {
        Some(p) => p,
        None => {
            return None;
        },
    };
    let (cpp_data, p2) = match parse_item_data(data, p1) {
        Some(p) => p,
        None => {
            return None;
        },
    };
    let (doc, p3) = match parse_opt_doc(data, p2) {
        Some(p) => p,
        None => {
            return None;
        },
    };
    let (cpp_ffi_methods, p4) = match parse_ffim_list(data, p3) {
        Some(p) => p,
        None => {
            return None;
        },
    };
    let (is_stack_allocated_type, p5) = match parse_bool(data, p4) {
        Some(p) => p,
        None => {
            return None;
        },
    };
    let it = crate::database::DatabaseItem {
        environments,
        cpp_data,
        doc,
        cpp_ffi_methods,
        is_stack_allocated_type,
    };
    proof {
        assert(it@ =~= dec_db_item(data@.skip(pos as int)).unwrap().0);
    }
    Some((it, p5))
}

} // verus!

verus! {
/// The bytes of a entry list, one after another.
pub open spec fn enc_ditems_items(xs: Seq<crate::database::DatabaseItemV>) -> Seq<u8>
    decreases xs.len(),
{
    if xs.len() == 0 {
        Seq::empty()
    } else {
        enc_db_item(xs[0]) + enc_ditems_items(xs.drop_first())
    }
}

/// The bytes of a entry list with its count.
pub open spec fn enc_ditems_list(xs: Seq<crate::database::DatabaseItemV>) -> Seq<u8> {
    enc_u64(xs.len() as int) + enc_ditems_items(xs)
}

/// `n` entrys read back.
pub open spec fn dec_ditems_items(s: Seq<u8>, n: int) -> Option<(Seq<crate::database::DatabaseItemV>, Seq<u8>)>
    decreases n,
{
    if n <= 0 {
        Some((Seq::empty(), s))
    } else {
        match dec_db_item(s) {
            None => None,
            Some(p) => match dec_ditems_items(p.1, n - 1) {
                None => None,
                Some(q) => Some((seq![p.0] + q.0, q.1)),
            },
        }
    }
}

/// A entry list read back.
pub open spec fn dec_ditems_list(s: Seq<u8>) -> Option<(Seq<crate::database::DatabaseItemV>, Seq<u8>)> {
    match dec_u64(s) {
        None => None,
        Some(p) => dec_ditems_items(p.1, p.0),
    }
}

/// Whether every entry of a list is storable, and the list fits its count.
pub open spec fn ditems_list_ok(xs: Seq<crate::database::DatabaseItemV>) -> bool {
    xs.len() < 0x10000000000000000 && forall|i: int| 0 <= i < xs.len() ==> db_item_ok(#[trigger] xs[i])
}

pub proof fn lemma_ditems_items_rt(xs: Seq<crate::database::DatabaseItemV>, rest: Seq<u8>)
    requires
        forall|i: int| 0 <= i < xs.len() ==> db_item_ok(#[trigger] xs[i]),
    ensures
        dec_ditems_items(enc_ditems_items(xs) + rest, xs.len() as int) == Some((xs, rest)),
    decreases xs.len(),
{
    if xs.len() == 0 {
        assert(enc_ditems_items(xs) + rest =~= rest);
        assert(Seq::<crate::database::DatabaseItemV>::empty() =~= xs);
    } else {
        lemma_assoc(enc_db_item(xs[0]), enc_ditems_items(xs.drop_first()), rest);
        lemma_db_item_rt(xs[0], enc_ditems_items(xs.drop_first()) + rest);
        lemma_ditems_items_rt(xs.drop_first(), rest);
        assert(seq![xs[0]] + xs.drop_first() =~= xs);
    }
}

pub proof fn lemma_ditems_list_rt(xs: Seq<crate::database::DatabaseItemV>, rest: Seq<u8>)
    requires
        ditems_list_ok(xs),
    ensures
        dec_ditems_list(enc_ditems_list(xs) + rest) == Some((xs, rest)),
{
    lemma_assoc(enc_u64(xs.len() as int), enc_ditems_items(xs), rest);
    lemma_u64_rt(xs.len() as int, enc_ditems_items(xs) + rest);
    lemma_ditems_items_rt(xs, rest);
}

proof fn lemma_enc_ditems_items_push(xs: Seq<crate::database::DatabaseItemV>, x: crate::database::DatabaseItemV)
    ensures
        enc_ditems_items(xs.push(x)) == enc_ditems_items(xs) + enc_db_item(x),
    decreases xs.len(),
{
    if xs.len() == 0 {
        let sp = xs.push(x);
        assert(sp.drop_first() =~= Seq::<crate::database::DatabaseItemV>::empty());
        assert(sp[0] == x);
        assert(enc_ditems_items(sp) == enc_db_item(x) + enc_ditems_items(Seq::<crate::database::DatabaseItemV>::empty()));
        assert(enc_ditems_items(Seq::<crate::database::DatabaseItemV>::empty()) =~= Seq::<u8>::empty());
        assert(enc_ditems_items(sp) =~= enc_ditems_items(xs) + enc_db_item(x));
    } else {
        assert(xs.push(x).drop_first() =~= xs.drop_first().push(x));
        lemma_enc_ditems_items_push(xs.drop_first(), x);
        assert(enc_ditems_items(xs.push(x)) =~= enc_ditems_items(xs) + enc_db_item(x));
    }
}

/// Appends a entry list.
pub fn write_ditems_list(out: &mut Vec<u8>, xs: &Vec<crate::database::DatabaseItem>)
    ensures
        final(out)@ == old(out)@ + enc_ditems_list(crate::database::items_view(xs)),
{
    let ghost xsv = crate::database::items_view(xs);
    write_u64(out, xs.len() as u64);
    let ghost mid = out@;
    let mut i: usize = 0;
    while i < xs.len()
        invariant
            xsv == crate::database::items_view(xs),
            xsv.len() == xs@.len(),
            i <= xs@.len(),
            out@ == mid + enc_ditems_items(xsv.take(i as int)),
        decreases xs@.len() - i,
    {
        proof {
            assert(xsv[i as int] == xs@[i as int]@);
        }
        write_db_item(out, &xs[i]);
        proof {
            lemma_enc_ditems_items_push(xsv.take(i as int), xsv[i as int]);
            assert(xsv.take(i + 1 as int) =~= xsv.take(i as int).push(xsv[i as int]));
            assert(out@ =~= mid + enc_ditems_items(xsv.take(i + 1 as int)));
        }
        i = i + 1;
    }
    proof {
        assert(xsv.take(xsv.len() as int) =~= xsv);
        assert(out@ =~= old(out)@ + enc_ditems_list(xsv));
    }
}

/// Reads back a entry list.
pub fn parse_ditems_list(data: &Vec<u8>, pos: usize) -> (r: Option<(Vec<crate::database::DatabaseItem>, usize)>)
    ensures
        match r {
            Some(p) => {
                &&& pos <= p.1 <= data@.len()
                &&& dec_ditems_list(data@.skip(pos as int)) == Some(
                    (crate::database::items_view(&p.0), data@.skip(p.1 as int)),
                )
            },
            None => pos > data@.len() || dec_ditems_list(data@.skip(pos as int)) is None,
        },
{
    let (count, items_pos) = match parse_u64(data, pos) {
        Some(p) => p,
        None => {
            return None;
        },
    };
    let mut out: Vec<crate::database::DatabaseItem> = Vec::new();
    let mut cur = items_pos;
    let mut remaining = count;
    proof {
        assert(crate::database::items_view(&out) =~= Seq::<crate::database::DatabaseItemV>::empty());
        if dec_ditems_items(data@.skip(items_pos as int), count as int) is Some {
            let q = dec_ditems_items(data@.skip(items_pos as int), count as int)->Some_0;
            assert(Seq::<crate::database::DatabaseItemV>::empty() + q.0 =~= q.0);
        }
    }
    while remaining > 0
        invariant
            pos <= items_pos <= cur <= data@.len(),
            0 <= remaining <= count,
            out@.len() == count - remaining,
            dec_u64(data@.skip(pos as int)) == Some((count as int, data@.skip(items_pos as int))),
            dec_ditems_items(data@.skip(items_pos as int), count as int) == (match dec_ditems_items(
                data@.skip(cur as int),
                remaining as int,
            ) {
                Some(q) => Some::<(Seq<crate::database::DatabaseItemV>, Seq<u8>)>((crate::database::items_view(&out) + q.0, q.1)),
                None => None::<(Seq<crate::database::DatabaseItemV>, Seq<u8>)>,
            }),
        decreases remaining,
    {
        match parse_db_item(data, cur) {
            Some(p) => {
                let ghost acc = crate::database::items_view(&out);
                let ghost m = p.0@;
                out.push(p.0);
                proof {
                    assert(crate::database::items_view(&out) =~= acc.push(m));
                    if dec_ditems_items(data@.skip(p.1 as int), remaining - 1) is Some {
                        let q = dec_ditems_items(data@.skip(p.1 as int), remaining - 1)->Some_0;
                        assert(acc + (seq![m] + q.0) =~= (acc.push(m)) + q.0);
                    }
                }
                cur = p.1;
                remaining = remaining - 1;
            },
            None => {
                return None;
            },
        }
    }
    proof {
        assert(crate::database::items_view(&out) + Seq::<crate::database::DatabaseItemV>::empty() =~= crate::database::items_view(&out));
    }
    Some((out, cur))
}


} // verus!

verus! {

/// The persisted bytes of a whole knowledge base: its crate name, every
/// entry, and every known environment.
pub open spec fn enc_db(db: crate::database::DatabaseV) -> Seq<u8> {
    enc_str(db.crate_name) + enc_ditems_list(db.items) + enc_envs_list(db.environments)
}

/// The knowledge base read back; anything but a complete, exact layout is
/// rejected.
pub open spec fn dec_db(s: Seq<u8>) -> Option<crate::database::DatabaseV> {
    match dec_str(s) {
        None => None,
        Some(p1) => match dec_ditems_list(p1.1) {
            None => None,
            Some(p2) => match dec_envs_list(p2.1) {
                None => None,
                Some(p3) => if p3.1.len() == 0 {
                    Some(
                        crate::database::DatabaseV {
                            crate_name: p1.0,
                            items: p2.0,
                            environments: p3.0,
                        },
                    )
                } else {
                    None
                },
            },
        },
    }
}

/// Whether a knowledge base model is storable; the model of every value the
/// executable type can hold is.
pub open spec fn db_ok(db: crate::database::DatabaseV) -> bool {
    str_ok(db.crate_name) && ditems_list_ok(db.items) && envs_list_ok(db.environments)
}

/// Round-trip of the persisted form: reading back what was stored gives
/// exactly the knowledge base that was stored, for every storable state.
pub proof fn lemma_db_round_trip(db: crate::database::DatabaseV)
    requires
        db_ok(db),
    ensures
        dec_db(enc_db(db)) == Some(db),
{
    let a = enc_str(db.crate_name);
    let b = enc_ditems_list(db.items);
    let c = enc_envs_list(db.environments);
    let rest0 = Seq::<u8>::empty();
    let r2 = c + rest0;
    let r1 = b + r2;
    assert(enc_db(db) =~= a + r1);
    lemma_str_rt(db.crate_name, r1);
    lemma_ditems_list_rt(db.items, r2);
    lemma_envs_list_rt(db.environments, rest0);
}

/// Serializes the knowledge base into its persisted bytes.
pub fn serialize(db: &crate::database::Database) -> (r: Vec<u8>)
    ensures
        r@ == enc_db(db@),
{
    let mut out: Vec<u8> = Vec::new();
    write_str(&mut out, db.crate_name.as_str());
    write_ditems_list(&mut out, &db.items);
    write_envs_list(&mut out, &db.environments);
    proof {
        assert(Seq::<u8>::empty() + enc_str(db.crate_name@) =~= enc_str(db.crate_name@));
        assert(out@ =~= enc_db(db@));
    }
    out
}

/// Reads a knowledge base back from its persisted bytes; bytes that do not
/// hold a complete knowledge base, and nothing else, are rejected.
pub fn deserialize(data: &Vec<u8>) -> (r: Option<crate::database::Database>)
    ensures
        match r {
            Some(db) => dec_db(data@) == Some(db@),
            None => dec_db(data@) is None,
        },
{
    proof {
        assert(data@.skip(0) =~= data@);
    }
    let (crate_name, p1) = match parse_str(data, 0) {
        Some(p) => p,
        None => {
            return None;
        },
    };
    let (items, p2) = match parse_ditems_list(data, p1) {
        Some(p) => p,
        None => {
            return None;
        },
    };
    let (environments, p3) = match parse_envs_list(data, p2) {
        Some(p) => p,
        None => {
            return None;
        },
    };
    if p3 != data.len() {
        proof {
            assert(data@.skip(p3 as int).len() != 0);
        }
        return None;
    }
    let db = crate::database::Database { crate_name, items, environments };
    proof {
        assert(data@.skip(p3 as int).len() == 0);
        assert(db@ =~= dec_db(data@).unwrap());
    }
    Some(db)
}

/// Stores and reloads in one step: for every storable knowledge base, the
/// reloaded value is the one that was stored.
pub fn reload(db: &crate::database::Database) -> (r: Option<crate::database::Database>)
    ensures
        db_ok(db@) ==> (r matches Some(db2) && db2@ == db@),
{
    let bytes = serialize(db);
    proof {
        if db_ok(db@) {
            lemma_db_round_trip(db@);
        }
    }
    deserialize(&bytes)
}

} // verus!
