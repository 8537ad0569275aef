//! The byte layout of instruction data and account data: integers are
//! little-endian, a byte string or a text is a `u32` length followed by its
//! bytes (text in UTF-8), and a list is a `u32` count followed by its items.
use vstd::prelude::*;
use vstd::utf8::*;
use vstd::arithmetic::power::pow;

verus! {

/// The value of four little-endian bytes.
pub open spec fn le_value(b0: u8, b1: u8, b2: u8, b3: u8) -> int {
    b0 + 256 * b1 + 65536 * b2 + 16777216 * b3
}

/// The four little-endian bytes of `n`.
pub open spec fn u32_le(n: u32) -> Seq<u8> {
    seq![
        (n % 256) as u8,
        ((n / 256) % 256) as u8,
        ((n / 65536) % 256) as u8,
        (n / 16777216) as u8,
    ]
}

/// A byte string with its length in front.
pub open spec fn enc_bytes(s: Seq<u8>) -> Seq<u8> {
    u32_le(s.len() as u32) + s
}

/// A text: its UTF-8 bytes with their length in front.
pub open spec fn enc_string(c: Seq<char>) -> Seq<u8> {
    enc_bytes(encode_utf8(c))
}

/// The texts of a list, one after the other.
pub open spec fn enc_string_items(ss: Seq<Seq<char>>) -> Seq<u8>
    decreases ss.len(),
{
    if ss.len() == 0 {
        Seq::empty()
    } else {
        enc_string(ss[0]) + enc_string_items(ss.drop_first())
    }
}

/// A list of texts with its count in front.
pub open spec fn enc_strings(ss: Seq<Seq<char>>) -> Seq<u8> {
    u32_le(ss.len() as u32) + enc_string_items(ss)
}

/// A byte string whose length can be written in front of it.
pub open spec fn bytes_fit(s: Seq<u8>) -> bool {
    s.len() <= u32::MAX
}

/// A text whose UTF-8 length can be written in front of it.
pub open spec fn string_fits(c: Seq<char>) -> bool {
    bytes_fit(encode_utf8(c))
}

/// A list whose count and every text can be written.
pub open spec fn strings_fit(ss: Seq<Seq<char>>) -> bool {
    &&& ss.len() <= u32::MAX
    &&& forall|i: int| 0 <= i < ss.len() ==> string_fits(#[trigger] ss[i])
}

/// Reads one byte.
pub open spec fn take_u8(b: Seq<u8>) -> Option<(u8, Seq<u8>)> {
    if b.len() >= 1 {
        Some((b[0], b.skip(1)))
    } else {
        None
    }
}

/// Reads a little-endian `u32`.
pub open spec fn take_u32(b: Seq<u8>) -> Option<(u32, Seq<u8>)> {
    if b.len() >= 4 {
        Some((le_value(b[0], b[1], b[2], b[3]) as u32, b.skip(4)))
    } else {
        None
    }
}

/// Reads a byte string: its length, then that many bytes.
pub open spec fn take_bytes(b: Seq<u8>) -> Option<(Seq<u8>, Seq<u8>)> {
    match take_u32(b) {
        Some((n, rest)) => if n <= rest.len() {
            Some((rest.take(n as int), rest.skip(n as int)))
        } else {
            None
        },
        None => None,
    }
}

/// Reads a text: a byte string that must be valid UTF-8.
pub open spec fn take_string(b: Seq<u8>) -> Option<(Seq<char>, Seq<u8>)> {
    match take_bytes(b) {
        Some((s, rest)) => if valid_utf8(s) {
            Some((decode_utf8(s), rest))
        } else {
            None
        },
        None => None,
    }
}

/// Reads `n` texts one after the other.
pub open spec fn take_string_items(n: nat, b: Seq<u8>) -> Option<(Seq<Seq<char>>, Seq<u8>)>
    decreases n,
{
    if n == 0 {
        Some((Seq::empty(), b))
    } else {
        match take_string(b) {
            Some((s, rest)) => match take_string_items((n - 1) as nat, rest) {
                Some((ss, rest2)) => Some((seq![s] + ss, rest2)),
                None => None,
            },
            None => None,
        }
    }
}

/// Reads a list of texts: its count, then that many texts.
pub open spec fn take_strings(b: Seq<u8>) -> Option<(Seq<Seq<char>>, Seq<u8>)> {
    match take_u32(b) {
        Some((n, rest)) => take_string_items(n as nat, rest),
        None => None,
    }
}

// ---------------------------------------------------------------------------
// Lemmas: what is written reads back, and what reads is what was written.

/// The four bytes written for `n` have the value `n`.
pub proof fn lemma_u32_le_value(n: u32)
    ensures
        u32_le(n).len() == 4,
        le_value(u32_le(n)[0], u32_le(n)[1], u32_le(n)[2], u32_le(n)[3]) == n,
{
    let q1 = n / 256;
    let q2 = n / 65536;
    assert(n == 256 * q1 + n % 256);
    assert(q1 == 256 * (q2 as int) + q1 % 256) by {
        assert(q2 == q1 / 256);
    }
    assert(q2 == 256 * (n / 16777216) + q2 % 256) by {
        assert(n / 16777216 == q2 / 256);
    }
    assert(q1 % 256 == (n / 256) % 256);
}

/// Four bytes are the bytes written for their value.
pub proof fn lemma_le_value_u32_le(b0: u8, b1: u8, b2: u8, b3: u8)
    ensures
        u32_le(le_value(b0, b1, b2, b3) as u32) == seq![b0, b1, b2, b3],
{
    let v = le_value(b0, b1, b2, b3);
    assert(0 <= v <= u32::MAX);
    let n = v as u32;
    assert(n % 256 == b0) by (nonlinear_arith)
        requires
            n == b0 + 256 * b1 + 65536 * b2 + 16777216 * b3,
            b0 < 256,
            b1 < 256,
            b2 < 256,
            b3 < 256,
    ;
    assert((n / 256) % 256 == b1) by (nonlinear_arith)
        requires
            n == b0 + 256 * b1 + 65536 * b2 + 16777216 * b3,
            b0 < 256,
            b1 < 256,
            b2 < 256,
            b3 < 256,
    ;
    assert((n / 65536) % 256 == b2) by (nonlinear_arith)
        requires
            n == b0 + 256 * b1 + 65536 * b2 + 16777216 * b3,
            b0 < 256,
            b1 < 256,
            b2 < 256,
            b3 < 256,
    ;
    assert(n / 16777216 == b3) by (nonlinear_arith)
        requires
            n == b0 + 256 * b1 + 65536 * b2 + 16777216 * b3,
            b0 < 256,
            b1 < 256,
            b2 < 256,
            b3 < 256,
    ;
    assert(u32_le(n) =~= seq![b0, b1, b2, b3]);
}


/// A `u32` is written little-endian: byte `i` is the `i`-th digit of the
/// number in base 256.
pub proof fn lemma_u32_le_digits(n: u32)
    ensures
        u32_le(n).len() == 4,
        forall|i: int| 0 <= i < 4 ==> #[trigger] u32_le(n)[i] as int == (n as int / pow(256, i as nat)) % 256,
{
    reveal_with_fuel(pow, 5);
    assert(pow(256, 0) == 1);
    assert(pow(256, 1) == 256);
    assert(pow(256, 2) == 65536);
    assert(pow(256, 3) == 16777216);
    assert((n as int / 16777216) % 256 == n as int / 16777216);
}

/// A `u32` is read little-endian: its value is the sum of byte `i` times
/// 256 to the power `i`.
pub proof fn lemma_take_u32_digits(b: Seq<u8>)
    requires
        b.len() >= 4,
    ensures
        take_u32(b).unwrap().0 as int == b[0] * pow(256, 0) + b[1] * pow(256, 1) + b[2] * pow(
            256,
            2,
        ) + b[3] * pow(256, 3),
{
    reveal_with_fuel(pow, 5);
    assert(pow(256, 0) == 1);
    assert(pow(256, 1) == 256);
    assert(pow(256, 2) == 65536);
    assert(pow(256, 3) == 16777216);
}

/// A written `u32` reads back, leaving what follows it.
pub proof fn lemma_take_u32_written(n: u32, rest: Seq<u8>)
    ensures
        take_u32(u32_le(n) + rest) == Some((n, rest)),
{
    lemma_u32_le_value(n);
    assert((u32_le(n) + rest).skip(4) =~= rest);
}

/// Bytes that read as a `u32` are that `u32` written, then the rest.
pub proof fn lemma_take_u32_read(b: Seq<u8>)
    requires
        take_u32(b) is Some,
    ensures
        b == u32_le(take_u32(b).unwrap().0) + take_u32(b).unwrap().1,
{
    lemma_le_value_u32_le(b[0], b[1], b[2], b[3]);
    assert(b =~= seq![b[0], b[1], b[2], b[3]] + b.skip(4));
}

/// A written byte reads back, leaving what follows it.
pub proof fn lemma_take_u8_written(v: u8, rest: Seq<u8>)
    ensures
        take_u8(seq![v] + rest) == Some((v, rest)),
{
    assert((seq![v] + rest).skip(1) =~= rest);
}

/// Bytes that read as a byte are that byte, then the rest.
pub proof fn lemma_take_u8_read(b: Seq<u8>)
    requires
        take_u8(b) is Some,
    ensures
        b == seq![take_u8(b).unwrap().0] + take_u8(b).unwrap().1,
{
    assert(b =~= seq![b[0]] + b.skip(1));
}

/// A written byte string reads back, leaving what follows it.
pub proof fn lemma_take_bytes_written(s: Seq<u8>, rest: Seq<u8>)
    requires
        bytes_fit(s),
    ensures
        take_bytes(enc_bytes(s) + rest) == Some((s, rest)),
{
    let n = s.len() as u32;
    assert(enc_bytes(s) + rest =~= u32_le(n) + (s + rest));
    lemma_take_u32_written(n, s + rest);
    assert((s + rest).take(n as int) =~= s);
    assert((s + rest).skip(n as int) =~= rest);
}

/// Bytes that read as a byte string are that string written, then the rest.
pub proof fn lemma_take_bytes_read(b: Seq<u8>)
    requires
        take_bytes(b) is Some,
    ensures
        bytes_fit(take_bytes(b).unwrap().0),
        b == enc_bytes(take_bytes(b).unwrap().0) + take_bytes(b).unwrap().1,
{
    lemma_take_u32_read(b);
    let (n, r) = take_u32(b)->0;
    let s = r.take(n as int);
    assert(s.len() == n);
    assert(r =~= s + r.skip(n as int));
    assert(b =~= u32_le(n) + s + r.skip(n as int));
}

/// A written text reads back, leaving what follows it.
pub proof fn lemma_take_string_written(c: Seq<char>, rest: Seq<u8>)
    requires
        string_fits(c),
    ensures
        take_string(enc_string(c) + rest) == Some((c, rest)),
{
    encode_utf8_valid_utf8(c);
    encode_utf8_decode_utf8(c);
    lemma_take_bytes_written(encode_utf8(c), rest);
}

/// Bytes that read as a text are that text written, then the rest.
pub proof fn lemma_take_string_read(b: Seq<u8>)
    requires
        take_string(b) is Some,
    ensures
        string_fits(take_string(b).unwrap().0),
        b == enc_string(take_string(b).unwrap().0) + take_string(b).unwrap().1,
{
    decode_utf8_encode_utf8(take_bytes(b).unwrap().0);
    lemma_take_bytes_read(b);
}

/// Texts written one after the other read back, leaving what follows them.
pub proof fn lemma_take_string_items_written(ss: Seq<Seq<char>>, rest: Seq<u8>)
    requires
        forall|i: int| 0 <= i < ss.len() ==> string_fits(#[trigger] ss[i]),
    ensures
        take_string_items(ss.len(), enc_string_items(ss) + rest) == Some((ss, rest)),
    decreases ss.len(),
{
    if ss.len() > 0 {
        let tail = ss.drop_first();
        assert forall|i: int| 0 <= i < tail.len() implies string_fits(#[trigger] tail[i]) by {
            assert(tail[i] == ss[i + 1]);
        }
        lemma_take_string_items_written(tail, rest);
        assert(enc_string_items(ss) + rest =~= enc_string(ss[0]) + (enc_string_items(tail) + rest));
        assert(string_fits(ss[0]));
        lemma_take_string_written(ss[0], enc_string_items(tail) + rest);
        assert(seq![ss[0]] + tail =~= ss);
    } else {
        assert(enc_string_items(ss) + rest =~= rest);
    }
}

/// Bytes that read as `n` texts are those texts written, then the rest.
pub proof fn lemma_take_string_items_read(n: nat, b: Seq<u8>)
    requires
        take_string_items(n, b) is Some,
    ensures
        take_string_items(n, b).unwrap().0.len() == n,
        forall|i: int|
            0 <= i < n ==> string_fits(#[trigger] take_string_items(n, b).unwrap().0[i]),
        b == enc_string_items(take_string_items(n, b).unwrap().0) + take_string_items(n, b).unwrap().1,
    decreases n,
{
    if n == 0 {
        assert(b =~= enc_string_items(Seq::<Seq<char>>::empty()) + b);
    } else {
        lemma_take_string_read(b);
        let (s, rest) = take_string(b)->0;
        lemma_take_string_items_read((n - 1) as nat, rest);
        let (ss, rest2) = take_string_items((n - 1) as nat, rest)->0;
        let all = seq![s] + ss;
        assert(all.drop_first() =~= ss);
        assert(all[0] == s);
        assert forall|i: int| 0 <= i < n implies string_fits(#[trigger] all[i]) by {
            if i > 0 {
                assert(all[i] == ss[i - 1]);
            }
        }
        assert(b =~= enc_string_items(all) + rest2);
    }
}

/// Adding a text to a list adds its bytes at the end.
pub proof fn lemma_enc_string_items_push(ss: Seq<Seq<char>>, c: Seq<char>)
    ensures
        enc_string_items(ss.push(c)) == enc_string_items(ss) + enc_string(c),
    decreases ss.len(),
{
    if ss.len() == 0 {
        assert(ss.push(c).drop_first() =~= Seq::<Seq<char>>::empty());
        assert(ss.push(c)[0] == c);
        assert(enc_string_items(Seq::<Seq<char>>::empty()) == Seq::<u8>::empty());
        assert(enc_string_items(ss.push(c)) =~= enc_string(c) + Seq::<u8>::empty());
        assert(enc_string_items(ss) + enc_string(c) =~= enc_string(c));
    } else {
        lemma_enc_string_items_push(ss.drop_first(), c);
        assert(ss.push(c).drop_first() =~= ss.drop_first().push(c));
        assert(ss.push(c)[0] == ss[0]);
        assert(enc_string_items(ss.push(c)) =~= enc_string(ss[0]) + (enc_string_items(
            ss.drop_first(),
        ) + enc_string(c)));
    }
}

/// A written list of texts reads back, leaving what follows it.
pub proof fn lemma_take_strings_written(ss: Seq<Seq<char>>, rest: Seq<u8>)
    requires
        strings_fit(ss),
    ensures
        take_strings(enc_strings(ss) + rest) == Some((ss, rest)),
{
    let n = ss.len() as u32;
    assert(enc_strings(ss) + rest =~= u32_le(n) + (enc_string_items(ss) + rest));
    lemma_take_u32_written(n, enc_string_items(ss) + rest);
    lemma_take_string_items_written(ss, rest);
}

/// Bytes that read as a list of texts are that list written, then the rest.
pub proof fn lemma_take_strings_read(b: Seq<u8>)
    requires
        take_strings(b) is Some,
    ensures
        strings_fit(take_strings(b).unwrap().0),
        b == enc_strings(take_strings(b).unwrap().0) + take_strings(b).unwrap().1,
{
    lemma_take_u32_read(b);
    let (n, r) = take_u32(b)->0;
    lemma_take_string_items_read(n as nat, r);
    let (ss, r2) = take_string_items(n as nat, r)->0;
    assert(b =~= u32_le(n) + enc_string_items(ss) + r2);
}


// ---------------------------------------------------------------------------
// Reading.

/// Calls std's `String::from_utf8`. Its documentation: the bytes become a
/// `String` exactly when they are valid UTF-8, and the string then holds the
/// characters that they encode. The contract says so over vstd's
/// `valid_utf8` and `decode_utf8`.
#[verifier::external_body]
fn string_from_utf8(bytes: Vec<u8>) -> (r: Option<String>)
    ensures
        r is Some <==> valid_utf8(bytes@),
        r matches Some(s) ==> s@ == decode_utf8(bytes@),
{
    String::from_utf8(bytes).ok()
}

/// Reads one byte at `pos`; gives it and the position after it.
pub fn read_u8(data: &[u8], pos: usize) -> (r: Option<(u8, usize)>)
    requires
        pos <= data@.len(),
    ensures
        match r {
            Some((v, p)) => pos <= p <= data@.len() && take_u8(data@.skip(pos as int)) == Some(
                (v, data@.skip(p as int)),
            ),
            None => take_u8(data@.skip(pos as int)) is None,
        },
{
    if pos < data.len() {
        assert(data@.skip(pos as int).skip(1) =~= data@.skip(pos + 1));
        Some((data[pos], pos + 1))
    } else {
        None
    }
}

/// Reads a little-endian `u32` at `pos`.
pub fn read_u32(data: &[u8], pos: usize) -> (r: Option<(u32, usize)>)
    requires
        pos <= data@.len(),
    ensures
        match r {
            Some((v, p)) => pos <= p <= data@.len() && take_u32(data@.skip(pos as int)) == Some(
                (v, data@.skip(p as int)),
            ),
            None => take_u32(data@.skip(pos as int)) is None,
        },
{
    if data.len() - pos >= 4 {
        let b0 = data[pos];
        let b1 = data[pos + 1];
        let b2 = data[pos + 2];
        let b3 = data[pos + 3];
        let v: u32 = (b0 as u32) + (b1 as u32) * 256 + (b2 as u32) * 65536 + (b3 as u32)
            * 16777216;
        assert(data@.skip(pos as int).skip(4) =~= data@.skip(pos + 4));
        Some((v, pos + 4))
    } else {
        None
    }
}

/// Reads a byte string at `pos`.
pub fn read_bytes(data: &[u8], pos: usize) -> (r: Option<(Vec<u8>, usize)>)
    requires
        pos <= data@.len(),
    ensures
        match r {
            Some((v, p)) => pos <= p <= data@.len() && take_bytes(data@.skip(pos as int))
                == Some((v@, data@.skip(p as int))),
            None => take_bytes(data@.skip(pos as int)) is None,
        },
{
    match read_u32(data, pos) {
        None => None,
        Some((n, p)) => {
            let n = n as usize;
            if n <= data.len() - p {
                let v = vstd::slice::slice_to_vec(vstd::slice::slice_subrange(data, p, p + n));
                assert(v@ =~= data@.skip(p as int).take(n as int));
                assert(data@.skip(p as int).skip(n as int) =~= data@.skip(p + n));
                Some((v, p + n))
            } else {
                None
            }
        },
    }
}

/// Reads a text at `pos`.
pub fn read_string(data: &[u8], pos: usize) -> (r: Option<(String, usize)>)
    requires
        pos <= data@.len(),
    ensures
        match r {
            Some((v, p)) => pos <= p <= data@.len() && take_string(data@.skip(pos as int))
                == Some((v@, data@.skip(p as int))),
            None => take_string(data@.skip(pos as int)) is None,
        },
{
    match read_bytes(data, pos) {
        None => None,
        Some((bytes, p)) => match string_from_utf8(bytes) {
            Some(s) => Some((s, p)),
            None => None,
        },
    }
}

/// Reads a list of texts at `pos`.
pub fn read_strings(data: &[u8], pos: usize) -> (r: Option<(Vec<String>, usize)>)
    requires
        pos <= data@.len(),
    ensures
        match r {
            Some((v, p)) => pos <= p <= data@.len() && take_strings(data@.skip(pos as int))
                == Some((v.deep_view(), data@.skip(p as int))),
            None => take_strings(data@.skip(pos as int)) is None,
        },
{
    let (n, p0) = match read_u32(data, pos) {
        None => return None,
        Some(x) => x,
    };
    let mut out: Vec<String> = Vec::new();
    let mut p = p0;
    let mut i: u32 = 0;
    while i < n
        invariant
            i <= n,
            pos <= p0 <= p <= data@.len(),
            take_u32(data@.skip(pos as int)) == Some((n, data@.skip(p0 as int))),
            out.deep_view().len() == i,
            take_string_items(n as nat, data@.skip(p0 as int)) == match take_string_items(
                (n - i) as nat,
                data@.skip(p as int),
            ) {
                Some((ss, rest)) => Some((out.deep_view() + ss, rest)),
                None => None,
            },
        decreases n - i,
    {
        match read_string(data, p) {
            None => {
                return None;
            },
            Some((s, p2)) => {
                let ghost before = out.deep_view();
                out.push(s);
                proof {
                    let m = (n - i) as nat;
                    assert(out.deep_view() =~= before.push(s@));
                    match take_string_items((m - 1) as nat, data@.skip(p2 as int)) {
                        Some((ss, rest)) => {
                            assert(before + (seq![s@] + ss) =~= out.deep_view() + ss);
                        },
                        None => {},
                    }
                }
                p = p2;
                i = i + 1;
            },
        }
    }
    assert(out.deep_view() + Seq::<Seq<char>>::empty() =~= out.deep_view());
    Some((out, p))
}

// ---------------------------------------------------------------------------
// Writing.

/// Appends the bytes of `s`.
pub fn push_all(out: &mut Vec<u8>, s: &[u8])
    ensures
        final(out)@ == old(out)@ + s@,
{
    let mut i: usize = 0;
    while i < s.len()
        invariant
            i <= s@.len(),
            out@ == old(out)@ + s@.take(i as int),
        decreases s@.len() - i,
    {
        out.push(s[i]);
        assert(s@.take(i + 1) =~= s@.take(i as int).push(s@[i as int]));
        i = i + 1;
    }
    assert(s@.take(s@.len() as int) =~= s@);
}

/// Appends a little-endian `u32`.
pub fn push_u32(out: &mut Vec<u8>, n: u32)
    ensures
        final(out)@ == old(out)@ + u32_le(n),
{
    out.push((n % 256) as u8);
    out.push(((n / 256) % 256) as u8);
    out.push(((n / 65536) % 256) as u8);
    out.push((n / 16777216) as u8);
    assert(out@ =~= old(out)@ + u32_le(n));
}

/// Appends a byte string with its length in front.
pub fn push_bytes(out: &mut Vec<u8>, s: &[u8])
    requires
        bytes_fit(s@),
    ensures
        final(out)@ == old(out)@ + enc_bytes(s@),
{
    push_u32(out, s.len() as u32);
    push_all(out, s);
    assert(out@ =~= old(out)@ + enc_bytes(s@));
}

/// Appends a text with its length in front.
pub fn push_string(out: &mut Vec<u8>, s: &str)
    requires
        string_fits(s@),
    ensures
        final(out)@ == old(out)@ + enc_string(s@),
{
    push_bytes(out, s.as_bytes());
}

/// Appends a list of texts with its count in front.
pub fn push_strings(out: &mut Vec<u8>, ss: &Vec<String>)
    requires
        strings_fit(ss.deep_view()),
    ensures
        final(out)@ == old(out)@ + enc_strings(ss.deep_view()),
{
    push_u32(out, ss.len() as u32);
    let ghost start = out@;
    assert(ss.deep_view().skip(0) =~= ss.deep_view());
    assert(out@ + Seq::<u8>::empty() =~= out@);
    let mut i: usize = 0;
    while i < ss.len()
        invariant
            i <= ss@.len(),
            strings_fit(ss.deep_view()),
            start + enc_string_items(ss.deep_view()) == out@ + enc_string_items(
                ss.deep_view().skip(i as int),
            ),
        decreases ss@.len() - i,
    {
        let ghost tail = ss.deep_view().skip(i as int);
        assert(ss.deep_view()[i as int] == ss[i as int]@);
        assert(tail.drop_first() =~= ss.deep_view().skip(i + 1));
        assert(string_fits(ss.deep_view()[i as int]));
        let ghost before = out@;
        push_string(out, ss[i].as_str());
        assert(before + enc_string_items(tail) =~= out@ + enc_string_items(
            ss.deep_view().skip(i + 1),
        ));
        i = i + 1;
    }
    assert(ss.deep_view().skip(ss@.len() as int) =~= Seq::<Seq<char>>::empty());
    assert(ss.deep_view().skip(0) =~= ss.deep_view());
    assert(out@ + Seq::<u8>::empty() =~= out@);
    assert(out@ =~= old(out)@ + enc_strings(ss.deep_view()));
}

} // verus!
