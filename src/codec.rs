//! Variable-length integers and length-framed fields of the wire format.
//!
//! An unsigned integer is written seven bits per byte, least significant
//! group first, with the high bit set on every byte but the last. A byte
//! string is its length as such an integer followed by the bytes; a text
//! string is the byte string of its UTF-8 encoding.
use vstd::prelude::*;
use vstd::utf8::*;

verus! {

/// Canonical variable-length encoding of `n`.
pub open spec fn varint(n: nat) -> Seq<u8>
    decreases n,
{
    if n < 128 {
        seq![n as u8]
    } else {
        seq![(n % 128 + 128) as u8] + varint(n / 128)
    }
}

/// Reads a variable-length integer from the front of `b`, reading at most
/// `fuel` bytes. Gives the value and the number of bytes read. A
/// continuation byte must be followed by a non-zero remainder, so only the
/// canonical encoding is accepted.
pub open spec fn parse_varint_fuel(b: Seq<u8>, fuel: nat) -> Option<(nat, nat)>
    decreases fuel,
{
    if fuel == 0 || b.len() == 0 {
        None
    } else if b[0] < 128 {
        Some((b[0] as nat, 1))
    } else {
        match parse_varint_fuel(b.drop_first(), (fuel - 1) as nat) {
            Some((v, k)) => if v == 0 {
                None
            } else {
                Some(((b[0] - 128) as nat + 128 * v, k + 1))
            },
            None => None,
        }
    }
}

/// Bytes that a 64-bit value may take at most.
pub const MAX_VARINT_LEN: usize = 10;

/// Reads a variable-length integer that fits in 64 bits from the front of `b`.
pub open spec fn parse_varint(b: Seq<u8>) -> Option<(nat, nat)> {
    match parse_varint_fuel(b, MAX_VARINT_LEN as nat) {
        Some((v, k)) => if v <= u64::MAX {
            Some((v, k))
        } else {
            None
        },
        None => None,
    }
}

pub open spec fn pow128(k: nat) -> nat
    decreases k,
{
    if k == 0 {
        1
    } else {
        128 * pow128((k - 1) as nat)
    }
}

proof fn lemma_varint_len(n: nat, k: nat)
    requires
        n < pow128(k),
        k >= 1,
    ensures
        varint(n).len() <= k,
        varint(n).len() >= 1,
    decreases n,
{
    if n >= 128 {
        assert(k > 1) by {
            if k == 1 {
                assert(pow128(0) == 1);
            }
        }
        assert(n / 128 < pow128((k - 1) as nat)) by (nonlinear_arith)
            requires
                n < pow128(k),
                k > 0,
                pow128(k) == 128 * pow128((k - 1) as nat),
        ;
        lemma_varint_len(n / 128, (k - 1) as nat);
    }
}

/// Reading the encoding of `n` back, whatever follows it, gives `n` and the
/// encoding's length, as long as `fuel` covers that length.
proof fn lemma_parse_varint_fuel(n: nat, rest: Seq<u8>, fuel: nat)
    requires
        varint(n).len() <= fuel,
    ensures
        parse_varint_fuel(varint(n) + rest, fuel) == Some((n, varint(n).len())),
    decreases n,
{
    let b = varint(n) + rest;
    if n < 128 {
        assert(b[0] == n as u8);
    } else {
        let tail = varint(n / 128);
        assert(b.drop_first() =~= tail + rest);
        lemma_varint_nonzero_len(n / 128);
        lemma_parse_varint_fuel(n / 128, rest, (fuel - 1) as nat);
        assert(b[0] == (n % 128 + 128) as u8);
    }
}

proof fn lemma_varint_nonzero_len(n: nat)
    ensures
        varint(n).len() >= 1,
    decreases n,
{
    if n >= 128 {
        lemma_varint_nonzero_len(n / 128);
    }
}

/// What was read is the canonical encoding of the value read.
proof fn lemma_parse_varint_fuel_inverse(b: Seq<u8>, fuel: nat)
    requires
        parse_varint_fuel(b, fuel) is Some,
    ensures
        ({
            let (v, k) = parse_varint_fuel(b, fuel).unwrap();
            1 <= k <= b.len() && k <= fuel && b.subrange(0, k as int) == varint(v)
        }),
    decreases fuel,
{
    if b[0] < 128 {
        assert(b.subrange(0, 1) =~= seq![b[0]]);
    } else {
        let t = b.drop_first();
        lemma_parse_varint_fuel_inverse(t, (fuel - 1) as nat);
        let (v, k) = parse_varint_fuel(t, (fuel - 1) as nat).unwrap();
        let n = (b[0] - 128) as nat + 128 * v;
        assert(n >= 128);
        assert(n % 128 == (b[0] - 128) as nat && n / 128 == v) by (nonlinear_arith)
            requires
                n == (b[0] - 128) as nat + 128 * v,
                b[0] >= 128,
                b[0] < 256,
        ;
        assert(b.subrange(0, (k + 1) as int) =~= seq![b[0]] + t.subrange(0, k as int));
    }
}

/// The canonical encoding of a 64-bit value is read back, whatever follows.
pub proof fn lemma_parse_varint(n: nat, rest: Seq<u8>)
    requires
        n <= u64::MAX,
    ensures
        parse_varint(varint(n) + rest) == Some((n, varint(n).len())),
{
    reveal_with_fuel(pow128, 11);
    assert(pow128(10) == 1180591620717411303424nat);
    lemma_varint_len(n, 10);
    lemma_parse_varint_fuel(n, rest, 10);
}

/// The encoding of a 64-bit value takes one to ten bytes.
pub proof fn lemma_varint_bounded(n: nat)
    requires
        n <= u64::MAX,
    ensures
        1 <= varint(n).len() <= MAX_VARINT_LEN,
{
    reveal_with_fuel(pow128, 11);
    assert(pow128(10) == 1180591620717411303424nat);
    lemma_varint_len(n, 10);
}

/// A value that was read came from its canonical encoding.
pub proof fn lemma_parse_varint_inverse(b: Seq<u8>)
    requires
        parse_varint(b) is Some,
    ensures
        ({
            let (v, k) = parse_varint(b).unwrap();
            1 <= k <= b.len() && v <= u64::MAX && b.subrange(0, k as int) == varint(v)
        }),
{
    lemma_parse_varint_fuel_inverse(b, 10);
}

/// Appends the canonical encoding of `n` to `out`.
pub fn write_varint(out: &mut Vec<u8>, n: u64)
    ensures
        final(out)@ == old(out)@ + varint(n as nat),
{
    let mut cur: u64 = n;
    while cur >= 128
        invariant
            out@ + varint(cur as nat) == old(out)@ + varint(n as nat),
        decreases cur,
    {
        let byte: u8 = (cur % 128 + 128) as u8;
        proof {
            assert(varint(cur as nat) == seq![byte] + varint((cur / 128) as nat));
            assert(out@.push(byte) + varint((cur / 128) as nat) =~= out@ + varint(cur as nat));
        }
        out.push(byte);
        cur = cur / 128;
    }
    proof {
        assert(out@.push(cur as u8) =~= out@ + varint(cur as nat));
    }
    out.push(cur as u8);
}

fn read_varint_fuel(b: &[u8], pos: usize, fuel: usize) -> (r: Option<(u64, usize)>)
    requires
        pos <= b@.len(),
    ensures
        r == (match parse_varint_fuel(b@.subrange(pos as int, b@.len() as int), fuel as nat) {
            Some((v, k)) => if v <= u64::MAX {
                Some((v as u64, (pos + k) as usize))
            } else {
                None
            },
            None => None,
        }),
        r matches Some((_, end)) ==> pos < end <= b@.len(),
    decreases fuel,
{
    let ghost rest = b@.subrange(pos as int, b@.len() as int);
    if fuel == 0 || pos >= b.len() {
        return None;
    }
    let first = b[pos];
    if first < 128 {
        return Some((first as u64, pos + 1));
    }
    proof {
        assert(rest.drop_first() =~= b@.subrange(pos + 1, b@.len() as int));
    }
    let inner = read_varint_fuel(b, pos + 1, fuel - 1);
    proof {
        if parse_varint_fuel(rest, fuel as nat) is Some {
            lemma_parse_varint_fuel_inverse(rest, fuel as nat);
        }
    }
    match inner {
        Some((v, end)) => {
            let low: u64 = (first - 128) as u64;
            if v == 0 || v > (u64::MAX - low) / 128 {
                proof {
                    if v != 0 {
                        assert(low + 128 * (v as nat) > u64::MAX) by (nonlinear_arith)
                            requires
                                v > (u64::MAX - low) / 128,
                                low < 128,
                        ;
                    }
                }
                None
            } else {
                proof {
                    assert(low + 128 * (v as nat) <= u64::MAX) by (nonlinear_arith)
                        requires
                            v <= (u64::MAX - low) / 128,
                            low < 128,
                    ;
                }
                Some((low + 128 * v, end))
            }
        },
        None => {
            proof {
                if let Some((v, k)) = parse_varint_fuel(rest.drop_first(), (fuel - 1) as nat) {
                    if v != 0 {
                        assert((first - 128) as nat + 128 * v > u64::MAX) by (nonlinear_arith)
                            requires
                                v > u64::MAX,
                        ;
                    }
                }
            }
            None
        },
    }
}

/// Reads a variable-length integer at `pos`. Gives its value and the
/// position just past it.
pub fn read_varint(b: &[u8], pos: usize) -> (r: Option<(u64, usize)>)
    requires
        pos <= b@.len(),
    ensures
        r == (match parse_varint(b@.subrange(pos as int, b@.len() as int)) {
            Some((v, k)) => Some((v as u64, (pos + k) as usize)),
            None => None,
        }),
        r matches Some((v, end)) ==> pos < end <= b@.len() && parse_varint(
            b@.subrange(pos as int, b@.len() as int),
        ) == Some((v as nat, (end - pos) as nat)),
        r is None <==> parse_varint(b@.subrange(pos as int, b@.len() as int)) is None,
{
    let ghost rest = b@.subrange(pos as int, b@.len() as int);
    let len = b.len();
    proof {
        assert(rest.len() == len - pos);
        if parse_varint(rest) is Some {
            lemma_parse_varint_inverse(rest);
        }
    }
    read_varint_fuel(b, pos, MAX_VARINT_LEN)
}

/// A byte string framed by its length.
pub open spec fn bytes_field(b: Seq<u8>) -> Seq<u8> {
    varint(b.len()) + b
}

/// A text string framed as the byte string of its UTF-8 encoding.
pub open spec fn text_field(s: Seq<char>) -> Seq<u8> {
    bytes_field(encode_utf8(s))
}

/// Reads a length-framed byte string from the front of `b`; gives the
/// bytes and the number of bytes read.
pub open spec fn parse_bytes_field(b: Seq<u8>) -> Option<(Seq<u8>, nat)> {
    match parse_varint(b) {
        Some((n, k)) => if k + n <= b.len() {
            Some((b.subrange(k as int, (k + n) as int), k + n))
        } else {
            None
        },
        None => None,
    }
}

/// Reads a length-framed UTF-8 text string from the front of `b`.
pub open spec fn parse_text_field(b: Seq<u8>) -> Option<(Seq<char>, nat)> {
    match parse_bytes_field(b) {
        Some((bytes, k)) => if valid_utf8(bytes) {
            Some((decode_utf8(bytes), k))
        } else {
            None
        },
        None => None,
    }
}

pub proof fn lemma_parse_bytes_field(x: Seq<u8>, rest: Seq<u8>)
    requires
        x.len() <= u64::MAX,
    ensures
        parse_bytes_field(bytes_field(x) + rest) == Some((x, bytes_field(x).len())),
{
    let b = bytes_field(x) + rest;
    assert(b =~= varint(x.len()) + (x + rest));
    lemma_parse_varint(x.len(), x + rest);
    let k = varint(x.len()).len();
    assert(b.subrange(k as int, (k + x.len()) as int) =~= x);
}

pub proof fn lemma_parse_bytes_field_inverse(b: Seq<u8>)
    requires
        parse_bytes_field(b) is Some,
    ensures
        ({
            let (x, k) = parse_bytes_field(b).unwrap();
            k <= b.len() && x.len() <= u64::MAX && b.subrange(0, k as int) == bytes_field(x)
        }),
{
    lemma_parse_varint_inverse(b);
    let (n, j) = parse_varint(b).unwrap();
    let (x, k) = parse_bytes_field(b).unwrap();
    assert(b.subrange(0, k as int) =~= b.subrange(0, j as int) + x);
}

pub proof fn lemma_parse_text_field(s: Seq<char>, rest: Seq<u8>)
    requires
        encode_utf8(s).len() <= u64::MAX,
    ensures
        parse_text_field(text_field(s) + rest) == Some((s, text_field(s).len())),
{
    lemma_parse_bytes_field(encode_utf8(s), rest);
    encode_utf8_valid_utf8(s);
    encode_utf8_decode_utf8(s);
}

pub proof fn lemma_parse_text_field_inverse(b: Seq<u8>)
    requires
        parse_text_field(b) is Some,
    ensures
        ({
            let (s, k) = parse_text_field(b).unwrap();
            k <= b.len() && encode_utf8(s).len() <= u64::MAX && b.subrange(0, k as int)
                == text_field(s)
        }),
{
    lemma_parse_bytes_field_inverse(b);
    let (x, k) = parse_bytes_field(b).unwrap();
    decode_utf8_encode_utf8(x);
}

/// Appends `b` framed by its length.
pub fn write_bytes_field(out: &mut Vec<u8>, b: &[u8])
    ensures
        final(out)@ == old(out)@ + bytes_field(b@),
{
    write_varint(out, b.len() as u64);
    write_raw(out, b);
}

/// Appends `b` as it is.
pub fn write_raw(out: &mut Vec<u8>, b: &[u8])
    ensures
        final(out)@ == old(out)@ + b@,
{
    let ghost start = out@;
    let mut i: usize = 0;
    while i < b.len()
        invariant
            i <= b@.len(),
            out@ == start + b@.subrange(0, i as int),
        decreases b@.len() - i,
    {
        out.push(b[i]);
        i = i + 1;
        proof {
            assert(out@ =~= start + b@.subrange(0, i as int));
        }
    }
    proof {
        assert(b@.subrange(0, b@.len() as int) =~= b@);
    }
}

/// Appends the UTF-8 encoding of `s` framed by its length.
pub fn write_text_field(out: &mut Vec<u8>, s: &str)
    ensures
        final(out)@ == old(out)@ + text_field(s@),
{
    write_bytes_field(out, s.as_bytes());
}

/// Reads a length-framed byte string at `pos`. Gives the bytes and the
/// position just past them.
pub fn read_bytes_field(b: &[u8], pos: usize) -> (r: Option<(Vec<u8>, usize)>)
    requires
        pos <= b@.len(),
    ensures
        r matches Some((x, end)) ==> parse_bytes_field(b@.subrange(pos as int, b@.len() as int))
            == Some((x@, (end - pos) as nat)) && pos < end <= b@.len(),
        r is None <==> parse_bytes_field(b@.subrange(pos as int, b@.len() as int)) is None,
{
    let ghost rest = b@.subrange(pos as int, b@.len() as int);
    let len = b.len();
    proof {
        assert(rest.len() == len - pos);
        if parse_varint(rest) is Some {
            lemma_parse_varint_inverse(rest);
        }
    }
    match read_varint(b, pos) {
        Some((n, start)) => {
            let ghost k = (start - pos) as nat;
            proof {
                assert(parse_varint(rest) == Some((n as nat, k)));
            }
            if n > (b.len() - start) as u64 {
                None
            } else {
                let end: usize = start + n as usize;
                let x = vstd::slice::slice_to_vec(vstd::slice::slice_subrange(b, start, end));
                proof {
                    assert(x@ =~= rest.subrange((start - pos) as int, (end - pos) as int));
                }
                Some((x, end))
            }
        },
        None => None,
    }
}

/// Copies the `N` bytes at `pos` into an array.
pub fn read_array<const N: usize>(b: &[u8], pos: usize) -> (r: [u8; N])
    requires
        pos + N <= b@.len(),
    ensures
        r@ == b@.subrange(pos as int, pos + N),
{
    let mut arr = [0u8; N];
    let len = b.len();
    let mut i: usize = 0;
    while i < N
        invariant
            i <= N,
            len == b@.len(),
            pos + N <= b@.len(),
            arr@.len() == N,
            arr@.subrange(0, i as int) == b@.subrange(pos as int, pos + i),
        decreases N - i,
    {
        arr[i] = b[pos + i];
        i = i + 1;
        proof {
            assert(arr@.subrange(0, i as int) =~= b@.subrange(pos as int, pos + i));
        }
    }
    proof {
        assert(arr@ =~= arr@.subrange(0, N as int));
    }
    arr
}

/// Relies on `std::str::from_utf8`: it succeeds exactly when the bytes are
/// valid UTF-8, and then the string's UTF-8 encoding is those bytes.
#[verifier::external_body]
fn utf8_to_string(b: &[u8]) -> (r: Option<String>)
    ensures
        r is Some <==> valid_utf8(b@),
        r matches Some(s) ==> encode_utf8(s@) == b@,
{
    std::str::from_utf8(b).ok().map(|s| s.to_string())
}

/// Reads a length-framed UTF-8 text string at `pos`. Gives the text and the
/// position just past it.
pub fn read_text_field(b: &[u8], pos: usize) -> (r: Option<(String, usize)>)
    requires
        pos <= b@.len(),
    ensures
        r matches Some((s, end)) ==> parse_text_field(b@.subrange(pos as int, b@.len() as int))
            == Some((s@, (end - pos) as nat)) && pos < end <= b@.len(),
        r is None <==> parse_text_field(b@.subrange(pos as int, b@.len() as int)) is None,
{
    match read_bytes_field(b, pos) {
        Some((x, end)) => match utf8_to_string(x.as_slice()) {
            Some(s) => {
                proof {
                    encode_utf8_decode_utf8(s@);
                }
                Some((s, end))
            },
            None => None,
        },
        None => None,
    }
}

} // verus!
