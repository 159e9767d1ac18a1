use vstd::prelude::*;

use crate::errors::CodecError;
use crate::util::copy_bytes;

verus! {

/// The lowercase hexadecimal character for one nibble.
pub open spec fn spec_hex_char(n: u8) -> char
    recommends
        n < 16,
{
    if n == 0 { '0' } else if n == 1 { '1' } else if n == 2 { '2' } else if n == 3 { '3' }
    else if n == 4 { '4' } else if n == 5 { '5' } else if n == 6 { '6' } else if n == 7 { '7' }
    else if n == 8 { '8' } else if n == 9 { '9' } else if n == 10 { 'a' } else if n == 11 { 'b' }
    else if n == 12 { 'c' } else if n == 13 { 'd' } else if n == 14 { 'e' } else { 'f' }
}

/// Does this character count as a hexadecimal digit (either case)?
pub open spec fn is_hex_char(c: char) -> bool {
    ('0' <= c && c <= '9') || ('a' <= c && c <= 'f') || ('A' <= c && c <= 'F')
}

/// The numeric value of a hexadecimal digit character.
pub open spec fn hex_char_val(c: char) -> u8
    recommends
        is_hex_char(c),
{
    if '0' <= c && c <= '9' {
        ((c as u8) - ('0' as u8)) as u8
    } else if 'a' <= c && c <= 'f' {
        (10 + (c as u8) - ('a' as u8)) as u8
    } else {
        (10 + (c as u8) - ('A' as u8)) as u8
    }
}

/// The hexadecimal digit pair for each byte, in order.
pub open spec fn hex_chars(b: Seq<u8>) -> Seq<char>
    decreases b.len(),
{
    if b.len() == 0 {
        Seq::<char>::empty()
    } else {
        seq![spec_hex_char(b[0] / 16), spec_hex_char(b[0] % 16)] + hex_chars(b.drop_first())
    }
}

/// Canonical encoding of a byte string: `0x`, then two lowercase digits per byte.
pub open spec fn spec_encode(b: Seq<u8>) -> Seq<char> {
    seq!['0', 'x'] + hex_chars(b)
}

/// The digits of `s` once an optional `0x` prefix is removed.
pub open spec fn spec_strip(s: Seq<char>) -> Seq<char> {
    if s.len() >= 2 && s[0] == '0' && s[1] == 'x' {
        s.skip(2)
    } else {
        s
    }
}

/// Left-pads an odd run of digits with one `0` nibble.
pub open spec fn spec_pad(s: Seq<char>) -> Seq<char> {
    if s.len() % 2 == 1 {
        seq!['0'] + s
    } else {
        s
    }
}

/// Every character of `s` is a hexadecimal digit.
pub open spec fn all_hex(s: Seq<char>) -> bool {
    forall|i: int| 0 <= i < s.len() ==> is_hex_char(#[trigger] s[i])
}

/// The nibble values of a run of hexadecimal digit characters.
pub open spec fn nibble_vals(s: Seq<char>) -> Seq<u8> {
    s.map_values(|c: char| hex_char_val(c))
}

/// Packs an even run of nibble values into bytes, high nibble first.
pub open spec fn bytes_of_nibbles(v: Seq<u8>) -> Seq<u8>
    decreases v.len(),
{
    if v.len() < 2 {
        Seq::<u8>::empty()
    } else {
        seq![(v[0] * 16 + v[1]) as u8] + bytes_of_nibbles(v.skip(2))
    }
}

/// Does `s` decode successfully: after prefix stripping, only hex digits remain?
pub open spec fn hex_decode_ok(s: Seq<char>) -> bool {
    all_hex(spec_strip(s))
}

/// The bytes that `s` decodes to, when `hex_decode_ok(s)` holds.
pub open spec fn spec_decode(s: Seq<char>) -> Seq<u8>
    recommends
        hex_decode_ok(s),
{
    bytes_of_nibbles(nibble_vals(spec_pad(spec_strip(s))))
}

/// The lowercase hexadecimal digit for a nibble, as a one-character string slice.
pub fn hex_digit(n: u8) -> (r: &'static str)
    requires
        n < 16,
    ensures
        r@ =~= seq![spec_hex_char(n)],
{
    proof {
        reveal_strlit("0"); reveal_strlit("1"); reveal_strlit("2"); reveal_strlit("3");
        reveal_strlit("4"); reveal_strlit("5"); reveal_strlit("6"); reveal_strlit("7");
        reveal_strlit("8"); reveal_strlit("9"); reveal_strlit("a"); reveal_strlit("b");
        reveal_strlit("c"); reveal_strlit("d"); reveal_strlit("e"); reveal_strlit("f");
    }
    if n == 0 { "0" } else if n == 1 { "1" } else if n == 2 { "2" } else if n == 3 { "3" }
    else if n == 4 { "4" } else if n == 5 { "5" } else if n == 6 { "6" } else if n == 7 { "7" }
    else if n == 8 { "8" } else if n == 9 { "9" } else if n == 10 { "a" } else if n == 11 { "b" }
    else if n == 12 { "c" } else if n == 13 { "d" } else if n == 14 { "e" } else { "f" }
}

/// The nibble value of a hexadecimal digit character, or `None` for any other character.
pub fn hex_val(c: char) -> (r: Option<u8>)
    ensures
        r is Some <==> is_hex_char(c),
        r is Some ==> r->Some_0 == hex_char_val(c) && r->Some_0 < 16,
{
    let u = c as u32;
    if 48 <= u && u <= 57 {
        Some((u - 48) as u8)
    } else if 97 <= u && u <= 102 {
        Some((10 + u - 97) as u8)
    } else if 65 <= u && u <= 70 {
        Some((10 + u - 65) as u8)
    } else {
        None
    }
}

proof fn lemma_hex_chars_push(b: Seq<u8>, x: u8)
    ensures
        hex_chars(b.push(x)) =~= hex_chars(b) + seq![spec_hex_char(x / 16), spec_hex_char(x % 16)],
    decreases b.len(),
{
    let bp = b.push(x);
    if b.len() == 0 {
        assert(bp.len() == 1);
        assert(bp[0] == x);
        assert(bp.drop_first() =~= Seq::<u8>::empty());
        assert(hex_chars(bp.drop_first()) == hex_chars(Seq::<u8>::empty()));
        assert(hex_chars(bp) == seq![spec_hex_char(bp[0] / 16), spec_hex_char(bp[0] % 16)]
            + hex_chars(bp.drop_first()));
        assert(hex_chars(b) == Seq::<char>::empty());
    } else {
        lemma_hex_chars_push(b.drop_first(), x);
        assert(bp.drop_first() =~= b.drop_first().push(x));
        assert(hex_chars(bp.drop_first()) == hex_chars(b.drop_first().push(x)));
        assert(bp[0] == b[0]);
        assert(hex_chars(bp) == seq![spec_hex_char(bp[0] / 16), spec_hex_char(bp[0] % 16)]
            + hex_chars(bp.drop_first()));
        assert(hex_chars(b) == seq![spec_hex_char(b[0] / 16), spec_hex_char(b[0] % 16)]
            + hex_chars(b.drop_first()));
    }
}

/// The hex digit pair count: two characters per byte.
pub proof fn lemma_hex_chars_len(b: Seq<u8>)
    ensures
        hex_chars(b).len() == 2 * b.len(),
    decreases b.len(),
{
    if b.len() > 0 {
        lemma_hex_chars_len(b.drop_first());
    }
}

/// Encodes a byte string as `0x`-prefixed lowercase hexadecimal text.
pub fn encode(b: &[u8]) -> (r: String)
    ensures
        r@ =~= spec_encode(b@),
{
    let mut s = String::new();
    s.append("0x");
    proof {
        reveal_strlit("0x");
        assert(s@ =~= seq!['0', 'x'] + hex_chars(b@.take(0)));
    }
    let mut i: usize = 0;
    while i < b.len()
        invariant
            0 <= i <= b@.len(),
            s@ =~= seq!['0', 'x'] + hex_chars(b@.take(i as int)),
        decreases b@.len() - i,
    {
        let by = b[i];
        s.append(hex_digit(by / 16));
        s.append(hex_digit(by % 16));
        proof {
            lemma_hex_chars_push(b@.take(i as int), b@[i as int]);
            assert(b@.take(i + 1) =~= b@.take(i as int).push(b@[i as int]));
        }
        i = i + 1;
    }
    proof {
        assert(b@.take(b@.len() as int) =~= b@);
    }
    s
}

proof fn lemma_bytes_of_nibbles_push2(v: Seq<u8>, a: u8, b: u8)
    requires
        v.len() % 2 == 0,
    ensures
        bytes_of_nibbles(v.push(a).push(b)) =~= bytes_of_nibbles(v).push((a * 16 + b) as u8),
    decreases v.len(),
{
    let vp = v.push(a).push(b);
    if v.len() == 0 {
        assert(vp.len() == 2);
        assert(vp[0] == a);
        assert(vp[1] == b);
        assert(vp.skip(2) =~= Seq::<u8>::empty());
        assert(bytes_of_nibbles(vp.skip(2)) == bytes_of_nibbles(Seq::<u8>::empty()));
        assert(bytes_of_nibbles(vp) == seq![(vp[0] * 16 + vp[1]) as u8]
            + bytes_of_nibbles(vp.skip(2)));
        assert(bytes_of_nibbles(v) == Seq::<u8>::empty());
    } else {
        assert(v.len() >= 2);
        lemma_bytes_of_nibbles_push2(v.skip(2), a, b);
        assert(vp.skip(2) =~= v.skip(2).push(a).push(b));
        assert(bytes_of_nibbles(vp.skip(2)) == bytes_of_nibbles(v.skip(2).push(a).push(b)));
        assert(vp[0] == v[0]);
        assert(vp[1] == v[1]);
        assert(bytes_of_nibbles(vp) == seq![(vp[0] * 16 + vp[1]) as u8]
            + bytes_of_nibbles(vp.skip(2)));
        assert(bytes_of_nibbles(v) == seq![(v[0] * 16 + v[1]) as u8]
            + bytes_of_nibbles(v.skip(2)));
    }
}

/// Encodes a byte string as bare lowercase hexadecimal digits, without the
/// `0x` prefix, the way fixed-width identifiers are printed in reports.
pub fn encode_bare(b: &[u8]) -> (r: String)
    ensures
        r@ =~= hex_chars(b@),
{
    let mut s = String::new();
    proof {
        assert(s@ =~= hex_chars(b@.take(0)));
    }
    let mut i: usize = 0;
    while i < b.len()
        invariant
            0 <= i <= b@.len(),
            s@ =~= hex_chars(b@.take(i as int)),
        decreases b@.len() - i,
    {
        let by = b[i];
        s.append(hex_digit(by / 16));
        s.append(hex_digit(by % 16));
        proof {
            lemma_hex_chars_push(b@.take(i as int), b@[i as int]);
            assert(b@.take(i + 1) =~= b@.take(i as int).push(b@[i as int]));
        }
        i = i + 1;
    }
    proof {
        assert(b@.take(b@.len() as int) =~= b@);
    }
    s
}

/// Decodes `0x`-prefixed (or bare) hexadecimal text into bytes, left-padding
/// an odd digit count with one zero nibble.
#[verifier::rlimit(100)]
pub fn decode(text: &str) -> (r: Result<Vec<u8>, CodecError>)
    ensures
        match r {
            Ok(v) => hex_decode_ok(text@) && v@ =~= spec_decode(text@),
            Err(e) => !hex_decode_ok(text@) && e == CodecError::InvalidDigit,
        },
{
    let n = text.unicode_len();
    let start: usize = if n >= 2 && text.get_char(0) == '0' && text.get_char(1) == 'x' {
        2
    } else {
        0
    };
    let ghost stripped: Seq<char> = spec_strip(text@);
    proof {
        assert(stripped =~= text@.skip(start as int));
    }
    let mut nibbles: Vec<u8> = Vec::new();
    let ghost padded: Seq<char> = spec_pad(stripped);
    let ghost pad: int = padded.len() - stripped.len();
    if (n - start) % 2 == 1 {
        nibbles.push(0);
        proof {
            assert(padded[0] == '0');
            assert(is_hex_char('0') && hex_char_val('0') == 0);
        }
    }
    proof {
        assert(nibbles@ =~= nibble_vals(padded.take(pad)));
    }
    let mut i: usize = start;
    while i < n
        invariant
            start <= i <= n,
            n == text@.len(),
            stripped == spec_strip(text@),
            stripped =~= text@.skip(start as int),
            padded =~= spec_pad(stripped),
            pad == padded.len() - stripped.len(),
            0 <= pad <= 1,
            forall|k: int| 0 <= k < pad + (i - start) ==> is_hex_char(#[trigger] padded[k]),
            nibbles@ =~= nibble_vals(padded.take(pad + (i - start))),
            forall|k: int| 0 <= k < nibbles@.len() ==> #[trigger] nibbles@[k] < 16,
        decreases n - i,
    {
        let c = text.get_char(i);
        proof {
            assert(padded[pad + (i - start)] == text@[i as int]);
        }
        match hex_val(c) {
            None => {
                proof {
                    assert(stripped[i - start] == text@[i as int]);
                    assert(!all_hex(stripped));
                }
                return Err(CodecError::InvalidDigit);
            },
            Some(v) => {
                nibbles.push(v);
                proof {
                    assert(nibble_vals(padded.take(pad + (i - start) + 1)) =~= nibble_vals(
                        padded.take(pad + (i - start)),
                    ).push(hex_char_val(padded[pad + (i - start)])));
                }
            },
        }
        i = i + 1;
    }
    proof {
        assert(padded.take(pad + (n - start)) =~= padded);
        assert forall|k: int| 0 <= k < stripped.len() implies is_hex_char(
            #[trigger] stripped[k],
        ) by {
            assert(padded[pad + k] == stripped[k]);
        }
        assert(hex_decode_ok(text@));
        assert(padded.len() % 2 == 0);
        assert(nibbles@.len() % 2 == 0);
    }
    let mut out: Vec<u8> = Vec::new();
    let mut j: usize = 0;
    let half = nibbles.len() / 2;
    while j < half
        invariant
            0 <= j <= half,
            half == nibbles@.len() / 2,
            nibbles@.len() % 2 == 0,
            nibbles@.len() <= usize::MAX,
            forall|k: int| 0 <= k < nibbles@.len() ==> #[trigger] nibbles@[k] < 16,
            out@ =~= bytes_of_nibbles(nibbles@.take(2 * j)),
        decreases half - j,
    {
        let hi = nibbles[2 * j];
        let lo = nibbles[2 * j + 1];
        out.push(hi * 16 + lo);
        proof {
            lemma_bytes_of_nibbles_push2(nibbles@.take(2 * j), hi, lo);
            assert(nibbles@.take(2 * (j + 1)) =~= nibbles@.take(2 * j).push(hi).push(lo));
        }
        j = j + 1;
    }
    proof {
        assert(nibbles@.take(2 * half) =~= nibbles@);
        assert(nibbles@ =~= nibble_vals(padded));
    }
    Ok(out)
}

proof fn lemma_hex_char_val(n: u8)
    requires
        n < 16,
    ensures
        is_hex_char(spec_hex_char(n)),
        hex_char_val(spec_hex_char(n)) == n,
{
}

proof fn lemma_decode_pairs(b: Seq<u8>)
    ensures
        bytes_of_nibbles(nibble_vals(hex_chars(b))) =~= b,
    decreases b.len(),
{
    lemma_hex_chars_len(b);
    if b.len() == 0 {
    } else {
        lemma_decode_pairs(b.drop_first());
        lemma_hex_char_val(b[0] / 16);
        lemma_hex_char_val(b[0] % 16);
        let hc = hex_chars(b);
        assert(hc[0] == spec_hex_char(b[0] / 16));
        assert(hc[1] == spec_hex_char(b[0] % 16));
        assert(nibble_vals(hc).skip(2) =~= nibble_vals(hex_chars(b.drop_first())));
        assert(b[0] / 16 * 16 + b[0] % 16 == b[0]);
        assert(bytes_of_nibbles(nibble_vals(hc)) =~= seq![b[0]] + bytes_of_nibbles(
            nibble_vals(hex_chars(b.drop_first())),
        ));
    }
}

/// Round-trip law of the codec: decoding a canonical encoding yields the
/// original byte string, for every byte string.
pub proof fn lemma_hex_round_trip(b: Seq<u8>)
    ensures
        hex_decode_ok(spec_encode(b)),
        spec_decode(spec_encode(b)) =~= b,
{
    let e = spec_encode(b);
    lemma_hex_chars_len(b);
    assert(e[0] == '0' && e[1] == 'x');
    assert(spec_strip(e) =~= hex_chars(b));
    assert forall|i: int| 0 <= i < hex_chars(b).len() implies is_hex_char(
        #[trigger] hex_chars(b)[i],
    ) by {
        lemma_all_hex_chars(b, i);
    }
    assert(spec_pad(hex_chars(b)) =~= hex_chars(b));
    lemma_decode_pairs(b);
}

proof fn lemma_all_hex_chars(b: Seq<u8>, i: int)
    requires
        0 <= i < hex_chars(b).len(),
    ensures
        is_hex_char(hex_chars(b)[i]),
    decreases b.len(),
{
    lemma_hex_chars_len(b);
    if b.len() > 0 {
        lemma_hex_char_val(b[0] / 16);
        lemma_hex_char_val(b[0] % 16);
        if i >= 2 {
            lemma_all_hex_chars(b.drop_first(), i - 2);
        }
    }
}

/// An arbitrary-length big-endian byte string carrying a numeric or opaque
/// hexadecimal blob, such as block numbers, gas values or call data.
#[derive(Debug, PartialEq, Eq)]
pub struct Hex {
    pub bytes: Vec<u8>,
}

impl View for Hex {
    type V = Seq<u8>;

    open spec fn view(&self) -> Seq<u8> {
        self.bytes@
    }
}

impl Hex {
    /// Decodes hexadecimal text into a `Hex` value.
    pub fn from_text(text: &str) -> (r: Result<Hex, CodecError>)
        ensures
            match r {
                Ok(h) => hex_decode_ok(text@) && h@ =~= spec_decode(text@),
                Err(e) => !hex_decode_ok(text@) && e == CodecError::InvalidDigit,
            },
    {
        match decode(text) {
            Ok(v) => Ok(Hex { bytes: v }),
            Err(e) => Err(e),
        }
    }

    /// Renders this value as `0x`-prefixed lowercase hexadecimal text.
    pub fn to_text(&self) -> (r: String)
        ensures
            r@ =~= spec_encode(self@),
    {
        encode(self.bytes.as_slice())
    }

    /// The raw bytes, copied out.
    pub fn to_bytes(&self) -> (r: Vec<u8>)
        ensures
            r@ =~= self@,
    {
        copy_bytes(self.bytes.as_slice())
    }
}

/// The minimal lowercase hexadecimal digits of `n`, most significant first.
pub open spec fn spec_u64_hex_digits(n: nat) -> Seq<char>
    decreases n,
{
    if n < 16 {
        seq![spec_hex_char(n as u8)]
    } else {
        spec_u64_hex_digits(n / 16) + seq![spec_hex_char((n % 16) as u8)]
    }
}

fn u64_hex_digits(n: u64) -> (r: String)
    ensures
        r@ =~= spec_u64_hex_digits(n as nat),
    decreases n,
{
    if n < 16 {
        let mut s = String::new();
        s.append(hex_digit(n as u8));
        s
    } else {
        let mut s = u64_hex_digits(n / 16);
        s.append(hex_digit((n % 16) as u8));
        s
    }
}

/// Renders a number the way the wire protocol wants quantities: `0x` followed
/// by minimal lowercase hexadecimal digits.
pub fn u64_to_hex(n: u64) -> (r: String)
    ensures
        r@ =~= seq!['0', 'x'] + spec_u64_hex_digits(n as nat),
{
    let mut s = String::new();
    s.append("0x");
    proof {
        reveal_strlit("0x");
    }
    let d = u64_hex_digits(n);
    s.append(d.as_str());
    s
}

} // verus!
