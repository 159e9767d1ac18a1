use vstd::prelude::*;

verus! {

/// The character for one decimal digit.
pub open spec fn spec_dec_char(n: u8) -> char
    recommends
        n < 10,
{
    if n == 0 { '0' } else if n == 1 { '1' } else if n == 2 { '2' } else if n == 3 { '3' }
    else if n == 4 { '4' } else if n == 5 { '5' } else if n == 6 { '6' } else if n == 7 { '7' }
    else if n == 8 { '8' } else { '9' }
}

/// Is this character a decimal digit?
pub open spec fn is_dec_char(c: char) -> bool {
    '0' <= c && c <= '9'
}

/// The numeric value of a decimal digit character.
pub open spec fn dec_char_val(c: char) -> u8
    recommends
        is_dec_char(c),
{
    ((c as u8) - ('0' as u8)) as u8
}

/// The minimal decimal digits of `n`, most significant first.
pub open spec fn spec_u64_dec(n: nat) -> Seq<char>
    decreases n,
{
    if n < 10 {
        seq![spec_dec_char(n as u8)]
    } else {
        spec_u64_dec(n / 10) + seq![spec_dec_char((n % 10) as u8)]
    }
}

/// Every character of `s` is a decimal digit.
pub open spec fn all_dec(s: Seq<char>) -> bool {
    forall|i: int| 0 <= i < s.len() ==> is_dec_char(#[trigger] s[i])
}

/// The number written by a run of decimal digit characters, most significant first.
pub open spec fn dec_val(s: Seq<char>) -> nat
    recommends
        all_dec(s),
    decreases s.len(),
{
    if s.len() == 0 {
        0
    } else {
        (dec_val(s.drop_last()) * 10 + dec_char_val(s.last())) as nat
    }
}

/// The decimal digit for `n`, as a one-character string slice.
pub fn dec_digit(n: u8) -> (r: &'static str)
    requires
        n < 10,
    ensures
        r@ =~= seq![spec_dec_char(n)],
{
    proof {
        reveal_strlit("0"); reveal_strlit("1"); reveal_strlit("2"); reveal_strlit("3");
        reveal_strlit("4"); reveal_strlit("5"); reveal_strlit("6"); reveal_strlit("7");
        reveal_strlit("8"); reveal_strlit("9");
    }
    if n == 0 { "0" } else if n == 1 { "1" } else if n == 2 { "2" } else if n == 3 { "3" }
    else if n == 4 { "4" } else if n == 5 { "5" } else if n == 6 { "6" } else if n == 7 { "7" }
    else if n == 8 { "8" } else { "9" }
}

/// Renders a number as minimal decimal digits.
pub fn u64_to_dec(n: u64) -> (r: String)
    ensures
        r@ =~= spec_u64_dec(n as nat),
    decreases n,
{
    if n < 10 {
        let mut s = String::new();
        s.append(dec_digit(n as u8));
        s
    } else {
        let mut s = u64_to_dec(n / 10);
        s.append(dec_digit((n % 10) as u8));
        s
    }
}

proof fn lemma_dec_val_grows(s: Seq<char>, k: int)
    requires
        0 <= k <= s.len(),
    ensures
        dec_val(s) >= dec_val(s.take(k)),
    decreases s.len() - k,
{
    if k == s.len() {
        assert(s.take(k) =~= s);
    } else {
        lemma_dec_val_grows(s, k + 1);
        assert(s.take(k + 1).drop_last() =~= s.take(k));
        assert(dec_val(s.take(k + 1)) == dec_val(s.take(k)) * 10 + dec_char_val(s.take(k + 1).last()));
    }
}

/// Parses a run of decimal digits into a number.  Succeeds exactly on nonempty
/// all-digit text whose value fits in a `u64`.
pub fn parse_u64(text: &str) -> (r: Option<u64>)
    ensures
        r is Some <==> text@.len() > 0 && all_dec(text@) && dec_val(text@) <= u64::MAX,
        r is Some ==> r->Some_0 == dec_val(text@),
{
    let n = text.unicode_len();
    if n == 0 {
        return None;
    }
    let mut acc: u128 = 0;
    let mut i: usize = 0;
    while i < n
        invariant
            0 <= i <= n,
            n == text@.len(),
            forall|k: int| 0 <= k < i ==> is_dec_char(#[trigger] text@[k]),
            acc == dec_val(text@.take(i as int)),
            acc <= u64::MAX,
        decreases n - i,
    {
        let c = text.get_char(i);
        let u = c as u32;
        if !(48 <= u && u <= 57) {
            assert(!is_dec_char(text@[i as int]));
            return None;
        }
        let d: u128 = (u - 48) as u128;
        acc = acc * 10 + d;
        proof {
            assert(text@.take(i + 1).drop_last() =~= text@.take(i as int));
            assert(text@.take(i + 1).last() == text@[i as int]);
            assert(dec_char_val(text@[i as int]) == d);
        }
        if acc > u64::MAX as u128 {
            proof {
                lemma_dec_val_grows(text@, i + 1);
            }
            return None;
        }
        i = i + 1;
    }
    proof {
        assert(text@.take(n as int) =~= text@);
    }
    Some(acc as u64)
}

/// Parses decimal text into a `u32`; same success condition, at `u32` range.
pub fn parse_u32(text: &str) -> (r: Option<u32>)
    ensures
        r is Some <==> text@.len() > 0 && all_dec(text@) && dec_val(text@) <= u32::MAX,
        r is Some ==> r->Some_0 == dec_val(text@),
{
    match parse_u64(text) {
        None => None,
        Some(v) => {
            if v <= u32::MAX as u64 {
                Some(v as u32)
            } else {
                None
            }
        },
    }
}

/// The number a big-endian byte string stands for.
pub open spec fn be_val(b: Seq<u8>) -> nat
    decreases b.len(),
{
    if b.len() == 0 {
        0
    } else {
        (be_val(b.drop_last()) * 256 + b.last()) as nat
    }
}

proof fn lemma_be_val_grows(b: Seq<u8>, k: int)
    requires
        0 <= k <= b.len(),
    ensures
        be_val(b) >= be_val(b.take(k)),
    decreases b.len() - k,
{
    if k == b.len() {
        assert(b.take(k) =~= b);
    } else {
        lemma_be_val_grows(b, k + 1);
        assert(b.take(k + 1).drop_last() =~= b.take(k));
        assert(be_val(b.take(k + 1)) == be_val(b.take(k)) * 256 + b.take(k + 1).last());
    }
}

/// Reads a big-endian byte string as a `u64`.  Succeeds exactly when the value
/// fits; leading zero bytes are fine.
pub fn be_bytes_to_u64(b: &[u8]) -> (r: Option<u64>)
    ensures
        r is Some <==> be_val(b@) <= u64::MAX,
        r is Some ==> r->Some_0 == be_val(b@),
{
    let mut acc: u128 = 0;
    let mut i: usize = 0;
    let n = b.len();
    while i < n
        invariant
            0 <= i <= n,
            n == b@.len(),
            acc == be_val(b@.take(i as int)),
            acc <= u64::MAX,
        decreases n - i,
    {
        acc = acc * 256 + b[i] as u128;
        proof {
            assert(b@.take(i + 1).drop_last() =~= b@.take(i as int));
            assert(b@.take(i + 1).last() == b@[i as int]);
        }
        if acc > u64::MAX as u128 {
            proof {
                lemma_be_val_grows(b@, i + 1);
            }
            return None;
        }
        i = i + 1;
    }
    proof {
        assert(b@.take(n as int) =~= b@);
    }
    Some(acc as u64)
}

} // verus!
