use vstd::prelude::*;

verus! {

/// Relies on `String::push`: std documents that it appends the given
/// character to the end of the string.
pub assume_specification[ String::push ](s: &mut String, c: char)
    ensures
        final(s)@ == old(s)@.push(c),
;

/// True when `needle` occurs as a contiguous window of `hay`.
pub open spec fn spec_contains_bytes(hay: Seq<u8>, needle: Seq<u8>) -> bool {
    exists|i: int|
        0 <= i && i + needle.len() <= hay.len() && #[trigger] hay.subrange(
            i,
            i + needle.len() as int,
        ) =~= needle
}

/// Compares two byte strings for equality.
pub fn bytes_eq(a: &[u8], b: &[u8]) -> (r: bool)
    ensures
        r <==> a@ =~= b@,
{
    if a.len() != b.len() {
        return false;
    }
    let mut i: usize = 0;
    while i < a.len()
        invariant
            0 <= i <= a@.len(),
            a@.len() == b@.len(),
            forall|k: int| 0 <= k < i ==> a@[k] == b@[k],
        decreases a@.len() - i,
    {
        if a[i] != b[i] {
            return false;
        }
        i = i + 1;
    }
    true
}

/// Literal byte-window scan: does `needle` occur anywhere inside `hay`?
pub fn contains_bytes(hay: &[u8], needle: &[u8]) -> (r: bool)
    ensures
        r == spec_contains_bytes(hay@, needle@),
{
    if needle.len() > hay.len() {
        assert(!spec_contains_bytes(hay@, needle@));
        return false;
    }
    if needle.len() == 0 {
        assert(hay@.subrange(0, 0 + needle@.len() as int) =~= needle@);
        return true;
    }
    let mut i: usize = 0;
    let last: usize = hay.len() - needle.len();
    while i <= last
        invariant
            0 <= i <= last + 1,
            last == hay@.len() - needle@.len(),
            0 < needle@.len(),
            last < hay@.len(),
            hay@.len() <= usize::MAX,
            forall|k: int|
                0 <= k < i ==> !(#[trigger] hay@.subrange(k, k + needle@.len() as int)
                    =~= needle@),
        decreases last + 1 - i,
    {
        let mut j: usize = 0;
        let mut same: bool = true;
        while j < needle.len()
            invariant
                0 <= j <= needle@.len(),
                0 <= i && i + needle@.len() <= hay@.len(),
                hay@.len() <= usize::MAX,
                same <==> (forall|k: int| 0 <= k < j ==> hay@[i + k] == needle@[k]),
            decreases needle@.len() - j,
        {
            if hay[i + j] != needle[j] {
                same = false;
                j = needle.len();
            } else {
                j = j + 1;
            }
        }
        if same {
            assert(hay@.subrange(i as int, i + needle@.len() as int) =~= needle@);
            return true;
        }
        assert(!(hay@.subrange(i as int, i + needle@.len() as int) =~= needle@));
        i = i + 1;
    }
    assert forall|k: int| 0 <= k && k + needle@.len() <= hay@.len() implies !(#[trigger] hay@
        .subrange(k, k + needle@.len() as int) =~= needle@) by {
        assert(k < i);
    }
    false
}

/// Copies a byte string into a fresh vector.
pub fn copy_bytes(a: &[u8]) -> (r: Vec<u8>)
    ensures
        r@ =~= a@,
{
    let mut out: Vec<u8> = Vec::new();
    let mut i: usize = 0;
    while i < a.len()
        invariant
            0 <= i <= a@.len(),
            out@ =~= a@.take(i as int),
        decreases a@.len() - i,
    {
        out.push(a[i]);
        i = i + 1;
    }
    out
}

} // verus!
