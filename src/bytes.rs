use vstd::prelude::*;

verus! {

/// `pat` occurs in `hay` as a contiguous run of bytes. The empty pattern
/// occurs in every sequence; a pattern longer than `hay` occurs in none.
pub open spec fn occurs_in(pat: Seq<u8>, hay: Seq<u8>) -> bool {
    exists|i: int| 0 <= i && i + pat.len() <= hay.len() && #[trigger] hay.subrange(i, i + pat.len()) == pat
}

/// Whether `pat` matches `hay` at offset `start`, byte for byte.
fn matches_at(hay: &Vec<u8>, pat: &Vec<u8>, start: usize) -> (r: bool)
    requires
        start + pat@.len() <= hay@.len(),
    ensures
        r == (hay@.subrange(start as int, start + pat@.len()) == pat@),
{
    let n: usize = hay.len();
    let mut j: usize = 0;
    while j < pat.len()
        invariant
            start + pat@.len() <= hay@.len(),
            n == hay@.len(),
            j <= pat@.len(),
            forall|k: int| 0 <= k < j ==> hay@[start + k] == pat@[k],
        decreases pat@.len() - j,
    {
        if hay[start + j] != pat[j] {
            assert(hay@.subrange(start as int, start + pat@.len())[j as int] != pat@[j as int]);
            return false;
        }
        j = j + 1;
    }
    assert(hay@.subrange(start as int, start + pat@.len()) =~= pat@);
    true
}

/// Whether two byte vectors hold the same bytes.
pub(crate) fn same_bytes(a: &Vec<u8>, b: &Vec<u8>) -> (r: bool)
    ensures
        r == (a@ == b@),
{
    if a.len() != b.len() {
        return false;
    }
    let r = matches_at(a, b, 0);
    assert(a@.subrange(0, b@.len() as int) =~= a@);
    r
}

/// Byte-exact substring test by a scan over every offset of `hay`.
pub fn contains_pattern(hay: &Vec<u8>, pat: &Vec<u8>) -> (r: bool)
    ensures
        r == occurs_in(pat@, hay@),
{
    if pat.len() > hay.len() {
        return false;
    }
    let last: usize = hay.len() - pat.len();
    let mut i: usize = 0;
    loop
        invariant
            last == hay@.len() - pat@.len(),
            i <= last,
            forall|k: int| 0 <= k < i ==> #[trigger] hay@.subrange(k, k + pat@.len()) != pat@,
        decreases last - i,
    {
        if matches_at(hay, pat, i) {
            return true;
        }
        if i == last {
            return false;
        }
        i = i + 1;
    }
}

} // verus!
