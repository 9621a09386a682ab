use vstd::prelude::*;
use vstd::string::StrSliceExecFns;

verus! {

/// The characters that count as white space around a URL's scheme: those
/// with Unicode's White_Space property.
pub open spec fn is_white(c: char) -> bool {
    let n = c as u32;
    (9 <= n <= 13) || n == 32 || n == 0x85 || n == 0xA0 || n == 0x1680 || (0x2000 <= n <= 0x200A)
        || n == 0x2028 || n == 0x2029 || n == 0x202F || n == 0x205F || n == 0x3000
}

pub open spec fn trim_start_chars(s: Seq<char>) -> Seq<char>
    decreases s.len(),
{
    if s.len() > 0 && is_white(s[0]) {
        trim_start_chars(s.drop_first())
    } else {
        s
    }
}

pub open spec fn trim_end_chars(s: Seq<char>) -> Seq<char>
    decreases s.len(),
{
    if s.len() > 0 && is_white(s.last()) {
        trim_end_chars(s.drop_last())
    } else {
        s
    }
}

/// `s` without white space at either end.
pub open spec fn trim_chars(s: Seq<char>) -> Seq<char> {
    trim_end_chars(trim_start_chars(s))
}

/// The position of the first `c` in `s`, or the length of `s` when there is none.
pub open spec fn find_char(s: Seq<char>, c: char) -> int
    decreases s.len(),
{
    if s.len() == 0 {
        0
    } else if s[0] == c {
        0
    } else {
        1 + find_char(s.drop_first(), c)
    }
}

/// What stands before the first `sep` in `s` (all of `s` without one),
/// white space around it aside.
pub open spec fn lead_before(s: Seq<char>, sep: char) -> Seq<char> {
    trim_chars(s.subrange(0, find_char(s, sep)))
}

proof fn lemma_find_char(s: Seq<char>, c: char, k: int)
    requires
        0 <= k <= s.len(),
        k < s.len() ==> s[k] == c,
        forall|j: int| 0 <= j < k ==> s[j] != c,
    ensures
        find_char(s, c) == k,
    decreases k,
{
    if k > 0 {
        let t = s.drop_first();
        assert forall|j: int| 0 <= j < k - 1 implies t[j] != c by {
            assert(t[j] == s[j + 1]);
        }
        lemma_find_char(t, c, k - 1);
    }
}

fn is_white_char(c: char) -> (r: bool)
    ensures
        r == is_white(c),
{
    let n = c as u32;
    (9 <= n && n <= 13) || n == 32 || n == 0x85 || n == 0xA0 || n == 0x1680 || (0x2000 <= n && n
        <= 0x200A) || n == 0x2028 || n == 0x2029 || n == 0x202F || n == 0x205F || n == 0x3000
}

/// The characters of `s`.
pub fn chars_of(s: &str) -> (r: Vec<char>)
    ensures
        r@ == s@,
{
    let n = s.unicode_len();
    let mut v: Vec<char> = Vec::new();
    let mut i: usize = 0;
    while i < n
        invariant
            n == s@.len(),
            i <= n,
            v@ =~= s@.subrange(0, i as int),
        decreases n - i,
    {
        v.push(s.get_char(i));
        i = i + 1;
    }
    v
}

/// What stands before the first `sep` in `s`, white space around it aside.
pub fn lead(s: &Vec<char>, sep: char) -> (r: Vec<char>)
    ensures
        r@ == lead_before(s@, sep),
{
    let mut k: usize = 0;
    while k < s.len() && s[k] != sep
        invariant
            k <= s@.len(),
            forall|j: int| 0 <= j < k ==> s@[j] != sep,
        decreases s.len() - k,
    {
        k = k + 1;
    }
    proof {
        lemma_find_char(s@, sep, k as int);
    }
    let ghost front = s@.subrange(0, k as int);
    let mut lo: usize = 0;
    assert(front.subrange(0, k as int) =~= front);
    while lo < k && is_white_char(s[lo])
        invariant
            lo <= k <= s@.len(),
            front == s@.subrange(0, k as int),
            trim_start_chars(front) == trim_start_chars(s@.subrange(lo as int, k as int)),
        decreases k - lo,
    {
        let ghost rest = s@.subrange(lo as int, k as int);
        assert(rest.drop_first() =~= s@.subrange(lo + 1, k as int));
        lo = lo + 1;
    }
    let mut hi: usize = k;
    while hi > lo && is_white_char(s[hi - 1])
        invariant
            lo <= hi <= k <= s@.len(),
            front == s@.subrange(0, k as int),
            trim_chars(front) == trim_end_chars(s@.subrange(lo as int, hi as int)),
        decreases hi,
    {
        let ghost cur = s@.subrange(lo as int, hi as int);
        assert(cur.drop_last() =~= s@.subrange(lo as int, hi - 1));
        hi = hi - 1;
    }
    let mut r: Vec<char> = Vec::new();
    let mut i: usize = lo;
    while i < hi
        invariant
            lo <= i <= hi <= s@.len(),
            r@ =~= s@.subrange(lo as int, i as int),
        decreases hi - i,
    {
        r.push(s[i]);
        i = i + 1;
    }
    r
}

/// Whether two character strings are the same.
pub fn same_chars(a: &Vec<char>, b: &Vec<char>) -> (r: bool)
    ensures
        r == (a@ == b@),
{
    if a.len() != b.len() {
        return false;
    }
    let mut i: usize = 0;
    while i < a.len()
        invariant
            a@.len() == b@.len(),
            i <= a@.len(),
            forall|j: int| 0 <= j < i ==> a@[j] == b@[j],
        decreases a.len() - i,
    {
        if a[i] != b[i] {
            return false;
        }
        i = i + 1;
    }
    assert(a@ =~= b@);
    true
}

} // verus!
