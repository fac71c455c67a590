use vstd::prelude::*;

verus! {

broadcast use vstd::string::group_string_axioms;

/// Unicode `White_Space` (PropList.txt): the characters that `str::trim` removes.
pub open spec fn is_white_space(c: char) -> bool {
    let u: u32 = c as u32;
    ||| 0x09 <= u <= 0x0d
    ||| u == 0x20
    ||| u == 0x85
    ||| u == 0xa0
    ||| u == 0x1680
    ||| 0x2000 <= u <= 0x200a
    ||| u == 0x2028
    ||| u == 0x2029
    ||| u == 0x202f
    ||| u == 0x205f
    ||| u == 0x3000
}

/// Nothing is left of `s` once surrounding white space is trimmed.
pub open spec fn is_blank(s: Seq<char>) -> bool {
    forall|i: int| 0 <= i < s.len() ==> is_white_space(#[trigger] s[i])
}

/// The code of `c` after mapping `A`..=`Z` to `a`..=`z`; other characters keep theirs.
pub open spec fn ascii_fold(c: char) -> u32 {
    let u: u32 = c as u32;
    if 65 <= u <= 90 {
        (u + 32) as u32
    } else {
        u
    }
}

/// `a` and `b` are equal once ASCII letters are compared without regard to case.
pub open spec fn eq_ignore_ascii_case(a: Seq<char>, b: Seq<char>) -> bool {
    &&& a.len() == b.len()
    &&& forall|i: int| 0 <= i < a.len() ==> ascii_fold(#[trigger] a[i]) == ascii_fold(b[i])
}

/// `s` begins with `prefix`, ASCII letters compared without regard to case.
pub open spec fn starts_with_ignore_ascii_case(s: Seq<char>, prefix: Seq<char>) -> bool {
    &&& prefix.len() <= s.len()
    &&& eq_ignore_ascii_case(s.take(prefix.len() as int), prefix)
}

/// Whether `c` is Unicode white space.
pub fn white_space(c: char) -> (r: bool)
    ensures
        r == is_white_space(c),
{
    let u: u32 = c as u32;
    (0x09 <= u && u <= 0x0d) || u == 0x20 || u == 0x85 || u == 0xa0 || u == 0x1680 || (0x2000
        <= u && u <= 0x200a) || u == 0x2028 || u == 0x2029 || u == 0x202f || u == 0x205f || u
        == 0x3000
}

/// The characters of `s`, in order.
pub fn chars_of(s: &str) -> (r: Vec<char>)
    ensures
        r@ == s@,
{
    let mut out: Vec<char> = Vec::new();
    for c in it: s.chars()
        invariant
            out@ == it.seq().take(it.index() as int),
            it.seq() == s@,
    {
        out.push(c);
    }
    out
}

/// Whether every character of `chars[lo..hi]` is white space.
pub fn all_white_space(chars: &Vec<char>, lo: usize, hi: usize) -> (r: bool)
    requires
        lo <= hi <= chars@.len(),
    ensures
        r == is_blank(chars@.subrange(lo as int, hi as int)),
{
    let mut i: usize = lo;
    while i < hi
        invariant
            lo <= i <= hi <= chars@.len(),
            is_blank(chars@.subrange(lo as int, i as int)),
        decreases hi - i,
    {
        if !white_space(chars[i]) {
            assert(chars@.subrange(lo as int, hi as int)[i - lo] == chars@[i as int]);
            return false;
        }
        i += 1;
        assert forall|k: int| 0 <= k < i - lo implies is_white_space(
            #[trigger] chars@.subrange(lo as int, i as int)[k],
        ) by {
            if k < i - 1 - lo {
                assert(chars@.subrange(lo as int, (i - 1) as int)[k] == chars@[lo + k]);
            }
        }
    }
    true
}

/// The code of `c` with ASCII upper-case letters mapped to lower case.
pub fn fold_ascii(c: char) -> (r: u32)
    ensures
        r == ascii_fold(c),
{
    let u: u32 = c as u32;
    if 65 <= u && u <= 90 {
        u + 32
    } else {
        u
    }
}

/// Whether `chars[lo..hi]` begins with `prefix`, ASCII letters compared without
/// regard to case.
pub fn starts_with_ignore_case_at(chars: &Vec<char>, lo: usize, hi: usize, prefix: &[char]) -> (r:
    bool)
    requires
        lo <= hi <= chars@.len(),
    ensures
        r == starts_with_ignore_ascii_case(chars@.subrange(lo as int, hi as int), prefix@),
{
    let ghost s = chars@.subrange(lo as int, hi as int);
    let n: usize = prefix.len();
    if hi - lo < n {
        return false;
    }
    let mut k: usize = 0;
    while k < n
        invariant
            lo <= hi <= chars@.len(),
            s == chars@.subrange(lo as int, hi as int),
            n == prefix@.len(),
            n <= hi - lo,
            k <= n,
            forall|j: int| 0 <= j < k ==> ascii_fold(#[trigger] s[j]) == ascii_fold(prefix@[j]),
        decreases n - k,
    {
        if fold_ascii(chars[lo + k]) != fold_ascii(prefix[k]) {
            assert(s.take(n as int)[k as int] == s[k as int]);
            return false;
        }
        assert(s[k as int] == chars@[lo + k]);
        k += 1;
    }
    assert forall|j: int| 0 <= j < n implies ascii_fold(#[trigger] s.take(n as int)[j]) == ascii_fold(
        prefix@[j],
    ) by {
        assert(s.take(n as int)[j] == s[j]);
    }
    true
}

/// The first position of `c` in `chars`, if any.
pub fn find_char(chars: &Vec<char>, c: char) -> (r: Option<usize>)
    ensures
        match r {
            Some(i) => chars@.index_of_first(c) == Some(i as int),
            None => chars@.index_of_first(c) is None,
        },
{
    proof {
        chars@.index_of_first_ensures(c);
    }
    let mut i: usize = 0;
    while i < chars.len()
        invariant
            i <= chars@.len(),
            forall|j: int| 0 <= j < i ==> chars@[j] != c,
        decreases chars@.len() - i,
    {
        if chars[i] == c {
            proof {
                chars@.index_of_first_ensures(c);
                assert(chars@.contains(c));
                let k: int = chars@.index_of_first(c)->0;
                assert(chars@[k] == c);
                assert(chars@[i as int] == c);
            }
            return Some(i);
        }
        i += 1;
    }
    None
}

} // verus!
