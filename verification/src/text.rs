use vstd::prelude::*;
use vstd::string::StrSliceExecFns;

verus! {

/// Whether two strings hold the same characters.
pub fn text_eq(a: &str, b: &str) -> (r: bool)
    ensures
        r == (a@ == b@),
{
    let n: usize = a.unicode_len();
    let m: usize = b.unicode_len();
    if n != m {
        return false;
    }
    let mut i: usize = 0;
    while i < n
        invariant
            i <= n,
            n == a@.len(),
            n == b@.len(),
            forall|j: int| 0 <= j < i ==> a@[j] == b@[j],
        decreases n - i,
    {
        if a.get_char(i) != b.get_char(i) {
            return false;
        }
        i += 1;
    }
    assert(a@ =~= b@);
    true
}

/// Whether `s` begins with the characters of `prefix`.
pub fn text_starts_with(s: &str, prefix: &str) -> (r: bool)
    ensures
        r == prefix@.is_prefix_of(s@),
{
    let n: usize = prefix.unicode_len();
    let m: usize = s.unicode_len();
    if n > m {
        return false;
    }
    let mut i: usize = 0;
    while i < n
        invariant
            i <= n,
            n <= m,
            n == prefix@.len(),
            m == s@.len(),
            forall|j: int| 0 <= j < i ==> prefix@[j] == s@[j],
        decreases n - i,
    {
        if prefix.get_char(i) != s.get_char(i) {
            assert(s@.subrange(0, n as int)[i as int] == s@[i as int]);
            return false;
        }
        i += 1;
    }
    assert(prefix@ =~= s@.subrange(0, n as int));
    true
}

} // verus!

verus! {

/// `s` with every leading repetition of `prefix` taken off.
pub open spec fn without_prefixes(s: Seq<char>, prefix: Seq<char>) -> Seq<char>
    decreases s.len(),
{
    if prefix.len() > 0 && prefix.is_prefix_of(s) {
        without_prefixes(s.skip(prefix.len() as int), prefix)
    } else {
        s
    }
}

/// `s` with every trailing repetition of the character `c` taken off.
pub open spec fn without_trailing(s: Seq<char>, c: char) -> Seq<char>
    decreases s.len(),
{
    if s.len() > 0 && s.last() == c {
        without_trailing(s.drop_last(), c)
    } else {
        s
    }
}

/// The part of `s` that is left when every leading repetition of `prefix`
/// and then every trailing repetition of `trailing` is taken off.
pub fn text_trimmed<'a>(s: &'a str, prefix: &str, trailing: char) -> (r: &'a str)
    ensures
        r@ == without_trailing(without_prefixes(s@, prefix@), trailing),
{
    let n: usize = s.unicode_len();
    let p: usize = prefix.unicode_len();
    let mut from: usize = 0;
    let mut searching: bool = p > 0;
    proof {
        assert(s@.subrange(0, n as int) =~= s@);
    }
    while searching
        invariant
            from <= n,
            n == s@.len(),
            p == prefix@.len(),
            without_prefixes(s@, prefix@) == without_prefixes(s@.subrange(from as int, n as int), prefix@),
            !searching ==> without_prefixes(s@.subrange(from as int, n as int), prefix@)
                == s@.subrange(from as int, n as int),
            searching ==> p > 0,
        decreases n - from + (if searching { 1int } else { 0int }),
    {
        let rest: &str = s.substring_char(from, n);
        if text_starts_with(rest, prefix) {
            proof {
                assert(rest@.skip(p as int) =~= s@.subrange(from + p, n as int));
            }
            from += p;
        } else {
            searching = false;
        }
    }
    let ghost body = s@.subrange(from as int, n as int);
    let mut to: usize = n;
    let mut shrinking: bool = true;
    while shrinking
        invariant
            from <= to <= n,
            n == s@.len(),
            body == s@.subrange(from as int, n as int),
            without_trailing(body, trailing) == without_trailing(
                s@.subrange(from as int, to as int),
                trailing,
            ),
            !shrinking ==> without_trailing(s@.subrange(from as int, to as int), trailing)
                == s@.subrange(from as int, to as int),
        decreases to - from + (if shrinking { 1int } else { 0int }),
    {
        if to > from && s.get_char(to - 1) == trailing {
            proof {
                assert(s@.subrange(from as int, to as int).drop_last() =~= s@.subrange(
                    from as int,
                    to - 1,
                ));
            }
            to -= 1;
        } else {
            shrinking = false;
        }
    }
    s.substring_char(from, to)
}

} // verus!
