//! Simplification of fully-qualified test and class names.
//!
//! Test producers often report names like `org.example.pkg.Foo`; for a
//! compact summary only the part after the last `.` is shown. A name
//! that holds a space is treated as a descriptive sentence, not a
//! qualified identifier, and is kept whole, as is a degenerate name
//! that ends in the separator.

use vstd::prelude::*;
use vstd::string::StrSliceExecFns;

verus! {

/// True when some character of `s` equals `c`.
pub open spec fn has_char(s: Seq<char>, c: char) -> bool {
    exists|k: int| 0 <= k < s.len() && s[k] == c
}

/// `i` is the position of the last occurrence of `c` in `s`.
pub open spec fn is_last_index_of(s: Seq<char>, c: char, i: int) -> bool {
    &&& 0 <= i < s.len()
    &&& s[i] == c
    &&& forall|k: int| i < k < s.len() ==> s[k] != c
}

/// What name simplification returns: the input itself when it has no
/// `.` separator, when it holds a space, or when it ends in the
/// separator; otherwise the part after the last `.`.
pub open spec fn simplified(s: Seq<char>) -> Seq<char> {
    if !has_char(s, '.') || has_char(s, ' ') {
        s
    } else {
        let i = choose|i: int| is_last_index_of(s, '.', i);
        if i == s.len() - 1 {
            s
        } else {
            s.subrange(i + 1, s.len() as int)
        }
    }
}

/// A sequence with an occurrence of `c` has a last occurrence.
pub proof fn lemma_last_index_exists(s: Seq<char>, c: char)
    requires
        has_char(s, c),
    ensures
        exists|i: int| is_last_index_of(s, c, i),
    decreases s.len(),
{
    if s[s.len() - 1] == c {
        assert(is_last_index_of(s, c, s.len() - 1));
    } else {
        let w = choose|k: int| 0 <= k < s.len() && s[k] == c;
        assert(s.drop_last()[w] == c);
        assert(has_char(s.drop_last(), c));
        lemma_last_index_exists(s.drop_last(), c);
        let i = choose|i: int| is_last_index_of(s.drop_last(), c, i);
        assert(s[i] == c);
        assert forall|k: int| i < k < s.len() implies s[k] != c by {
            if k < s.len() - 1 {
                assert(s.drop_last()[k] != c);
            }
        }
        assert(is_last_index_of(s, c, i));
    }
}

/// The last occurrence of a character is unique.
pub proof fn lemma_last_index_unique(s: Seq<char>, c: char, i: int, j: int)
    requires
        is_last_index_of(s, c, i),
        is_last_index_of(s, c, j),
    ensures
        i == j,
{
    if i < j {
        assert(s[j] != c);
    }
    if j < i {
        assert(s[i] != c);
    }
}

/// Removes the package prefix from a fully-qualified class name.
/// A name without a separator, a name holding a space, and a name
/// ending in the separator are returned unchanged.
pub fn omit_java_package(name: &str) -> (r: &str)
    ensures
        r@ == simplified(name@),
{
    let len: usize = name.unicode_len();
    let mut i: usize = 0;
    let mut has_space: bool = false;
    let mut seen_dot: bool = false;
    let mut last_dot: usize = 0;
    while i < len
        invariant
            i <= len,
            len == name@.len(),
            has_space <==> exists|k: int| 0 <= k < i && name@[k] == ' ',
            seen_dot <==> exists|k: int| 0 <= k < i && name@[k] == '.',
            seen_dot ==> last_dot < i && name@[last_dot as int] == '.' && (forall|k: int|
                last_dot < k < i ==> name@[k] != '.'),
        decreases len - i,
    {
        let c = name.get_char(i);
        if c == '.' {
            last_dot = i;
            seen_dot = true;
        }
        if c == ' ' {
            has_space = true;
        }
        i += 1;
    }
    if !seen_dot || has_space {
        return name;
    }
    proof {
        assert(is_last_index_of(name@, '.', last_dot as int));
        let w = choose|w: int| is_last_index_of(name@, '.', w);
        lemma_last_index_unique(name@, '.', last_dot as int, w);
    }
    if last_dot == len - 1 {
        name
    } else {
        name.substring_char(last_dot + 1, len)
    }
}

/// Name simplification is idempotent: a name simplified once is left
/// unchanged by a second simplification.
pub proof fn lemma_simplified_idempotent(s: Seq<char>)
    ensures
        simplified(simplified(s)) == simplified(s),
{
    if has_char(s, '.') && !has_char(s, ' ') {
        lemma_last_index_exists(s, '.');
        let i = choose|i: int| is_last_index_of(s, '.', i);
        if i < s.len() - 1 {
            let t = s.subrange(i + 1, s.len() as int);
            assert forall|k: int| 0 <= k < t.len() implies t[k] != '.' by {
                assert(t[k] == s[i + 1 + k]);
            }
            assert(!has_char(t, '.'));
            assert(simplified(t) == t);
        }
    }
}

/// A name that holds a space is never simplified, whatever separators
/// it also holds.
pub proof fn lemma_simplified_keeps_spaced(s: Seq<char>)
    requires
        has_char(s, ' '),
    ensures
        simplified(s) == s,
{
}

} // verus!
