//! File paths as text: the last component and what precedes it.

use vstd::prelude::*;
use vstd::string::*;
use crate::text::{chars_of, copy_range, same_chars};

verus! {

/// Whether `c` separates path components: `/` everywhere, and `\` too where
/// `windows` is set.
pub open spec fn is_separator(c: char, windows: bool) -> bool {
    c == '/' || (windows && c == '\\')
}

/// Index just past the last separator of `s`, or 0 when it has none.
pub open spec fn after_last_separator(s: Seq<char>, windows: bool) -> nat
    decreases s.len(),
{
    if s.len() == 0 || is_separator(s.last(), windows) {
        s.len()
    } else {
        after_last_separator(s.drop_last(), windows)
    }
}

/// The path without what does not count at its end: separators, and `.`
/// behind a separator. A path that is one character long stays as it is, so
/// that a root stays a root.
pub open spec fn stripped(s: Seq<char>, windows: bool) -> Seq<char>
    decreases s.len(),
{
    if s.len() >= 2 && (is_separator(s.last(), windows) || (s.last() == '.' && is_separator(
        s[s.len() - 2],
        windows,
    ))) {
        stripped(s.drop_last(), windows)
    } else {
        s
    }
}

/// Whether the path has no last component: it is empty or ends in a root.
pub open spec fn ends_in_root(s: Seq<char>, windows: bool) -> bool {
    let t = stripped(s, windows);
    t.len() == 0 || after_last_separator(t, windows) == t.len()
}

/// The last component of the path: what follows the last separator, once
/// what does not count at the end is taken off.
pub open spec fn last_component(s: Seq<char>, windows: bool) -> Seq<char> {
    let t = stripped(s, windows);
    t.skip(after_last_separator(t, windows) as int)
}

/// The path without its last component; `None` where it has none. For
/// `a/b`, `a/b/` and `a//b/.` it is `a`; for `/b` it is `/`; for `b` it is
/// empty.
pub open spec fn parent_of(s: Seq<char>, windows: bool) -> Option<Seq<char>> {
    let t = stripped(s, windows);
    if ends_in_root(s, windows) {
        None
    } else {
        Some(stripped(t.take(after_last_separator(t, windows) as int), windows))
    }
}

/// The last component of the path where it names a file: `None` where the
/// path has no last component and where that is `.` or `..`.
pub open spec fn file_name_of(s: Seq<char>, windows: bool) -> Option<Seq<char>> {
    if ends_in_root(s, windows) || last_component(s, windows) == ".."@ || last_component(
        s,
        windows,
    ) == "."@ {
        None
    } else {
        Some(last_component(s, windows))
    }
}

/// The path relative to its own parent: its last component, and the path
/// itself where it has none.
pub open spec fn relative_to_parent(s: Seq<char>, windows: bool) -> Seq<char> {
    if ends_in_root(s, windows) {
        s
    } else {
        last_component(s, windows)
    }
}

/// Any index with the defining property of `after_last_separator` is it.
pub proof fn lemma_after_last_separator_unique(s: Seq<char>, windows: bool, k: int)
    requires
        0 <= k <= s.len(),
        forall|j: int| k <= j < s.len() ==> !is_separator(s[j], windows),
        k > 0 ==> is_separator(s[k - 1], windows),
    ensures
        after_last_separator(s, windows) == k,
    decreases s.len(),
{
    if s.len() == 0 {
    } else if is_separator(s.last(), windows) {
        if k < s.len() {
            assert(!is_separator(s[s.len() - 1], windows));
        }
    } else {
        let t = s.drop_last();
        assert forall|j: int| k <= j < t.len() implies !is_separator(t[j], windows) by {
            assert(t[j] == s[j]);
        }
        if k > 0 {
            assert(t[k - 1] == s[k - 1]);
        }
        lemma_after_last_separator_unique(t, windows, k);
    }
}

/// The character between the entries of a path list: a semicolon where
/// `windows` is set, a colon elsewhere.
pub fn classpath_separator(windows: bool) -> (separator: char)
    ensures
        separator == (if windows {
            ';'
        } else {
            ':'
        }),
{
    if windows {
        ';'
    } else {
        ':'
    }
}

/// Whether `c` separates path components.
pub fn is_separator_char(c: char, windows: bool) -> (r: bool)
    ensures
        r == is_separator(c, windows),
{
    c == '/' || (windows && c == '\\')
}

/// Index just past the last separator of `v`, or 0.
pub fn after_last_separator_in(v: &[char], windows: bool) -> (k: usize)
    ensures
        k == after_last_separator(v@, windows),
        k <= v.len(),
{
    let mut i: usize = v.len();
    while i > 0
        invariant
            i <= v.len(),
            forall|j: int| i <= j < v.len() ==> !is_separator(v@[j], windows),
        decreases i,
    {
        if is_separator_char(v[i - 1], windows) {
            proof {
                lemma_after_last_separator_unique(v@, windows, i as int);
            }
            return i;
        }
        i -= 1;
    }
    proof {
        lemma_after_last_separator_unique(v@, windows, 0);
    }
    0
}

/// How much of `v` is left once what does not count at its end is taken
/// off.
pub fn stripped_len(v: &[char], windows: bool) -> (n: usize)
    ensures
        n <= v.len(),
        v@.take(n as int) == stripped(v@, windows),
{
    let mut n: usize = v.len();
    proof {
        assert(v@.take(n as int) =~= v@);
    }
    while n >= 2 && (is_separator_char(v[n - 1], windows) || (v[n - 1] == '.'
        && is_separator_char(v[n - 2], windows)))
        invariant
            n <= v.len(),
            stripped(v@, windows) == stripped(v@.take(n as int), windows),
        decreases n,
    {
        proof {
            assert(v@.take(n as int).drop_last() =~= v@.take(n - 1));
        }
        n -= 1;
    }
    n
}

/// The stripped path and where its last component begins.
fn last_component_of(v: &[char], windows: bool) -> (r: (Vec<char>, usize))
    ensures
        r.0@ == stripped(v@, windows),
        r.1 == after_last_separator(r.0@, windows),
        r.1 <= r.0.len(),
{
    let n = stripped_len(v, windows);
    let t = copy_range(v, 0, n);
    proof {
        assert(v@.subrange(0, n as int) =~= v@.take(n as int));
    }
    let k = after_last_separator_in(t.as_slice(), windows);
    (t, k)
}

/// The path without its last component, where it has one.
pub fn parent_of_path(v: &[char], windows: bool) -> (r: Option<Vec<char>>)
    ensures
        match parent_of(v@, windows) {
            Some(parent) => r matches Some(found) && found@ == parent,
            None => r is None,
        },
{
    let (t, k) = last_component_of(v, windows);
    if t.len() == 0 || k == t.len() {
        return None;
    }
    let head = copy_range(t.as_slice(), 0, k);
    let n = stripped_len(head.as_slice(), windows);
    let parent = copy_range(head.as_slice(), 0, n);
    proof {
        assert(t@.subrange(0, k as int) =~= t@.take(k as int));
        assert(head@.subrange(0, n as int) =~= head@.take(n as int));
    }
    Some(parent)
}

/// The last component of the path, where it names a file.
pub fn file_name_of_path(v: &[char], windows: bool) -> (r: Option<Vec<char>>)
    ensures
        match file_name_of(v@, windows) {
            Some(name) => r matches Some(found) && found@ == name,
            None => r is None,
        },
{
    let (t, k) = last_component_of(v, windows);
    if t.len() == 0 || k == t.len() {
        return None;
    }
    let name = copy_range(t.as_slice(), k, t.len());
    proof {
        assert(t@.subrange(k as int, t.len() as int) =~= t@.skip(k as int));
    }
    let up = chars_of("..");
    let here = chars_of(".");
    if same_chars(name.as_slice(), up.as_slice()) || same_chars(name.as_slice(), here.as_slice()) {
        None
    } else {
        Some(name)
    }
}

/// The path relative to its own parent.
pub fn relative_to_parent_of(v: &[char], windows: bool) -> (r: Vec<char>)
    ensures
        r@ == relative_to_parent(v@, windows),
{
    let (t, k) = last_component_of(v, windows);
    if t.len() == 0 || k == t.len() {
        let whole = copy_range(v, 0, v.len());
        proof {
            assert(v@.subrange(0, v.len() as int) =~= v@);
        }
        return whole;
    }
    let name = copy_range(t.as_slice(), k, t.len());
    proof {
        assert(t@.subrange(k as int, t.len() as int) =~= t@.skip(k as int));
    }
    name
}

} // verus!
