//! File-name handling: the extension of a path and its replacement.

use vstd::prelude::*;

verus! {

/// Index of the last occurrence of `c` in `s`, or -1 where there is none.
pub open spec fn last_pos(s: Seq<char>, c: char) -> int
    decreases s.len(),
{
    if s.len() == 0 {
        -1
    } else if s.last() == c {
        s.len() - 1
    } else {
        last_pos(s.drop_last(), c)
    }
}

/// The last `/`-separated segment of a path.
pub open spec fn file_name(p: Seq<char>) -> Seq<char> {
    p.subrange(last_pos(p, '/') + 1, p.len() as int)
}

/// Index in `p` of the dot that starts the extension, if the file name has
/// one: the last dot of the file name, unless it is the name's first
/// character (a hidden file such as `.profile` has no extension).
pub open spec fn extension_dot(p: Seq<char>) -> Option<int> {
    let start = last_pos(p, '/') + 1;
    let d = last_pos(file_name(p), '.');
    if d > 0 {
        Some(start + d)
    } else {
        None
    }
}

/// The extension of a path: what follows the dot of `extension_dot`.
pub open spec fn extension_of(p: Seq<char>) -> Option<Seq<char>> {
    match extension_dot(p) {
        Some(d) => Some(p.subrange(d + 1, p.len() as int)),
        None => None,
    }
}

proof fn lemma_last_pos_bounds(s: Seq<char>, c: char)
    ensures
        -1 <= last_pos(s, c) < s.len(),
        last_pos(s, c) >= 0 ==> s[last_pos(s, c)] == c,
        forall|i: int| last_pos(s, c) < i < s.len() ==> s[i] != c,
    decreases s.len(),
{
    if s.len() > 0 && s.last() != c {
        lemma_last_pos_bounds(s.drop_last(), c);
        assert forall|i: int| last_pos(s, c) < i < s.len() implies s[i] != c by {
            if i < s.len() - 1 {
                assert(s.drop_last()[i] == s[i]);
            }
        }
    }
}

/// Index of the last `c` in `s`, counted in characters.
fn last_index_of(s: &str, c: char) -> (r: Option<usize>)
    ensures
        match r {
            Some(k) => k as int == last_pos(s@, c),
            None => last_pos(s@, c) == -1,
        },
{
    let n = s.unicode_len();
    let mut i: usize = n;
    assert(s@.subrange(0, n as int) =~= s@);
    while i > 0
        invariant
            i <= n == s@.len(),
            last_pos(s@, c) == last_pos(s@.subrange(0, i as int), c),
        decreases i,
    {
        let ch = s.get_char(i - 1);
        let ghost pre = s@.subrange(0, i as int);
        assert(pre.drop_last() =~= s@.subrange(0, i - 1));
        if ch == c {
            return Some(i - 1);
        }
        i = i - 1;
    }
    assert(s@.subrange(0, 0) =~= Seq::<char>::empty());
    None
}

/// Whether two strings hold the same characters.
pub fn same_text(a: &str, b: &str) -> (r: bool)
    ensures
        r == (a@ == b@),
{
    let n = a.unicode_len();
    let m = b.unicode_len();
    if n != m {
        return false;
    }
    let mut i: usize = 0;
    while i < n
        invariant
            i <= n == a@.len() == b@.len(),
            a@.subrange(0, i as int) == b@.subrange(0, i as int),
        decreases n - i,
    {
        if a.get_char(i) != b.get_char(i) {
            return false;
        }
        assert(a@.subrange(0, i + 1) =~= a@.subrange(0, i as int).push(a@[i as int]));
        assert(b@.subrange(0, i + 1) =~= b@.subrange(0, i as int).push(b@[i as int]));
        i = i + 1;
    }
    assert(a@ =~= a@.subrange(0, n as int));
    assert(b@ =~= b@.subrange(0, n as int));
    true
}

/// Position of the extension dot of `p`, as `extension_dot` gives it.
pub fn find_extension_dot(p: &str) -> (r: Option<usize>)
    ensures
        match r {
            Some(d) => extension_dot(p@) == Some(d as int) && d < p@.len(),
            None => extension_dot(p@) is None,
        },
{
    proof {
        lemma_last_pos_bounds(p@, '/');
    }
    let n = p.unicode_len();
    let start: usize = match last_index_of(p, '/') {
        Some(k) => k + 1,
        None => 0,
    };
    let name = p.substring_char(start, n);
    assert(name@ == file_name(p@));
    proof {
        lemma_last_pos_bounds(name@, '.');
    }
    match last_index_of(name, '.') {
        Some(d) => {
            if d > 0 {
                Some(start + d)
            } else {
                None
            }
        },
        None => None,
    }
}

/// The extension of `p` (without its dot), if it has one.
pub fn extension(p: &str) -> (r: Option<String>)
    ensures
        match r {
            Some(e) => extension_of(p@) == Some(e@),
            None => extension_of(p@) is None,
        },
{
    match find_extension_dot(p) {
        Some(d) => {
            let n = p.unicode_len();
            Some(p.substring_char(d + 1, n).to_owned())
        },
        None => None,
    }
}

} // verus!
