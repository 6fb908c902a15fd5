//! A plain model of '/'-separated file paths.
//!
//! The launcher only ever reads three things from a path: its final
//! component, that component's stem and extension, and its parent directory.
//! Paths are modelled as character sequences; the final component is what
//! follows the last separator, its extension is what follows the last '.'
//! (none when the component has no '.', or starts with its only '.'), and
//! the parent is what precedes the last separator.

use vstd::prelude::*;
use vstd::string::StrSliceExecFns;

verus! {

/// The index of the last occurrence of `c` in `s`, if any.
pub open spec fn last_index_of_char(s: Seq<char>, c: char) -> Option<int>
    decreases s.len(),
{
    if s.len() == 0 {
        None
    } else if s[s.len() - 1] == c {
        Some(s.len() - 1)
    } else {
        last_index_of_char(s.drop_last(), c)
    }
}

/// `last_index_of_char` finds an occurrence with nothing equal after it,
/// and reports none only when there is none.
pub proof fn lemma_last_index_of_char(s: Seq<char>, c: char)
    ensures
        match last_index_of_char(s, c) {
            Some(i) => 0 <= i < s.len() && s[i] == c && forall|k: int|
                i < k < s.len() ==> s[k] != c,
            None => forall|k: int| 0 <= k < s.len() ==> s[k] != c,
        },
    decreases s.len(),
{
    if s.len() > 0 && s[s.len() - 1] != c {
        lemma_last_index_of_char(s.drop_last(), c);
        assert forall|k: int| 0 <= k < s.len() - 1 implies s.drop_last()[k] == s[k] by {}
    }
}

/// An occurrence with nothing equal after it is the last occurrence.
pub proof fn lemma_last_index_of_char_witness(s: Seq<char>, c: char, i: int)
    requires
        0 <= i < s.len(),
        s[i] == c,
        forall|k: int| i < k < s.len() ==> s[k] != c,
    ensures
        last_index_of_char(s, c) == Some(i),
{
    lemma_last_index_of_char(s, c);
    match last_index_of_char(s, c) {
        Some(j) => {
            if j < i {
                assert(s[i] != c);
            } else if j > i {
                assert(s[j] != c);
            }
        },
        None => {
            assert(s[i] != c);
        },
    }
}

/// When no occurrence exists, `last_index_of_char` reports none.
pub proof fn lemma_last_index_of_char_absent(s: Seq<char>, c: char)
    requires
        forall|k: int| 0 <= k < s.len() ==> s[k] != c,
    ensures
        last_index_of_char(s, c) is None,
{
    lemma_last_index_of_char(s, c);
    match last_index_of_char(s, c) {
        Some(j) => {
            assert(s[j] != c);
        },
        None => {},
    }
}

/// The final component of a path: what follows the last '/', or the whole
/// path when it has no separator.
pub open spec fn file_name_of(p: Seq<char>) -> Seq<char> {
    match last_index_of_char(p, '/') {
        Some(i) => p.subrange(i + 1, p.len() as int),
        None => p,
    }
}

/// The parent of a path: what precedes the last '/' (the root itself when
/// the only separator leads the path). A path without a separator has no
/// parent.
pub open spec fn parent_of(p: Seq<char>) -> Option<Seq<char>> {
    match last_index_of_char(p, '/') {
        Some(i) => if i == 0 {
            Some(seq!['/'])
        } else {
            Some(p.subrange(0, i))
        },
        None => None,
    }
}

/// The extension of a path: what follows the last '.' of its final
/// component. A component without a '.', or whose only '.' leads it, has no
/// extension.
pub open spec fn extension_of(p: Seq<char>) -> Option<Seq<char>> {
    let name = file_name_of(p);
    match last_index_of_char(name, '.') {
        Some(i) => if i == 0 {
            None
        } else {
            Some(name.subrange(i + 1, name.len() as int))
        },
        None => None,
    }
}

/// The stem of a path: its final component with the extension removed. An
/// empty final component has no stem.
pub open spec fn file_stem_of(p: Seq<char>) -> Option<Seq<char>> {
    let name = file_name_of(p);
    if name.len() == 0 {
        None
    } else {
        match last_index_of_char(name, '.') {
            Some(i) => if i == 0 {
                Some(name)
            } else {
                Some(name.subrange(0, i))
            },
            None => Some(name),
        }
    }
}

/// Finds the position of the last occurrence of `c` within `s` at or after
/// `from`, stated over the suffix of `s` that starts at `from`.
fn find_last_char_in_suffix(s: &str, from: usize, c: char) -> (r: Option<usize>)
    requires
        from <= s@.len(),
    ensures
        match r {
            Some(i) => from <= i < s@.len() && last_index_of_char(
                s@.subrange(from as int, s@.len() as int),
                c,
            ) == Some(i - from),
            None => last_index_of_char(s@.subrange(from as int, s@.len() as int), c) is None,
        },
{
    let ghost suffix = s@.subrange(from as int, s@.len() as int);
    let len = s.unicode_len();
    let mut i: usize = len;
    while i > from
        invariant
            from <= i <= len,
            len == s@.len(),
            suffix == s@.subrange(from as int, s@.len() as int),
            forall|k: int| i <= k < len ==> s@[k] != c,
        decreases i,
    {
        i = i - 1;
        if s.get_char(i) == c {
            proof {
                assert(suffix[i - from] == c);
                assert forall|k: int| i - from < k < suffix.len() implies suffix[k] != c by {
                    assert(suffix[k] == s@[from + k]);
                }
                lemma_last_index_of_char_witness(suffix, c, i - from);
            }
            return Some(i);
        }
    }
    proof {
        assert forall|k: int| 0 <= k < suffix.len() implies suffix[k] != c by {
            assert(suffix[k] == s@[from + k]);
        }
        lemma_last_index_of_char_absent(suffix, c);
    }
    None
}

/// Where the final component of `p` begins: just after the last '/', or at
/// the start when there is no separator.
pub open spec fn name_start_of(p: Seq<char>) -> int {
    match last_index_of_char(p, '/') {
        Some(i) => i + 1,
        None => 0,
    }
}

/// Finds where the final component of `p` begins.
fn find_name_start(p: &str) -> (r: usize)
    ensures
        r == name_start_of(p@),
        r <= p@.len(),
        file_name_of(p@) == p@.subrange(r as int, p@.len() as int),
{
    let len: usize = p.unicode_len();
    proof {
        assert(p@.subrange(0, p@.len() as int) =~= p@);
    }
    match find_last_char_in_suffix(p, 0, '/') {
        Some(i) => i + 1,
        None => {
            proof {
                assert(file_name_of(p@) =~= p@.subrange(0, p@.len() as int));
            }
            0
        },
    }
}

/// The extension of `p`: what follows the last '.' of its final component.
pub fn path_extension<'a>(p: &'a str) -> (r: Option<&'a str>)
    ensures
        match r {
            Some(e) => extension_of(p@) == Some(e@),
            None => extension_of(p@) is None,
        },
{
    let start: usize = find_name_start(p);
    let len: usize = p.unicode_len();
    let ghost name = file_name_of(p@);
    match find_last_char_in_suffix(p, start, '.') {
        Some(i) => {
            if i == start {
                None
            } else {
                let ext = p.substring_char(i + 1, len);
                proof {
                    assert(ext@ =~= name.subrange(i - start + 1, name.len() as int));
                }
                Some(ext)
            }
        },
        None => None,
    }
}

/// The stem of `p`: its final component with the extension removed.
pub fn path_file_stem(p: &str) -> (r: Option<String>)
    ensures
        match r {
            Some(st) => file_stem_of(p@) == Some(st@),
            None => file_stem_of(p@) is None,
        },
{
    let start: usize = find_name_start(p);
    let len: usize = p.unicode_len();
    let ghost name = file_name_of(p@);
    if start == len {
        assert(name.len() == 0);
        return None;
    }
    match find_last_char_in_suffix(p, start, '.') {
        Some(i) => {
            if i == start {
                let whole = p.substring_char(start, len);
                proof {
                    assert(whole@ =~= name);
                }
                Some(whole.to_owned())
            } else {
                let stem = p.substring_char(start, i);
                proof {
                    assert(stem@ =~= name.subrange(0, i - start));
                }
                Some(stem.to_owned())
            }
        },
        None => {
            let whole = p.substring_char(start, len);
            proof {
                assert(whole@ =~= name);
            }
            Some(whole.to_owned())
        },
    }
}

/// The parent of `p`: what precedes its last '/'.
pub fn path_parent(p: &str) -> (r: Option<String>)
    ensures
        match r {
            Some(par) => parent_of(p@) == Some(par@),
            None => parent_of(p@) is None,
        },
{
    proof {
        assert(p@.subrange(0, p@.len() as int) =~= p@);
    }
    match find_last_char_in_suffix(p, 0, '/') {
        Some(i) => {
            if i == 0 {
                let root = "/";
                proof {
                    reveal_strlit("/");
                    assert(root@ =~= seq!['/']);
                }
                Some(root.to_owned())
            } else {
                let par = p.substring_char(0, i);
                proof {
                    assert(par@ =~= p@.subrange(0, i as int));
                }
                Some(par.to_owned())
            }
        },
        None => None,
    }
}

} // verus!
