//! The shape of staged paths.
//!
//! A path enters the staging set only after the caller has canonicalized it
//! (symlinks resolved, `.` and `..` removed). The predicates here pin down
//! the textual shape such a path has on a Unix filesystem, so that the
//! `text/uri-list` codec can state exactly which paths survive a round trip
//! through the wire format.

use vstd::prelude::*;

verus! {

/// A `.` segment starts at position `i` (which holds the separator).
pub open spec fn dot_segment_at(s: Seq<char>, i: int) -> bool {
    &&& 0 <= i && i + 1 < s.len()
    &&& s[i] == '/'
    &&& s[i + 1] == '.'
    &&& (i + 2 == s.len() || s[i + 2] == '/')
}

/// A `..` segment starts at position `i` (which holds the separator).
pub open spec fn dotdot_segment_at(s: Seq<char>, i: int) -> bool {
    &&& 0 <= i && i + 2 < s.len()
    &&& s[i] == '/'
    &&& s[i + 1] == '.'
    &&& s[i + 2] == '.'
    &&& (i + 3 == s.len() || s[i + 3] == '/')
}

/// The textual shape that canonicalization gives a path: absolute, no empty
/// segment, no `.` or `..` segment, no trailing separator except on the root
/// itself, and no NUL character (the filesystem never hands one out).
pub open spec fn is_canonical_path(s: Seq<char>) -> bool {
    &&& s.len() > 0
    &&& s[0] == '/'
    &&& (s.len() == 1 || s.last() != '/')
    &&& (forall|i: int| 0 <= i < s.len() ==> s[i] != '\0')
    &&& (forall|i: int|
        #![trigger s[i]]
        0 <= i && i + 1 < s.len() ==> !(s[i] == '/' && s[i + 1] == '/'))
    &&& (forall|i: int| !dot_segment_at(s, i))
    &&& (forall|i: int| !dotdot_segment_at(s, i))
}

/// An ASCII letter.
pub open spec fn is_ascii_alpha(c: char) -> bool {
    ('a' as u32 <= c as u32 && c as u32 <= 'z' as u32) || ('A' as u32 <= c as u32 && c as u32
        <= 'Z' as u32)
}

/// The path strays into the wire format's Windows drive-letter territory:
/// either it ends in a letter followed by `:` or `|`, which the path reader
/// turns into a drive root, or its first segment is a letter followed by
/// `|`, which the URI parser rewrites into a drive letter with `:`. The
/// round-trip guarantee of the codec excludes these paths.
pub open spec fn has_drive_letter_quirk(s: Seq<char>) -> bool {
    ||| (s.len() > 2 && (s.last() == ':' || s.last() == '|') && is_ascii_alpha(s[s.len() - 2]))
    ||| (s.len() >= 3 && s[0] == '/' && is_ascii_alpha(s[1]) && s[2] == '|' && (s.len() == 3
        || s[3] == '/'))
}

/// Decide whether `path` has the canonical shape; producers use this to
/// validate a path before handing it to the staging set or the codec.
pub fn is_canonical(path: &str) -> (b: bool)
    ensures
        b == is_canonical_path(path@),
{
    let n = path.unicode_len();
    if n == 0 {
        return false;
    }
    if path.get_char(0) != '/' {
        return false;
    }
    if n > 1 && path.get_char(n - 1) == '/' {
        return false;
    }
    let mut i: usize = 0;
    while i < n
        invariant
            n == path@.len(),
            0 < n,
            path@[0] == '/',
            n == 1 || path@[n as int - 1] != '/',
            i <= n,
            forall|k: int| 0 <= k < i ==> path@[k] != '\0',
            forall|k: int|
                #![trigger path@[k]]
                0 <= k < i && k + 1 < n ==> !(path@[k] == '/' && path@[k + 1] == '/'),
            forall|k: int| 0 <= k < i ==> !dot_segment_at(path@, k),
            forall|k: int| 0 <= k < i ==> !dotdot_segment_at(path@, k),
        decreases n - i,
    {
        let c = path.get_char(i);
        if c == '\0' {
            return false;
        }
        if c == '/' && i + 1 < n {
            let c1 = path.get_char(i + 1);
            if c1 == '/' {
                return false;
            }
            if c1 == '.' {
                if i + 2 == n {
                    proof {
                        assert(dot_segment_at(path@, i as int));
                    }
                    return false;
                }
                let c2 = path.get_char(i + 2);
                if c2 == '/' {
                    proof {
                        assert(dot_segment_at(path@, i as int));
                    }
                    return false;
                }
                if c2 == '.' && (i + 3 == n || path.get_char(i + 3) == '/') {
                    proof {
                        assert(dotdot_segment_at(path@, i as int));
                    }
                    return false;
                }
            }
        }
        i += 1;
    }
    proof {
        assert forall|k: int| !dot_segment_at(path@, k) by {
            if 0 <= k < n {
            }
        }
        assert forall|k: int| !dotdot_segment_at(path@, k) by {
            if 0 <= k < n {
            }
        }
    }
    true
}

} // verus!
