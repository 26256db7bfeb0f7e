//! The icon policy for individual units.
//!
//! An individual unit may show an icon next to its label: a thumbnail
//! loaded from the file itself when the file looks like an image and
//! thumbnails are wanted, and otherwise the platform's generic icon for the
//! file's media type. The media type itself is sniffed outside the library
//! (it is read off the disk); the decision made from it is verified here.

use vstd::prelude::*;

verus! {

/// `needle` occurs contiguously somewhere in `hay`.
pub open spec fn contains_seq(hay: Seq<char>, needle: Seq<char>) -> bool {
    exists|i: int|
        0 <= i <= hay.len() - needle.len() && #[trigger] hay.subrange(i, i + needle.len())
            == needle
}

/// Substring search: whether `needle` occurs in `hay`.
pub fn contains_substr(hay: &str, needle: &str) -> (b: bool)
    ensures
        b == contains_seq(hay@, needle@),
{
    let n = hay.unicode_len();
    let m = needle.unicode_len();
    if m == 0 {
        proof {
            assert(hay@.subrange(0, 0 + needle@.len() as int) =~= needle@);
        }
        return true;
    }
    if m > n {
        return false;
    }
    let mut i: usize = 0;
    while i <= n - m
        invariant
            n == hay@.len(),
            m == needle@.len(),
            0 < m <= n,
            i <= n - m + 1,
            forall|k: int| 0 <= k < i ==> #[trigger] hay@.subrange(k, k + m) != needle@,
        decreases n - m - i + 1,
    {
        let mut j: usize = 0;
        while j < m && hay.get_char(i + j) == needle.get_char(j)
            invariant
                n == hay@.len(),
                m == needle@.len(),
                i + m <= n,
                j <= m,
                forall|k: int| 0 <= k < j ==> hay@[i + k] == needle@[k],
            decreases m - j,
        {
            j += 1;
        }
        if j == m {
            proof {
                assert(hay@.subrange(i as int, i as int + m) =~= needle@);
            }
            return true;
        }
        proof {
            assert(hay@.subrange(i as int, i as int + m)[j as int] == hay@[i + j]);
            assert(hay@.subrange(i as int, i as int + m) != needle@);
        }
        i += 1;
    }
    proof {
        assert(!contains_seq(hay@, needle@));
    }
    false
}

/// Mathematical image of an icon decision.
pub enum IconChoiceV {
    Thumbnail,
    GenericIcon(Seq<char>),
}

/// The icon an individual unit should carry.
pub enum IconChoice {
    /// Load a thumbnail from the file itself.
    Thumbnail,
    /// Look up the platform's generic icon for this media type.
    GenericIcon(String),
}

impl View for IconChoice {
    type V = IconChoiceV;

    open spec fn view(&self) -> IconChoiceV {
        match self {
            IconChoice::Thumbnail => IconChoiceV::Thumbnail,
            IconChoice::GenericIcon(mime) => IconChoiceV::GenericIcon(mime@),
        }
    }
}

/// The media type a staged path is treated as: directories have their own
/// type, a sniffed type is taken as is, and everything else falls back to
/// plain text.
pub open spec fn mime_for(is_dir: bool, sniffed: Option<Seq<char>>) -> Seq<char> {
    if is_dir {
        "inode/directory"@
    } else {
        match sniffed {
            Some(m) => m,
            None => "text/plain"@,
        }
    }
}

/// The icon decision: a thumbnail for image types when thumbnails are
/// wanted, the generic icon for the media type otherwise.
pub open spec fn icon_spec(
    is_dir: bool,
    sniffed: Option<Seq<char>>,
    disable_thumbnails: bool,
) -> IconChoiceV {
    let mime = mime_for(is_dir, sniffed);
    if contains_seq(mime, "image"@) && !disable_thumbnails {
        IconChoiceV::Thumbnail
    } else {
        IconChoiceV::GenericIcon(mime)
    }
}

/// Decide the icon for one staged path. `is_dir` and `sniffed_mime` are
/// what the caller read off the filesystem: whether the path is a
/// directory, and the media type sniffed from the file's content, if any.
pub fn icon_for(is_dir: bool, sniffed_mime: Option<String>, disable_thumbnails: bool) -> (r:
    IconChoice)
    ensures
        r@ == icon_spec(is_dir, sniffed_mime.deep_view(), disable_thumbnails),
{
    let mime: String = if is_dir {
        String::from_str("inode/directory")
    } else {
        match sniffed_mime {
            Some(m) => m,
            None => String::from_str("text/plain"),
        }
    };
    if contains_substr(mime.as_str(), "image") && !disable_thumbnails {
        IconChoice::Thumbnail
    } else {
        IconChoice::GenericIcon(mime)
    }
}

} // verus!
