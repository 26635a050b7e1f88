//! Mapping import paths to identifiers and to places in the vendor tree.
//!
//! A place in the vendor tree is a list of path segments, the vendor root
//! first. Nothing here touches the file system.

use vstd::prelude::*;
use crate::text::{chars_of, has_prefix, lemma_texts_push, texts};

verus! {

/// The directory, relative to the project, that holds the fetched packages.
pub const VENDOR_DIR: &'static str = "vendor";

/// The scheme in front of an import path that names a plain web address.
pub const HTTP_SCHEME: &'static str = "http://";

/// The scheme in front of an import path that names a secure web address.
pub const HTTPS_SCHEME: &'static str = "https://";

/// The character that separates the segments of an import path.
pub const SEPARATOR: char = '/';

/// Whether `import` begins with one of the two schemes.
pub open spec fn has_scheme(import: Seq<char>) -> bool {
    HTTPS_SCHEME@.is_prefix_of(import) || HTTP_SCHEME@.is_prefix_of(import)
}

/// The number of characters that the scheme in front of `import` takes up;
/// zero where `import` begins with neither scheme.
pub open spec fn scheme_len(import: Seq<char>) -> nat {
    if HTTPS_SCHEME@.is_prefix_of(import) {
        HTTPS_SCHEME@.len()
    } else if HTTP_SCHEME@.is_prefix_of(import) {
        HTTP_SCHEME@.len()
    } else {
        0
    }
}

/// The identifier of an import path: the path without the scheme in front
/// of it. Only a leading scheme counts; what follows it stays as it is.
pub open spec fn identifier_of(import: Seq<char>) -> Seq<char> {
    import.skip(scheme_len(import) as int)
}

/// The pieces of `s` between the occurrences of `sep`, in order. There is
/// always at least one piece; pieces may be empty.
pub open spec fn split(s: Seq<char>, sep: char) -> Seq<Seq<char>>
    decreases s.len(),
{
    if s.len() == 0 {
        seq![Seq::empty()]
    } else {
        let before = split(s.drop_last(), sep);
        if s.last() == sep {
            before.push(Seq::empty())
        } else {
            before.drop_last().push(before.last().push(s.last()))
        }
    }
}

/// The pieces put together again, with `sep` between them.
pub open spec fn join(pieces: Seq<Seq<char>>, sep: char) -> Seq<char>
    decreases pieces.len(),
{
    if pieces.len() == 0 {
        Seq::empty()
    } else if pieces.len() == 1 {
        pieces[0]
    } else {
        join(pieces.drop_last(), sep).push(sep) + pieces.last()
    }
}

/// The place of a package in the vendor tree: the vendor root, then the
/// segments of the import path.
pub open spec fn vendor_path(import: Seq<char>) -> Seq<Seq<char>> {
    seq![VENDOR_DIR@] + split(import, SEPARATOR)
}

/// Splitting yields at least one piece.
pub proof fn lemma_split_nonempty(s: Seq<char>, sep: char)
    ensures
        split(s, sep).len() >= 1,
{
}

/// Splitting loses nothing and keeps the order: the pieces joined by the
/// separator are the text that was split.
pub proof fn lemma_join_split(s: Seq<char>, sep: char)
    ensures
        join(split(s, sep), sep) == s,
    decreases s.len(),
{
    if s.len() > 0 {
        let before = split(s.drop_last(), sep);
        lemma_join_split(s.drop_last(), sep);
        if s.last() == sep {
            assert(before.push(Seq::empty()).drop_last() == before);
        } else {
            let pieces = before.drop_last().push(before.last().push(s.last()));
            assert(pieces.drop_last() == before.drop_last());
            if before.len() > 1 {
                assert(join(pieces, sep) =~= join(before, sep).push(s.last()));
            }
        }
    }
}

/// No piece holds the separator.
pub proof fn lemma_split_pieces_hold_no_separator(s: Seq<char>, sep: char, i: int)
    requires
        0 <= i < split(s, sep).len(),
    ensures
        !split(s, sep)[i].contains(sep),
    decreases s.len(),
{
    if s.len() > 0 {
        let before = split(s.drop_last(), sep);
        if s.last() == sep {
            if i < before.len() {
                lemma_split_pieces_hold_no_separator(s.drop_last(), sep, i);
            }
        } else {
            if i < before.len() - 1 {
                lemma_split_pieces_hold_no_separator(s.drop_last(), sep, i);
            } else {
                lemma_split_pieces_hold_no_separator(s.drop_last(), sep, before.len() - 1);
            }
        }
    }
}

/// Text without separator that follows `s` lengthens the last piece of `s`
/// and changes no other.
proof fn lemma_split_append(s: Seq<char>, tail: Seq<char>, sep: char)
    requires
        !tail.contains(sep),
    ensures
        split(s + tail, sep) == split(s, sep).drop_last().push(split(s, sep).last() + tail),
    decreases tail.len(),
{
    if tail.len() > 0 {
        let pieces = split(s, sep);
        let shorter = tail.drop_last();
        lemma_split_append(s, shorter, sep);
        assert((s + tail).drop_last() =~= s + shorter);
        assert((pieces.last() + shorter).push(tail.last()) =~= pieces.last() + tail);
    }
}

/// Splitting undoes joining: pieces that hold no separator come back as
/// they were. With [`lemma_join_split`] this makes splitting a one-to-one
/// correspondence between texts and non-empty lists of such pieces.
pub proof fn lemma_split_join(pieces: Seq<Seq<char>>, sep: char)
    requires
        pieces.len() >= 1,
        forall|i: int| 0 <= i < pieces.len() ==> !pieces[i].contains(sep),
    ensures
        split(join(pieces, sep), sep) == pieces,
    decreases pieces.len(),
{
    if pieces.len() == 1 {
        lemma_split_append(Seq::empty(), pieces[0], sep);
    } else {
        let head = join(pieces.drop_last(), sep);
        lemma_split_join(pieces.drop_last(), sep);
        assert(head.push(sep).drop_last() =~= head);
        lemma_split_append(head.push(sep), pieces.last(), sep);
    }
}

/// Different identifiers have different places in the vendor tree.
pub proof fn lemma_vendor_path_injective(a: Seq<char>, b: Seq<char>)
    requires
        vendor_path(a) == vendor_path(b),
    ensures
        a == b,
{
    lemma_vendor_path_below_root(a);
    lemma_vendor_path_below_root(b);
    lemma_join_split(a, SEPARATOR);
    lemma_join_split(b, SEPARATOR);
}

/// A place in the vendor tree lies below the vendor root: the root is its
/// first segment, and at least one segment follows.
pub proof fn lemma_vendor_path_below_root(import: Seq<char>)
    ensures
        vendor_path(import).len() >= 2,
        vendor_path(import)[0] == VENDOR_DIR@,
        vendor_path(import).skip(1) == split(import, SEPARATOR),
{
}

/// The two schemes take up seven and eight characters.
pub proof fn lemma_scheme_lengths()
    ensures
        HTTP_SCHEME@.len() == 7,
        HTTPS_SCHEME@.len() == 8,
{
    reveal_strlit("http://");
    reveal_strlit("https://");
}

/// An import path that begins with neither scheme is its own identifier,
/// whatever it holds further on.
pub proof fn lemma_identifier_without_scheme(import: Seq<char>)
    requires
        !has_scheme(import),
    ensures
        identifier_of(import) == import,
{
}

/// Taking the scheme off changes nothing else: the identifier is the end
/// of the import path, and the scheme is all that is missing in front.
pub proof fn lemma_identifier_is_rest(import: Seq<char>)
    ensures
        identifier_of(import).is_suffix_of(import),
        HTTPS_SCHEME@.is_prefix_of(import) ==> import == HTTPS_SCHEME@ + identifier_of(import),
        !HTTPS_SCHEME@.is_prefix_of(import) && HTTP_SCHEME@.is_prefix_of(import) ==> import
            == HTTP_SCHEME@ + identifier_of(import),
{
}

/// A scheme put in front of a text is taken off again, and the text is what
/// is left.
pub proof fn lemma_identifier_strips_scheme(rest: Seq<char>)
    ensures
        identifier_of(HTTP_SCHEME@ + rest) == rest,
        identifier_of(HTTPS_SCHEME@ + rest) == rest,
{
    reveal_strlit("http://");
    reveal_strlit("https://");
    let plain = HTTP_SCHEME@ + rest;
    assert(HTTPS_SCHEME@.is_prefix_of(HTTPS_SCHEME@ + rest));
    assert(HTTP_SCHEME@.is_prefix_of(plain));
    // The fifth character tells the two schemes apart.
    assert(!HTTPS_SCHEME@.is_prefix_of(plain)) by {
        if HTTPS_SCHEME@.is_prefix_of(plain) {
            assert(plain.subrange(0, 8)[4] == HTTPS_SCHEME@[4]);
        }
    }
}

/// Strips the scheme off an import path, which gives its identifier.
///
/// Only `http://` or `https://` at the very beginning is taken off. A path
/// that begins with neither is its own identifier.
pub fn strip_url_scheme(pkg_import: &str) -> (id: String)
    ensures
        id@ == identifier_of(pkg_import@),
        !has_scheme(pkg_import@) ==> id@ == pkg_import@,
{
    let from = if has_prefix(pkg_import, HTTPS_SCHEME) {
        HTTPS_SCHEME.unicode_len()
    } else if has_prefix(pkg_import, HTTP_SCHEME) {
        HTTP_SCHEME.unicode_len()
    } else {
        0
    };
    pkg_import.substring_char(from, pkg_import.unicode_len()).to_owned()
}

/// The place of a package in the vendor tree: the vendor root, then each
/// segment of the import path, in order and none left out.
pub fn get_path_from_url(pkg_import: &str) -> (path: Vec<String>)
    ensures
        texts(path@) == vendor_path(pkg_import@),
        path@.len() >= 2,
        path@[0]@ == VENDOR_DIR@,
{
    let cs = chars_of(pkg_import);
    let n = cs.len();
    let mut path: Vec<String> = Vec::new();
    path.push(VENDOR_DIR.to_owned());
    let mut start: usize = 0;
    let mut i: usize = 0;
    while i < n
        invariant
            n == cs@.len(),
            cs@ == pkg_import@,
            start <= i <= n,
            path@.len() >= 1,
            path@[0]@ == VENDOR_DIR@,
            texts(path@) == seq![VENDOR_DIR@] + split(cs@.take(i as int), SEPARATOR).drop_last(),
            split(cs@.take(i as int), SEPARATOR).last() == cs@.subrange(start as int, i as int),
        decreases n - i,
    {
        assert(cs@.take(i + 1).drop_last() == cs@.take(i as int));
        if cs[i] == SEPARATOR {
            let piece = pkg_import.substring_char(start, i).to_owned();
            proof {
                lemma_texts_push(path@, piece);
            }
            path.push(piece);
            start = i + 1;
        }
        i += 1;
    }
    assert(cs@.take(n as int) == cs@);
    let last = pkg_import.substring_char(start, n).to_owned();
    proof {
        lemma_texts_push(path@, last);
    }
    path.push(last);
    path
}

} // verus!
