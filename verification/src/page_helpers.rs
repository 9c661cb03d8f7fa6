//! Fixed-width column text for the table views: text that exactly fills
//! its column is kept, shorter text is padded with spaces, longer text is
//! cut down and marked with an ellipsis.

use ellipse::Ellipse;
use vstd::prelude::*;

verus! {

/// What ellipse's truncation returns for `s` cut to `n` grapheme clusters:
/// a function of its arguments alone, opaque here because grapheme
/// segmentation is not restated in this library.
pub uninterp spec fn truncated_with_ellipsis(s: Seq<char>, n: int) -> Seq<char>;

/// Relies on ellipse's `truncate_ellipse`: it cuts the text to `n`
/// grapheme clusters and appends "..." when it cuts; it returns the text
/// unchanged when the text has at most `n` clusters — so surely when it
/// has at most `n` characters — and something empty when `n` is zero.
#[verifier::external_body]
fn truncate_with_ellipsis(s: &str, n: usize) -> (r: String)
    ensures
        r@ == truncated_with_ellipsis(s@, n as int),
        n >= s@.len() ==> r@ == s@,
        n == 0 ==> r@.len() == 0,
{
    s.truncate_ellipse(n).into_owned()
}

/// The text shown in a column of the given width: unchanged when it fits
/// exactly, space-padded when shorter, dots alone when the column is too
/// narrow for an ellipsis, and ellipsis-truncated otherwise.
pub open spec fn spec_column_string(text: Seq<char>, width: int) -> Seq<char> {
    if text.len() == width {
        text
    } else if text.len() < width {
        text + Seq::new((width - text.len()) as nat, |i: int| ' ')
    } else if width <= 3 {
        Seq::new(width as nat, |i: int| '.')
    } else {
        truncated_with_ellipsis(text, width - 3)
    }
}

/// Renders `text` into a column of exactly `width` characters-worth of
/// table cell, as the page tables need it.
pub fn get_column_string(text: &str, width: usize) -> (r: String)
    ensures
        r@ == spec_column_string(text@, width as int),
{
    let len = text.unicode_len();
    if len == width {
        return text.to_owned();
    }
    if len < width {
        let mut out = text.to_owned();
        proof {
            assert(out@ =~= text@ + Seq::new(0, |k: int| ' '));
        }
        let mut i: usize = len;
        while i < width
            invariant
                len <= i <= width,
                len == text@.len(),
                out@ == text@ + Seq::new((i - len) as nat, |k: int| ' '),
            decreases width - i,
        {
            out.append(" ");
            proof {
                reveal_strlit(" ");
                assert(" "@ =~= seq![' ']);
                assert(out@ =~= text@ + Seq::new((i + 1 - len) as nat, |k: int| ' '));
            }
            i = i + 1;
        }
        return out;
    }
    if width == 0 {
        let r = "".to_owned();
        proof {
            reveal_strlit("");
            assert(r@ =~= Seq::new(0nat, |i: int| '.'));
        }
        return r;
    }
    if width == 1 {
        let r = ".".to_owned();
        proof {
            reveal_strlit(".");
            assert(r@ =~= Seq::new(1nat, |i: int| '.'));
        }
        return r;
    }
    if width == 2 {
        let r = "..".to_owned();
        proof {
            reveal_strlit("..");
            assert(r@ =~= Seq::new(2nat, |i: int| '.'));
        }
        return r;
    }
    if width == 3 {
        let r = "...".to_owned();
        proof {
            reveal_strlit("...");
            assert(r@ =~= Seq::new(3nat, |i: int| '.'));
        }
        return r;
    }
    truncate_with_ellipsis(text, width - 3)
}

} // verus!
