//! Shortening text to a width.

use vstd::prelude::*;
use crate::text::{chars_of, slice, Text};

verus! {

/// The mark put where text was cut off.
pub open spec fn ellipsis() -> Text {
    seq!['.', '.', '.']
}

/// `text` if it has at most `max` characters, and otherwise its beginning with
/// an ellipsis, `max` characters in all where `max` leaves room for the ellipsis.
pub open spec fn shortened(text: Text, max: nat) -> Text {
    if text.len() <= max {
        text
    } else if max <= 3 {
        ellipsis()
    } else {
        text.take(max - 3) + ellipsis()
    }
}

/// Shortening to a maximal number of characters.
pub trait Truncate {
    /// The text, cut to `max` characters and marked with an ellipsis if it is longer.
    fn truncated(&self, max: usize) -> (r: String);
}

impl Truncate for str {
    fn truncated(&self, max: usize) -> (r: String)
        ensures
            r@ == shortened(self@, max as nat),
    {
        let chars: Vec<char> = chars_of(self);
        if chars.len() <= max {
            return self.to_string();
        }
        let keep: usize = if max < 3 {
            0
        } else {
            max - 3
        };
        let r: String = slice(&chars, 0, keep).concat("...");
        proof {
            reveal_strlit("...");
            assert("..."@ =~= ellipsis());
            assert(chars@.subrange(0, keep as int) =~= self@.take(keep as int));
            assert(keep == 0 ==> r@ =~= ellipsis());
        }
        r
    }
}

/// Shortened text fits into `max` characters, or into the three of the ellipsis
/// where `max` is smaller than that.
pub proof fn law_shortened_fits(text: Text, max: nat)
    ensures
        shortened(text, max).len() <= max || shortened(text, max) == ellipsis(),
        max >= 3 ==> shortened(text, max).len() <= max,
{
}

/// Shortening a second time changes nothing.
pub proof fn law_shortened_is_idempotent(text: Text, max: nat)
    ensures
        shortened(shortened(text, max), max) == shortened(text, max),
{
}

/// Shortening to a width and then to one that is not greater is shortening to the
/// latter at once.
pub proof fn law_shortened_twice_is_shortened_once(text: Text, a: nat, b: nat)
    requires
        a <= b,
    ensures
        shortened(shortened(text, b), a) == shortened(text, a),
{
    if text.len() > b && a > 3 && a < b {
        assert((text.take(b - 3) + ellipsis()).take(a - 3) =~= text.take(a - 3));
    }
}

/// All that is kept of the text is its beginning.
pub proof fn law_shortened_keeps_the_beginning(text: Text, max: nat, i: int)
    requires
        0 <= i < text.len(),
        text.len() <= max || i < max - 3,
    ensures
        shortened(text, max)[i] == text[i],
{
}

/// A text that fits stays as it is. Of a longer one the beginning is kept, with
/// three dots behind it, so that the width is used up; where the width has no room
/// for the dots, they alone are left.
pub proof fn law_shortened_uses_up_the_width(text: Text, max: nat)
    ensures
        text.len() <= max ==> shortened(text, max) == text,
        text.len() > max ==> {
            let kept = if max >= 3 {
                max - 3
            } else {
                0
            };
            &&& shortened(text, max).len() == kept + 3
            &&& forall|i: int| 0 <= i < kept ==> #[trigger] shortened(text, max)[i] == text[i]
            &&& forall|i: int|
                kept <= i < kept + 3 ==> #[trigger] shortened(text, max)[i] == '.'
        },
{
}

} // verus!
