//! Declared media types: which of them denote an image.

use vstd::prelude::*;

verus! {

/// Number of characters of the type part that marks an image, with its
/// slash.
pub const MARK_LEN: usize = 6;

/// The type part of every image media type, with the slash that ends it.
pub open spec fn image_mark() -> Seq<char> {
    seq!['i', 'm', 'a', 'g', 'e', '/']
}

/// A media type denotes an image when its type part is `image`: the text
/// begins with `image/`. The word `image` elsewhere in the text, as in the
/// subtype of another type, does not make it one.
pub open spec fn is_image_type(media_type: Seq<char>) -> bool {
    media_type.len() >= MARK_LEN && media_type.subrange(0, MARK_LEN as int) == image_mark()
}

/// The characters of a string, one by one.
fn characters(text: &str) -> (chars: Vec<char>)
    ensures
        chars@ == text@,
{
    let mut chars: Vec<char> = Vec::new();
    for c in it: text.chars()
        invariant
            it.seq() == text@,
            chars@ == it.seq().take(it.index()),
    {
        chars.push(c);
    }
    chars
}

/// Tells whether a declared media type denotes an image.
pub fn denotes_image(media_type: &str) -> (denotes: bool)
    ensures
        denotes == is_image_type(media_type@),
{
    let chars = characters(media_type);
    if chars.len() < MARK_LEN {
        return false;
    }
    let denotes = chars[0] == 'i' && chars[1] == 'm' && chars[2] == 'a' && chars[3] == 'g'
        && chars[4] == 'e' && chars[5] == '/';
    proof {
        let head = chars@.subrange(0, MARK_LEN as int);
        assert(head[0] == chars@[0] && head[1] == chars@[1] && head[2] == chars@[2] && head[3]
            == chars@[3] && head[4] == chars@[4] && head[5] == chars@[5]);
        if denotes {
            assert(head =~= image_mark());
        }
    }
    denotes
}

} // verus!
