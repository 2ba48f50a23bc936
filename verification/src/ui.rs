//! A model of the host's UI overlay: the stack of HTML fragments that
//! have been inserted in front of the canvas.  The newest fragment
//! stands first, and hiding removes it, as inserting at the front and
//! removing the first child do in the real overlay.

use vstd::prelude::*;
use vstd::string::StringExecFns;

verus! {

/// The overlay's contents, newest fragment first.
#[derive(Clone, Debug)]
pub struct Overlay {
    pub fragments: Vec<String>,
}

impl Overlay {
    /// An empty overlay.
    pub fn new() -> (r: Self)
        ensures
            r.fragments@ =~= Seq::<String>::empty(),
    {
        Overlay { fragments: Vec::new() }
    }
}

/// Put a fragment in front of everything the overlay already shows.
pub fn draw_ui(overlay: &mut Overlay, html: &str)
    ensures
        final(overlay).fragments@.len() == old(overlay).fragments@.len() + 1,
        final(overlay).fragments@[0]@ == html@,
        forall|i: int|
            0 <= i < old(overlay).fragments@.len() ==> final(overlay).fragments@[i + 1] == old(
                overlay,
            ).fragments@[i],
{
    overlay.fragments.insert(0, String::from_str(html));
}

/// Remove the overlay's newest fragment; an empty overlay stays empty.
pub fn hide_ui(overlay: &mut Overlay)
    ensures
        old(overlay).fragments@.len() == 0 ==> *final(overlay) == *old(overlay),
        old(overlay).fragments@.len() > 0 ==> final(overlay).fragments@ =~= old(
            overlay,
        ).fragments@.drop_first(),
{
    if overlay.fragments.len() > 0 {
        overlay.fragments.remove(0);
        proof {
            assert(overlay.fragments@ =~= old(overlay).fragments@.drop_first());
        }
    }
}

} // verus!
