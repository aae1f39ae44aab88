use vstd::prelude::*;
use crate::content::Core;

verus! {

/// A marker written in front of exactly one piece of content.
pub struct SingleTag {
    pub marker: String,
    pub child: Box<Core>,
}

/// What is written in front of the tagged content.
pub open spec fn marker_markup(marker: Seq<char>) -> Seq<char> {
    marker + " "@
}

impl SingleTag {
    /// A list entry holding `content`.
    pub fn item(content: Core) -> (r: SingleTag)
        ensures
            r.marker@ == "\\item"@,
            *r.child == content,
    {
        SingleTag { marker: "\\item".to_owned(), child: Box::new(content) }
    }

    /// Appends the marker to `out`.
    pub fn write_marker(&self, out: &mut String)
        ensures
            final(out)@ == old(out)@ + marker_markup(self.marker@),
    {
        out.append(self.marker.as_str());
        out.append(" ");
        assert(out@ =~= old(out)@ + marker_markup(self.marker@));
    }
}

} // verus!
