use vstd::prelude::*;

verus! {

/// Inline mathematics: source text placed between math delimiters.
pub struct MathContent {
    pub text: String,
}

/// The markup that a math element produces.
pub open spec fn math_markup(text: Seq<char>) -> Seq<char> {
    "$"@ + text + "$\n"@
}

impl MathContent {
    /// A math element holding `text`.
    pub fn new(text: String) -> (r: MathContent)
        ensures
            r.text@ == text@,
    {
        MathContent { text }
    }

    /// Appends the markup of this element to `out`.
    pub fn write_to(&self, out: &mut String)
        ensures
            final(out)@ == old(out)@ + math_markup(self.text@),
    {
        out.append("$");
        out.append(self.text.as_str());
        out.append("$\n");
        assert(out@ =~= old(out)@ + math_markup(self.text@));
    }
}

} // verus!
