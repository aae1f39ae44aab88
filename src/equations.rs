use vstd::prelude::*;

verus! {

/// A displayed, numbered equation.
pub struct Equation {
    pub body: String,
}

/// The markup that an equation produces.
pub open spec fn equation_markup(body: Seq<char>) -> Seq<char> {
    "\\begin{equation}\n"@ + body + "\n\\end{equation}\n"@
}

impl Equation {
    /// An equation whose source is `body`.
    pub fn new(body: &str) -> (r: Equation)
        ensures
            r.body@ == body@,
    {
        Equation { body: body.to_owned() }
    }

    /// Appends the markup of this equation to `out`.
    pub fn write_to(&self, out: &mut String)
        ensures
            final(out)@ == old(out)@ + equation_markup(self.body@),
    {
        out.append("\\begin{equation}\n");
        out.append(self.body.as_str());
        out.append("\n\\end{equation}\n");
        assert(out@ =~= old(out)@ + equation_markup(self.body@));
    }
}

} // verus!
