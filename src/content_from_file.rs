use vstd::prelude::*;

verus! {

/// A code listing taken from a source file when the document is typeset.
/// The file is only named here: it is neither read nor checked.
pub struct Code {
    pub filename: String,
    pub language: String,
}

/// The markup that a code listing produces.
pub open spec fn code_markup(filename: Seq<char>, language: Seq<char>) -> Seq<char> {
    "\\lstinputlisting[language="@ + language + "]{"@ + filename + "}\n"@
}

impl Code {
    /// A listing of `filename`, highlighted as `language`.
    pub fn new(filename: String, language: String) -> (r: Code)
        ensures
            r.filename@ == filename@,
            r.language@ == language@,
    {
        Code { filename, language }
    }

    /// Appends the markup of this listing to `out`.
    pub fn write_to(&self, out: &mut String)
        ensures
            final(out)@ == old(out)@ + code_markup(self.filename@, self.language@),
    {
        out.append("\\lstinputlisting[language=");
        out.append(self.language.as_str());
        out.append("]{");
        out.append(self.filename.as_str());
        out.append("}\n");
        assert(out@ =~= old(out)@ + code_markup(self.filename@, self.language@));
    }
}

} // verus!
