use vstd::prelude::*;
use crate::content::Core;

verus! {

/// A named environment holding content in order.
pub struct Bloc {
    pub name: String,
    pub children: Vec<Core>,
}

/// The line that opens the environment `name`.
pub open spec fn begin_markup(name: Seq<char>) -> Seq<char> {
    "\\begin{"@ + name + "}\n"@
}

/// The line that closes the environment `name`.
pub open spec fn end_markup(name: Seq<char>) -> Seq<char> {
    "\\end{"@ + name + "}\n"@
}

impl Bloc {
    /// An empty environment called `name`.
    pub fn new_empty(name: String) -> (r: Bloc)
        ensures
            r.name@ == name@,
            r.children@.len() == 0,
    {
        Bloc { name, children: Vec::new() }
    }

    /// Appends `content` after the existing content of the environment.
    pub fn add(&mut self, content: Core)
        ensures
            final(self).name == old(self).name,
            final(self).children@ == old(self).children@.push(content),
    {
        self.children.push(content);
    }

    /// Appends the opening line of the environment to `out`.
    pub fn write_begin(&self, out: &mut String)
        ensures
            final(out)@ == old(out)@ + begin_markup(self.name@),
    {
        out.append("\\begin{");
        out.append(self.name.as_str());
        out.append("}\n");
        assert(out@ =~= old(out)@ + begin_markup(self.name@));
    }

    /// Appends the closing line of the environment to `out`.
    pub fn write_end(&self, out: &mut String)
        ensures
            final(out)@ == old(out)@ + end_markup(self.name@),
    {
        out.append("\\end{");
        out.append(self.name.as_str());
        out.append("}\n");
        assert(out@ =~= old(out)@ + end_markup(self.name@));
    }
}

} // verus!
