use vstd::prelude::*;
use crate::content::Core;

verus! {

/// The rank of a heading.
#[derive(Clone, Copy, Debug, PartialEq, Eq, Structural)]
pub enum Level {
    Section,
    Subsection,
    Subsubsection,
    Paragraph,
}

/// The command that opens a heading of rank `level`.
pub open spec fn level_name(level: Level) -> Seq<char> {
    match level {
        Level::Section => "section"@,
        Level::Subsection => "subsection"@,
        Level::Subsubsection => "subsubsection"@,
        Level::Paragraph => "paragraph"@,
    }
}

/// The markup of a heading of rank `level` titled `title`.
pub open spec fn heading_markup(level: Level, title: Seq<char>) -> Seq<char> {
    "\\"@ + level_name(level) + "{"@ + title + "}\n"@
}

fn level_str(level: Level) -> (r: &'static str)
    ensures
        r@ == level_name(level),
{
    match level {
        Level::Section => "section",
        Level::Subsection => "subsection",
        Level::Subsubsection => "subsubsection",
        Level::Paragraph => "paragraph",
    }
}

/// A heading followed by the content that it introduces.
pub struct Section {
    pub level: Level,
    pub title: String,
    pub children: Vec<Core>,
}

impl Section {
    /// An empty section of rank `level` titled `title`.
    pub fn new(level: Level, title: String) -> (r: Section)
        ensures
            r.level == level,
            r.title@ == title@,
            r.children@.len() == 0,
    {
        Section { level, title, children: Vec::new() }
    }

    /// Appends `content` after the existing content of the section.
    pub fn add_content(&mut self, content: Core)
        ensures
            final(self).level == old(self).level,
            final(self).title == old(self).title,
            final(self).children@ == old(self).children@.push(content),
    {
        self.children.push(content);
    }

    /// Appends the heading line of the section to `out`.
    pub fn write_heading(&self, out: &mut String)
        ensures
            final(out)@ == old(out)@ + heading_markup(self.level, self.title@),
    {
        out.append("\\");
        out.append(level_str(self.level));
        out.append("{");
        out.append(self.title.as_str());
        out.append("}\n");
        assert(out@ =~= old(out)@ + heading_markup(self.level, self.title@));
    }
}

} // verus!
