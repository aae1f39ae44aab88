use vstd::prelude::*;
use crate::bloc::{Bloc, begin_markup, end_markup};
use crate::content_from_file::{Code, code_markup};
use crate::equations::{Equation, equation_markup};
use crate::file_table::{FileTable, find};
use crate::graphics::{Graphic, Scale, graphic_markup};
use crate::math_mode::{MathContent, math_markup};
use crate::sections::{Level, Section, heading_markup};
use crate::tabular::{
    IntoTab, Tabular, cell_separator, column_count, row_end, rows_view, table_begin_markup,
    table_end_markup,
};
use crate::tag::{SingleTag, marker_markup};

verus! {

/// A piece of document content. Sections and environments hold further
/// content in order; every other kind is complete once made.
pub enum Core {
    Sec(Section),
    RawText(String),
    Equa(Equation),
    Bloc(Bloc),
    Tag(SingleTag),
    Tab(Tabular),
    Math(MathContent),
    Graph(Graphic),
    Code(Code),
    TextFromFile(String),
}

/// The kind of a piece of content, without its data.
#[derive(Clone, Copy, Debug, PartialEq, Eq, Structural)]
pub enum NodeKind {
    Section,
    RawText,
    Equation,
    Bloc,
    Tag,
    Tabular,
    Math,
    Graphic,
    Code,
    TextFromFile,
}

/// Why building or rendering content failed.
#[derive(Debug)]
pub enum ContentError {
    /// Content was added to a node of this kind, which holds none.
    InvalidOperation(NodeKind),
    /// The text of the file at this path was not available.
    ReadFailure(String),
}

/// The markup of some content, or the path of the first file whose text was
/// missing.
pub type Rendered = Result<Seq<char>, Seq<char>>;

/// Two renderings one after the other; the first failure stands.
pub open spec fn chain(a: Rendered, b: Rendered) -> Rendered {
    match a {
        Err(p) => Err(p),
        Ok(x) => match b {
            Err(p) => Err(p),
            Ok(y) => Ok(x + y),
        },
    }
}

/// The kind of `n`.
pub open spec fn kind_of(n: Core) -> NodeKind {
    match n {
        Core::Sec(_) => NodeKind::Section,
        Core::RawText(_) => NodeKind::RawText,
        Core::Equa(_) => NodeKind::Equation,
        Core::Bloc(_) => NodeKind::Bloc,
        Core::Tag(_) => NodeKind::Tag,
        Core::Tab(_) => NodeKind::Tabular,
        Core::Math(_) => NodeKind::Math,
        Core::Graph(_) => NodeKind::Graphic,
        Core::Code(_) => NodeKind::Code,
        Core::TextFromFile(_) => NodeKind::TextFromFile,
    }
}

/// Sections and environments are the nodes that content can be added to.
pub open spec fn is_container(n: Core) -> bool {
    n is Sec || n is Bloc
}

/// The content held by a section or an environment, in order.
pub open spec fn children_of(n: Core) -> Seq<Core> {
    match n {
        Core::Sec(s) => s.children@,
        Core::Bloc(b) => b.children@,
        _ => Seq::empty(),
    }
}

/// `a` and `b` are containers of one kind with the same heading or name.
pub open spec fn same_frame(a: Core, b: Core) -> bool {
    match (a, b) {
        (Core::Sec(x), Core::Sec(y)) => x.level == y.level && x.title == y.title,
        (Core::Bloc(x), Core::Bloc(y)) => x.name == y.name,
        _ => false,
    }
}

/// What rendering `n` produces, when the files that it reads have the
/// contents that `files` gives.
pub open spec fn markup(n: Core, files: Seq<(Seq<char>, Seq<char>)>) -> Rendered
    decreases n, 3nat, 0nat,
{
    match n {
        Core::Sec(s) => chain(
            Ok(heading_markup(s.level, s.title@)),
            children_markup(n, s.children@.len(), files),
        ),
        Core::RawText(t) => Ok(t@ + "\n"@),
        Core::Equa(e) => Ok(equation_markup(e.body@)),
        Core::Bloc(b) => chain(
            chain(Ok(begin_markup(b.name@)), children_markup(n, b.children@.len(), files)),
            Ok(end_markup(b.name@)),
        ),
        Core::Tag(t) => chain(Ok(marker_markup(t.marker@)), markup(*t.child, files)),
        Core::Tab(t) => chain(
            chain(
                Ok(table_begin_markup(column_count(rows_view(t.rows@)))),
                rows_markup(n, t.rows@.len(), files),
            ),
            Ok(table_end_markup()),
        ),
        Core::Math(m) => Ok(math_markup(m.text@)),
        Core::Graph(g) => Ok(graphic_markup(g.filename@, g.caption@, g.scale)),
        Core::Code(c) => Ok(code_markup(c.filename@, c.language@)),
        Core::TextFromFile(p) => match find(files, p@) {
            Some(t) => Ok(t + "\n"@),
            None => Err(p@),
        },
    }
}

/// The renderings of the first `i` children of a section or environment.
pub open spec fn children_markup(n: Core, i: nat, files: Seq<(Seq<char>, Seq<char>)>) -> Rendered
    decreases n, 0nat, i,
{
    if i == 0 {
        Ok(Seq::empty())
    } else {
        match n {
            Core::Sec(s) => if i <= s.children@.len() {
                chain(children_markup(n, (i - 1) as nat, files), markup(s.children[i - 1], files))
            } else {
                Ok(Seq::empty())
            },
            Core::Bloc(b) => if i <= b.children@.len() {
                chain(children_markup(n, (i - 1) as nat, files), markup(b.children[i - 1], files))
            } else {
                Ok(Seq::empty())
            },
            _ => Ok(Seq::empty()),
        }
    }
}

/// The first `r` rows of a table, each ended by the row terminator.
pub open spec fn rows_markup(n: Core, r: nat, files: Seq<(Seq<char>, Seq<char>)>) -> Rendered
    decreases n, 2nat, r,
{
    if r == 0 {
        Ok(Seq::empty())
    } else {
        match n {
            Core::Tab(t) => if r <= t.rows@.len() {
                chain(
                    chain(
                        rows_markup(n, (r - 1) as nat, files),
                        cells_markup(n, (r - 1) as nat, t.rows[r - 1]@.len(), files),
                    ),
                    Ok(row_end()),
                )
            } else {
                Ok(Seq::empty())
            },
            _ => Ok(Seq::empty()),
        }
    }
}

/// The first `c` cells of row `r` of a table, with separators between them.
pub open spec fn cells_markup(n: Core, r: nat, c: nat, files: Seq<(Seq<char>, Seq<char>)>) -> Rendered
    decreases n, 1nat, c,
{
    if c == 0 {
        Ok(Seq::empty())
    } else {
        match n {
            Core::Tab(t) => if r < t.rows@.len() && c <= t.rows[r as int]@.len() {
                if c == 1 {
                    markup(t.rows[r as int][c - 1], files)
                } else {
                    chain(
                        chain(cells_markup(n, r, (c - 1) as nat, files), Ok(cell_separator())),
                        markup(t.rows[r as int][c - 1], files),
                    )
                }
            } else {
                Ok(Seq::empty())
            },
            _ => Ok(Seq::empty()),
        }
    }
}

proof fn lemma_children_err_stays(n: Core, i: nat, j: nat, files: Seq<(Seq<char>, Seq<char>)>)
    requires
        is_container(n),
        i <= j <= children_of(n).len(),
        children_markup(n, i, files) is Err,
    ensures
        children_markup(n, j, files) == children_markup(n, i, files),
    decreases j - i,
{
    if j > i {
        lemma_children_err_stays(n, i, (j - 1) as nat, files);
    }
}

proof fn lemma_rows_err_stays(n: Core, r: nat, s: nat, files: Seq<(Seq<char>, Seq<char>)>)
    requires
        n is Tab,
        r <= s <= n->Tab_0.rows@.len(),
        rows_markup(n, r, files) is Err,
    ensures
        rows_markup(n, s, files) == rows_markup(n, r, files),
    decreases s - r,
{
    if s > r {
        lemma_rows_err_stays(n, r, (s - 1) as nat, files);
    }
}

proof fn lemma_cells_err_stays(n: Core, r: nat, c: nat, d: nat, files: Seq<(Seq<char>, Seq<char>)>)
    requires
        n is Tab,
        r < n->Tab_0.rows@.len(),
        1 <= c <= d <= n->Tab_0.rows@[r as int]@.len(),
        cells_markup(n, r, c, files) is Err,
    ensures
        cells_markup(n, r, d, files) == cells_markup(n, r, c, files),
    decreases d - c,
{
    if d > c {
        lemma_cells_err_stays(n, r, c, (d - 1) as nat, files);
    }
}

impl Core {
    /// The kind of this node.
    pub fn kind(&self) -> (r: NodeKind)
        ensures
            r == kind_of(*self),
    {
        match self {
            Core::Sec(_) => NodeKind::Section,
            Core::RawText(_) => NodeKind::RawText,
            Core::Equa(_) => NodeKind::Equation,
            Core::Bloc(_) => NodeKind::Bloc,
            Core::Tag(_) => NodeKind::Tag,
            Core::Tab(_) => NodeKind::Tabular,
            Core::Math(_) => NodeKind::Math,
            Core::Graph(_) => NodeKind::Graphic,
            Core::Code(_) => NodeKind::Code,
            Core::TextFromFile(_) => NodeKind::TextFromFile,
        }
    }

    /// Appends the markup of this node to `out`. Files are read from `files`;
    /// on the first one missing it stops with a read failure for its path,
    /// leaving in `out` what was written before.
    pub fn write_latex(&self, files: &FileTable, out: &mut String) -> (r: Result<(), ContentError>)
        ensures
            match markup(*self, files@) {
                Ok(s) => r is Ok && final(out)@ == old(out)@ + s,
                Err(p) => r matches Err(ContentError::ReadFailure(q)) && q@ == p,
            },
        decreases self,
    {
        let ghost start = out@;
        match self {
            Core::Sec(s) => {
                s.write_heading(out);
                let ghost base = out@;
                let mut i: usize = 0;
                while i < s.children.len()
                    invariant
                        *self == Core::Sec(*s),
                        i <= s.children@.len(),
                        children_markup(*self, i as nat, files@) is Ok,
                        out@ == base + children_markup(*self, i as nat, files@)->Ok_0,
                    decreases s.children@.len() - i,
                {
                    let ghost prev = out@;
                    match s.children[i].write_latex(files, out) {
                        Ok(()) => {},
                        Err(e) => {
                            proof {
                                lemma_children_err_stays(*self, (i + 1) as nat, s.children@.len(), files@);
                            }
                            return Err(e);
                        },
                    }
                    i = i + 1;
                    assert(out@ =~= base + children_markup(*self, i as nat, files@)->Ok_0);
                }
                assert(out@ =~= start + markup(*self, files@)->Ok_0);
                Ok(())
            },
            Core::RawText(t) => {
                out.append(t.as_str());
                out.append("\n");
                assert(out@ =~= start + markup(*self, files@)->Ok_0);
                Ok(())
            },
            Core::Equa(e) => {
                e.write_to(out);
                Ok(())
            },
            Core::Bloc(b) => {
                b.write_begin(out);
                let ghost base = out@;
                let mut i: usize = 0;
                while i < b.children.len()
                    invariant
                        *self == Core::Bloc(*b),
                        i <= b.children@.len(),
                        children_markup(*self, i as nat, files@) is Ok,
                        out@ == base + children_markup(*self, i as nat, files@)->Ok_0,
                    decreases b.children@.len() - i,
                {
                    match b.children[i].write_latex(files, out) {
                        Ok(()) => {},
                        Err(e) => {
                            proof {
                                lemma_children_err_stays(*self, (i + 1) as nat, b.children@.len(), files@);
                            }
                            return Err(e);
                        },
                    }
                    i = i + 1;
                    assert(out@ =~= base + children_markup(*self, i as nat, files@)->Ok_0);
                }
                b.write_end(out);
                assert(out@ =~= start + markup(*self, files@)->Ok_0);
                Ok(())
            },
            Core::Tag(t) => {
                t.write_marker(out);
                let r = t.child.write_latex(files, out);
                proof {
                    if r is Ok {
                        assert(out@ =~= start + markup(*self, files@)->Ok_0);
                    }
                }
                r
            },
            Core::Tab(t) => {
                let columns = t.columns();
                Tabular::write_begin(columns, out);
                let ghost base = out@;
                let mut r: usize = 0;
                while r < t.rows.len()
                    invariant
                        *self == Core::Tab(*t),
                        r <= t.rows@.len(),
                        rows_markup(*self, r as nat, files@) is Ok,
                        out@ == base + rows_markup(*self, r as nat, files@)->Ok_0,
                    decreases t.rows@.len() - r,
                {
                    let row = &t.rows[r];
                    let ghost row_base = out@;
                    let mut c: usize = 0;
                    while c < row.len()
                        invariant
                            *self == Core::Tab(*t),
                            r < t.rows@.len(),
                            *row == t.rows@[r as int],
                            rows_markup(*self, r as nat, files@) is Ok,
                            row_base == base + rows_markup(*self, r as nat, files@)->Ok_0,
                            c <= row@.len(),
                            cells_markup(*self, r as nat, c as nat, files@) is Ok,
                            out@ == row_base + cells_markup(*self, r as nat, c as nat, files@)->Ok_0,
                        decreases row@.len() - c,
                    {
                        if c > 0 {
                            out.append("& ");
                        }
                        match row[c].write_latex(files, out) {
                            Ok(()) => {},
                            Err(e) => {
                                proof {
                                    lemma_cells_err_stays(*self, r as nat, (c + 1) as nat, row@.len(), files@);
                                    assert(t.rows[r as int]@.len() == row@.len());
                                    assert(rows_markup(*self, (r + 1) as nat, files@)
                                        == cells_markup(*self, r as nat, (c + 1) as nat, files@));
                                    lemma_rows_err_stays(*self, (r + 1) as nat, t.rows@.len(), files@);
                                }
                                return Err(e);
                            },
                        }
                        c = c + 1;
                        assert(out@ =~= row_base + cells_markup(*self, r as nat, c as nat, files@)->Ok_0);
                    }
                    out.append("\\\\\n");
                    r = r + 1;
                    assert(out@ =~= base + rows_markup(*self, r as nat, files@)->Ok_0);
                }
                out.append("\\end{tabular}\n");
                assert(out@ =~= start + markup(*self, files@)->Ok_0);
                Ok(())
            },
            Core::Math(m) => {
                m.write_to(out);
                Ok(())
            },
            Core::Graph(g) => {
                g.write_to(out);
                Ok(())
            },
            Core::Code(c) => {
                c.write_to(out);
                Ok(())
            },
            Core::TextFromFile(path) => {
                match files.get(path) {
                    Some(text) => {
                        out.append(text.as_str());
                        out.append("\n");
                        assert(out@ =~= start + markup(*self, files@)->Ok_0);
                        Ok(())
                    },
                    None => Err(ContentError::ReadFailure(path.clone())),
                }
            },
        }
    }

    /// Adds `element` after the content of a section or an environment. Any
    /// other node holds no content: it is left as it was and the call fails
    /// with the node's kind.
    pub fn add(&mut self, element: Core) -> (r: Result<(), ContentError>)
        ensures
            is_container(*old(self)) ==> r is Ok && same_frame(*old(self), *final(self))
                && children_of(*final(self)) == children_of(*old(self)).push(element),
            !is_container(*old(self)) ==> r == Err::<(), ContentError>(
                ContentError::InvalidOperation(kind_of(*old(self))),
            ) && *final(self) == *old(self),
    {
        let kind = self.kind();
        match self {
            Core::Sec(section) => {
                section.add_content(element);
                Ok(())
            },
            Core::Bloc(bloc) => {
                bloc.add(element);
                Ok(())
            },
            _ => Err(ContentError::InvalidOperation(kind)),
        }
    }

    /// Gives an image the size factor `new_scale`; any other node is left as
    /// it was.
    pub fn set_scale(&mut self, new_scale: Scale)
        ensures
            match *old(self) {
                Core::Graph(g) => *final(self) matches Core::Graph(h) && h.filename == g.filename
                    && h.caption == g.caption && h.scale == Some(new_scale),
                _ => *final(self) == *old(self),
            },
    {
        match self {
            Core::Graph(graph) => graph.set_scale(new_scale),
            _ => {},
        }
    }

    /// An empty section titled `title`.
    pub fn section(title: &str) -> (r: Core)
        ensures
            r matches Core::Sec(s) && s.level == Level::Section && s.title@ == title@
                && s.children@.len() == 0,
    {
        Core::Sec(Section::new(Level::Section, title.to_owned()))
    }

    /// An empty subsection titled `title`.
    pub fn subsection(title: &str) -> (r: Core)
        ensures
            r matches Core::Sec(s) && s.level == Level::Subsection && s.title@ == title@
                && s.children@.len() == 0,
    {
        Core::Sec(Section::new(Level::Subsection, title.to_owned()))
    }

    /// An empty subsubsection titled `title`.
    pub fn subsubsection(title: &str) -> (r: Core)
        ensures
            r matches Core::Sec(s) && s.level == Level::Subsubsection && s.title@ == title@
                && s.children@.len() == 0,
    {
        Core::Sec(Section::new(Level::Subsubsection, title.to_owned()))
    }

    /// An empty paragraph titled `title`.
    pub fn paragraph(title: &str) -> (r: Core)
        ensures
            r matches Core::Sec(s) && s.level == Level::Paragraph && s.title@ == title@
                && s.children@.len() == 0,
    {
        Core::Sec(Section::new(Level::Paragraph, title.to_owned()))
    }

    /// Literal markup, written as it is.
    pub fn text(raw_text: &str) -> (r: Core)
        ensures
            r matches Core::RawText(t) && t@ == raw_text@,
    {
        Core::RawText(raw_text.to_owned())
    }

    /// A displayed equation.
    pub fn equation(eq: Equation) -> (r: Core)
        ensures
            r == Core::Equa(eq),
    {
        Core::Equa(eq)
    }

    /// An empty environment called `title`.
    pub fn bloc(title: &str) -> (r: Core)
        ensures
            r matches Core::Bloc(b) && b.name@ == title@ && b.children@.len() == 0,
    {
        Core::Bloc(Bloc::new_empty(title.to_owned()))
    }

    /// A table of the rows of `content`.
    pub fn tab<T: IntoTab>(content: T) -> (r: Core)
        ensures
            r matches Core::Tab(t) && rows_view(t.rows@) == content.tab_rows(),
    {
        Core::Tab(Tabular::new(content))
    }

    /// A list entry holding `content`.
    pub fn item(content: Core) -> (r: Core)
        ensures
            r matches Core::Tag(t) && t.marker@ == "\\item"@ && *t.child == content,
    {
        Core::Tag(SingleTag::item(content))
    }

    /// Inline mathematics with source `content`.
    pub fn math(content: &str) -> (r: Core)
        ensures
            r matches Core::Math(m) && m.text@ == content@,
    {
        Core::Math(MathContent::new(content.to_owned()))
    }

    /// The image `filename` with the caption `description`, at natural size.
    pub fn graphic(filename: &str, description: &str) -> (r: Core)
        ensures
            r matches Core::Graph(g) && g.filename@ == filename@ && g.caption@ == description@
                && g.scale is None,
    {
        Core::Graph(Graphic::new(filename.to_owned(), description.to_owned()))
    }

    /// A listing of the source file `filename` in `language`.
    pub fn code(filename: &str, language: &str) -> (r: Core)
        ensures
            r matches Core::Code(c) && c.filename@ == filename@ && c.language@ == language@,
    {
        Core::Code(Code::new(filename.to_owned(), language.to_owned()))
    }

    /// The text of the file `filename`, taken when the node is rendered.
    pub fn text_from_file(filename: &str) -> (r: Core)
        ensures
            r matches Core::TextFromFile(p) && p@ == filename@,
    {
        Core::TextFromFile(filename.to_owned())
    }

    /// The markup of this node, or the read failure of the first file whose
    /// text `files` lacks.
    pub fn render(&self, files: &FileTable) -> (r: Result<String, ContentError>)
        ensures
            match markup(*self, files@) {
                Ok(s) => r matches Ok(t) && t@ == s,
                Err(p) => r matches Err(ContentError::ReadFailure(q)) && q@ == p,
            },
    {
        let mut out = String::new();
        match self.write_latex(files, &mut out) {
            Ok(()) => {
                assert(out@ =~= markup(*self, files@)->Ok_0);
                Ok(out)
            },
            Err(e) => Err(e),
        }
    }
}

/// Content whose rendering reads no file renders the same whatever file text
/// is known: rendering it any number of times gives the same markup.
pub proof fn lemma_markup_needs_no_files(n: Core, files: Seq<(Seq<char>, Seq<char>)>)
    requires
        markup(n, Seq::empty()) is Ok,
    ensures
        markup(n, files) == markup(n, Seq::empty()),
    decreases n, 3nat, 0nat,
{
    match n {
        Core::Sec(s) => lemma_children_need_no_files(n, s.children@.len(), files),
        Core::Bloc(b) => lemma_children_need_no_files(n, b.children@.len(), files),
        Core::Tag(t) => lemma_markup_needs_no_files(*t.child, files),
        Core::Tab(t) => lemma_rows_need_no_files(n, t.rows@.len(), files),
        _ => {},
    }
}

proof fn lemma_children_need_no_files(n: Core, i: nat, files: Seq<(Seq<char>, Seq<char>)>)
    requires
        children_markup(n, i, Seq::empty()) is Ok,
    ensures
        children_markup(n, i, files) == children_markup(n, i, Seq::empty()),
    decreases n, 0nat, i,
{
    if i > 0 {
        match n {
            Core::Sec(s) => if i <= s.children@.len() {
                lemma_children_need_no_files(n, (i - 1) as nat, files);
                lemma_markup_needs_no_files(s.children[i - 1], files);
            },
            Core::Bloc(b) => if i <= b.children@.len() {
                lemma_children_need_no_files(n, (i - 1) as nat, files);
                lemma_markup_needs_no_files(b.children[i - 1], files);
            },
            _ => {},
        }
    }
}

proof fn lemma_rows_need_no_files(n: Core, r: nat, files: Seq<(Seq<char>, Seq<char>)>)
    requires
        rows_markup(n, r, Seq::empty()) is Ok,
    ensures
        rows_markup(n, r, files) == rows_markup(n, r, Seq::empty()),
    decreases n, 2nat, r,
{
    if r > 0 {
        match n {
            Core::Tab(t) => if r <= t.rows@.len() {
                lemma_rows_need_no_files(n, (r - 1) as nat, files);
                lemma_cells_need_no_files(n, (r - 1) as nat, t.rows[r - 1]@.len(), files);
            },
            _ => {},
        }
    }
}

proof fn lemma_cells_need_no_files(n: Core, r: nat, c: nat, files: Seq<(Seq<char>, Seq<char>)>)
    requires
        cells_markup(n, r, c, Seq::empty()) is Ok,
    ensures
        cells_markup(n, r, c, files) == cells_markup(n, r, c, Seq::empty()),
    decreases n, 1nat, c,
{
    if c > 0 {
        match n {
            Core::Tab(t) => if r < t.rows@.len() && c <= t.rows[r as int]@.len() {
                lemma_cells_need_no_files(n, r, (c - 1) as nat, files);
                lemma_markup_needs_no_files(t.rows[r as int][c - 1], files);
            },
            _ => {},
        }
    }
}

proof fn lemma_prefix_children_agree(a: Core, b: Core, i: nat, files: Seq<(Seq<char>, Seq<char>)>)
    requires
        is_container(a),
        same_frame(a, b),
        i <= children_of(a).len(),
        i <= children_of(b).len(),
        children_of(a).subrange(0, i as int) == children_of(b).subrange(0, i as int),
    ensures
        children_markup(a, i, files) == children_markup(b, i, files),
    decreases i,
{
    if i > 0 {
        assert(children_of(a).subrange(0, i - 1) =~= children_of(a).subrange(0, i as int).subrange(0, i - 1));
        assert(children_of(b).subrange(0, i - 1) =~= children_of(b).subrange(0, i as int).subrange(0, i - 1));
        lemma_prefix_children_agree(a, b, (i - 1) as nat, files);
        assert(children_of(a)[i - 1] == children_of(a).subrange(0, i as int)[i - 1]);
        assert(children_of(b)[i - 1] == children_of(b).subrange(0, i as int)[i - 1]);
    }
}

/// Adding `child` to a section or an environment puts the rendering of
/// `child` after the renderings of the content it held, which stay as they
/// were and in their order.
pub proof fn lemma_added_child_renders_last(before: Core, after: Core, child: Core, files: Seq<(Seq<char>, Seq<char>)>)
    requires
        is_container(before),
        same_frame(before, after),
        children_of(after) == children_of(before).push(child),
    ensures
        children_markup(after, children_of(after).len(), files) == chain(
            children_markup(before, children_of(before).len(), files),
            markup(child, files),
        ),
{
    let k = children_of(before).len();
    assert(children_of(after).subrange(0, k as int) =~= children_of(before).subrange(0, k as int));
    lemma_prefix_children_agree(before, after, k, files);
    assert(children_of(after)[k as int] == child);
}

proof fn lemma_same_cells(a: Tabular, b: Tabular, r: nat, c: nat, files: Seq<(Seq<char>, Seq<char>)>)
    requires
        rows_view(a.rows@) == rows_view(b.rows@),
    ensures
        cells_markup(Core::Tab(a), r, c, files) == cells_markup(Core::Tab(b), r, c, files),
    decreases c,
{
    assert(a.rows@.len() == rows_view(a.rows@).len());
    assert(b.rows@.len() == rows_view(b.rows@).len());
    if r < a.rows@.len() {
        assert(rows_view(a.rows@)[r as int] == a.rows@[r as int]@);
        assert(rows_view(b.rows@)[r as int] == b.rows@[r as int]@);
    }
    if c > 0 {
        lemma_same_cells(a, b, r, (c - 1) as nat, files);
    }
}

proof fn lemma_same_rows(a: Tabular, b: Tabular, r: nat, files: Seq<(Seq<char>, Seq<char>)>)
    requires
        rows_view(a.rows@) == rows_view(b.rows@),
    ensures
        rows_markup(Core::Tab(a), r, files) == rows_markup(Core::Tab(b), r, files),
    decreases r,
{
    assert(a.rows@.len() == rows_view(a.rows@).len());
    assert(b.rows@.len() == rows_view(b.rows@).len());
    if r > 0 {
        lemma_same_rows(a, b, (r - 1) as nat, files);
        if r <= a.rows@.len() {
            assert(rows_view(a.rows@)[r - 1] == a.rows@[r - 1]@);
            assert(rows_view(b.rows@)[r - 1] == b.rows@[r - 1]@);
            lemma_same_cells(a, b, (r - 1) as nat, a.rows[r - 1]@.len(), files);
        }
    }
}

/// Two tables with the same rows of cells render alike: in particular one
/// made from a flat sequence of cells and one made from a single row of
/// those cells.
pub proof fn lemma_same_rows_same_markup(a: Tabular, b: Tabular, files: Seq<(Seq<char>, Seq<char>)>)
    requires
        rows_view(a.rows@) == rows_view(b.rows@),
    ensures
        markup(Core::Tab(a), files) == markup(Core::Tab(b), files),
{
    assert(a.rows@.len() == rows_view(a.rows@).len());
    assert(b.rows@.len() == rows_view(b.rows@).len());
    lemma_same_rows(a, b, a.rows@.len(), files);
}

} // verus!
