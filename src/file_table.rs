use vstd::prelude::*;

verus! {

/// The contents that the entry for `path` gives, looking from entry `i` on;
/// the first entry for a path wins.
pub open spec fn find_from(entries: Seq<(Seq<char>, Seq<char>)>, path: Seq<char>, i: int) -> Option<Seq<char>>
    decreases entries.len() - i,
{
    if i < 0 || i >= entries.len() {
        None
    } else if entries[i].0 == path {
        Some(entries[i].1)
    } else {
        find_from(entries, path, i + 1)
    }
}

/// The contents known for `path`, if any.
pub open spec fn find(entries: Seq<(Seq<char>, Seq<char>)>, path: Seq<char>) -> Option<Seq<char>> {
    find_from(entries, path, 0)
}

/// The text of the files that a document reads, by path, as it was read
/// before rendering.
pub struct FileTable {
    pub entries: Vec<(String, String)>,
}

impl View for FileTable {
    type V = Seq<(Seq<char>, Seq<char>)>;

    open spec fn view(&self) -> Seq<(Seq<char>, Seq<char>)> {
        self.entries@.map_values(|e: (String, String)| (e.0@, e.1@))
    }
}

impl FileTable {
    /// A table that knows no file.
    pub fn new() -> (r: FileTable)
        ensures
            r@.len() == 0,
    {
        FileTable { entries: Vec::new() }
    }

    /// Records `text` as the contents of `path`. An earlier entry for the
    /// same path keeps precedence.
    pub fn insert(&mut self, path: String, text: String)
        ensures
            final(self)@ == old(self)@.push((path@, text@)),
    {
        let ghost e = (path@, text@);
        self.entries.push((path, text));
        assert(self@ =~= old(self)@.push(e));
    }

    /// The contents recorded for `path`, if any.
    pub fn get(&self, path: &String) -> (r: Option<&String>)
        ensures
            match find(self@, path@) {
                None => r is None,
                Some(t) => r matches Some(s) && s@ == t,
            },
    {
        let mut i: usize = 0;
        while i < self.entries.len()
            invariant
                i <= self.entries@.len(),
                find_from(self@, path@, i as int) == find(self@, path@),
            decreases self.entries@.len() - i,
        {
            if self.entries[i].0 == *path {
                return Some(&self.entries[i].1);
            }
            i = i + 1;
        }
        None
    }
}

} // verus!
