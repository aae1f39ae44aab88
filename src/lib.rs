use vstd::prelude::*;

pub mod bloc;
pub mod content_from_file;
pub mod content;
pub mod equations;
pub mod file_table;
pub mod graphics;
pub mod math_mode;
pub mod sections;
pub mod tabular;
pub mod tag;

verus! {

/// Relies on `String::push`: the character is appended at the end of the string.
pub assume_specification[ String::push ](s: &mut String, ch: char)
    ensures
        final(s)@ == old(s)@.push(ch),
;

} // verus!
