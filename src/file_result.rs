use vstd::prelude::*;
use crate::line::Line;
use crate::match_result::{Frag, FragState};

verus! {

/// A line as plain values.
pub struct LineModel {
    pub no: usize,
    pub text: Seq<char>,
    pub frags: Seq<Frag>,
    pub hidden: bool,
}

/// The plain values of a line.
pub open spec fn line_model(l: Line) -> LineModel {
    LineModel { no: l.number(), text: l.text_view(), frags: l.frags(), hidden: l.hidden() }
}

/// An entry of a file's result: a line, or a break between context blocks.
#[derive(Clone, Debug, PartialEq)]
pub enum LineResult {
    Line(Line),
    Separator,
}

/// The plain values of an entry: `None` for a separator.
pub open spec fn entry_model(e: LineResult) -> Option<LineModel> {
    match e {
        LineResult::Line(l) => Some(line_model(l)),
        LineResult::Separator => None,
    }
}

/// The lines of one file that a search kept.
#[derive(Clone, Debug, PartialEq)]
pub struct FileResult {
    pub file_path: String,
    pub lines: Vec<LineResult>,
}

/// A file's result as plain values.
pub struct FileModel {
    pub path: Seq<char>,
    pub entries: Seq<Option<LineModel>>,
}

/// The plain values of a file's result.
pub open spec fn file_model(f: FileResult) -> FileModel {
    FileModel { path: f.file_path@, entries: f.lines@.map_values(|e: LineResult| entry_model(e)) }
}

/// The plain values of a list of files' results.
pub open spec fn files_model(s: Seq<FileResult>) -> Seq<FileModel> {
    s.map_values(|f: FileResult| file_model(f))
}

/// The same file as printed in the vimgrep shape.
pub struct FileResultVimGrep {
    pub file_path: String,
    pub lines: Vec<LineResult>,
}

/// Some fragment of the line was rewritten.
pub open spec fn has_transformed(l: LineModel) -> bool {
    exists|i: int| 0 <= i < l.frags.len() && (#[trigger] l.frags[i]).state == FragState::Transformed
}

/// The entry is a line with a rewritten fragment.
pub open spec fn entry_transformed(e: Option<LineModel>) -> bool {
    match e {
        Some(l) => has_transformed(l),
        None => false,
    }
}

impl LineResult {
    pub fn is_line(&self) -> (r: bool)
        ensures
            r == (*self is Line),
    {
        matches!(self, LineResult::Line(_))
    }

    /// A copy of the line, where the entry is one.
    pub fn line(&self) -> (r: Option<Line>)
        ensures
            match *self {
                LineResult::Line(l) => r matches Some(x) && line_model(x) == line_model(l),
                LineResult::Separator => r is None,
            },
    {
        match self {
            LineResult::Line(l) => Some(l.duplicate()),
            LineResult::Separator => None,
        }
    }

    /// A copy of the entry.
    pub fn duplicate(&self) -> (r: LineResult)
        ensures
            entry_model(r) == entry_model(*self),
    {
        match self {
            LineResult::Line(l) => LineResult::Line(l.duplicate()),
            LineResult::Separator => LineResult::Separator,
        }
    }
}

/// A copy of a list of entries.
pub fn copy_entries(v: &Vec<LineResult>) -> (r: Vec<LineResult>)
    ensures
        r@.map_values(|e: LineResult| entry_model(e)) == v@.map_values(|e: LineResult| entry_model(e)),
{
    let mut r: Vec<LineResult> = Vec::new();
    let mut i: usize = 0;
    while i < v.len()
        invariant
            i <= v@.len(),
            r@.map_values(|e: LineResult| entry_model(e)) == v@.map_values(|e: LineResult| entry_model(e)).take(i as int),
        decreases v@.len() - i,
    {
        let ghost old_r = r@;
        r.push(v[i].duplicate());
        assert(r@.map_values(|e: LineResult| entry_model(e)) =~= old_r.map_values(|e: LineResult| entry_model(e)).push(entry_model(v@[i as int])));
        assert(r@.map_values(|e: LineResult| entry_model(e)) =~= v@.map_values(|e: LineResult| entry_model(e)).take(i + 1));
        i = i + 1;
    }
    assert(v@.map_values(|e: LineResult| entry_model(e)).take(i as int) =~= v@.map_values(|e: LineResult| entry_model(e)));
    r
}

impl FileResult {
    /// A copy of the file's result.
    pub fn duplicate(&self) -> (r: FileResult)
        ensures
            file_model(r) == file_model(*self),
    {
        FileResult { file_path: self.file_path.clone(), lines: copy_entries(&self.lines) }
    }

    /// The file's result in the vimgrep shape.
    pub fn display_vimgrep(&self) -> (r: FileResultVimGrep)
        ensures
            r.file_path@ == self.file_path@,
            r.lines@.map_values(|e: LineResult| entry_model(e)) == self.lines@.map_values(|e: LineResult| entry_model(e)),
    {
        FileResultVimGrep { file_path: self.file_path.clone(), lines: copy_entries(&self.lines) }
    }

    /// Whether a line of the file holds a rewritten fragment.
    pub fn contains_transformed(&self) -> (r: bool)
        ensures
            r == exists|i: int| 0 <= i < self.lines@.len() && entry_transformed(#[trigger] entry_model(self.lines@[i])),
    {
        let mut i: usize = 0;
        while i < self.lines.len()
            invariant
                i <= self.lines@.len(),
                forall|k: int| 0 <= k < i ==> !entry_transformed(#[trigger] entry_model(self.lines@[k])),
            decreases self.lines@.len() - i,
        {
            match &self.lines[i] {
                LineResult::Line(l) => {
                    if l.contains_transformed() {
                        assert(entry_transformed(entry_model(self.lines@[i as int])));
                        return true;
                    }
                },
                LineResult::Separator => {},
            }
            i = i + 1;
        }
        false
    }
}

} // verus!
