use vstd::prelude::*;
use crate::commit::{join_lines, joined};
use crate::search::{lines_of, split_lines};
use crate::transform::{chars_of, string_of};
use std::ops::Range;

verus! {

/// The text with each tab made four spaces.
pub open spec fn untab4(t: Seq<char>) -> Seq<char>
    decreases t.len(),
{
    if t.len() == 0 {
        t
    } else {
        untab4(t.drop_last()) + if t.last() == '\t' { seq![' ', ' ', ' ', ' '] } else { seq![t.last()] }
    }
}

/// The lines from `start` up to `end` of a list, as many of them as there are.
pub open spec fn window(ls: Seq<Seq<char>>, start: int, end: int) -> Seq<Seq<char>> {
    let a = if start > ls.len() { ls.len() as int } else { start };
    let b = if end > ls.len() { ls.len() as int } else if end < a { a } else { end };
    ls.subrange(a, b)
}

/// A file's text as a preview shows it.
#[derive(Clone, Debug)]
pub struct FilePreview {
    file_path: String,
    text: String,
}

impl FilePreview {
    pub closed spec fn path_view(&self) -> Seq<char> {
        self.file_path@
    }

    pub closed spec fn text_view(&self) -> Seq<char> {
        self.text@
    }

    /// The preview of a file's text, read by the caller; tabs become four spaces.
    pub fn new(file_path: String, text: &str) -> (r: FilePreview)
        ensures
            r.path_view() == file_path@,
            r.text_view() == untab4(text@),
    {
        let c = chars_of(text);
        let mut out: Vec<char> = Vec::new();
        let mut i: usize = 0;
        while i < c.len()
            invariant
                i <= c@.len(),
                c@ == text@,
                out@ == untab4(text@.take(i as int)),
            decreases c@.len() - i,
        {
            assert(text@.take(i + 1).drop_last() =~= text@.take(i as int));
            let ghost before = out@;
            if c[i] == '\t' {
                out.push(' ');
                out.push(' ');
                out.push(' ');
                out.push(' ');
            } else {
                out.push(c[i]);
            }
            assert(out@ =~= untab4(text@.take(i + 1)));
            i = i + 1;
        }
        assert(text@.take(i as int) =~= text@);
        FilePreview { file_path, text: string_of(&out, 0, out.len()) }
    }

    /// The lines `range.start` up to `range.end`, joined by line feeds.
    pub fn lines(&self, range: Range<usize>) -> (r: String)
        ensures
            r@ == joined(window(lines_of(self.text_view()), range.start as int, range.end as int)),
    {
        let all = split_lines(self.text.as_str());
        let n = all.len();
        let a = if range.start > n { n } else { range.start };
        let b = if range.end > n { n } else if range.end < a { a } else { range.end };
        let mut picked: Vec<String> = Vec::new();
        let mut i: usize = a;
        while i < b
            invariant
                a <= i <= b <= all@.len(),
                picked@.map_values(|s: String| s@) == all@.map_values(|s: String| s@).subrange(a as int, i as int),
            decreases b - i,
        {
            let ghost before = picked@.map_values(|s: String| s@);
            let item = all[i].clone();
            assert(item@ == all@[i as int]@);
            picked.push(item);
            assert(picked@.map_values(|s: String| s@) =~= before.push(all@[i as int]@));
            assert(picked@.map_values(|s: String| s@) =~= all@.map_values(|s: String| s@).subrange(a as int, i + 1));
            i = i + 1;
        }
        join_lines(&picked)
    }

    /// Whether the preview shows the file at `file_path`.
    pub fn is_same_file(&self, file_path: String) -> (r: bool)
        ensures
            r == (self.path_view() == file_path@),
    {
        self.file_path.eq(&file_path)
    }
}

} // verus!
