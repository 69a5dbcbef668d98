//! Physical log segments: the live file that is still growing and the
//! archived files that rotation left behind.
use vstd::prelude::*;

verus! {

/// The lines of a segment, as character sequences.
pub open spec fn lines_view(lines: Seq<String>) -> Seq<Seq<char>> {
    lines.map_values(|l: String| l@)
}

/// The log file currently being appended to. Its content only grows.
pub struct LiveLogFile {
    path: String,
    lines: Vec<String>,
}

/// A log file that rotation moved aside. Its content never changes.
pub struct RotatedLogFile {
    path: String,
    lines: Vec<String>,
}

impl LiveLogFile {
    pub closed spec fn path_view(&self) -> Seq<char> {
        self.path@
    }

    pub closed spec fn lines_view(&self) -> Seq<Seq<char>> {
        lines_view(self.lines@)
    }

    /// A live segment at `file_path` of which nothing has been read yet.
    pub fn new(file_path: String) -> (r: Self)
        ensures
            r.path_view() == file_path@,
            r.lines_view() == Seq::<Seq<char>>::empty(),
    {
        let r = LiveLogFile { path: file_path, lines: Vec::new() };
        assert(r.lines_view() =~= Seq::<Seq<char>>::empty());
        r
    }

    pub fn file_path(&self) -> (r: String)
        ensures
            r@ == self.path_view(),
    {
        self.path.clone()
    }

    pub fn num_lines(&self) -> (r: usize)
        ensures
            r == self.lines_view().len(),
    {
        self.lines.len()
    }

    /// The line at `i`, counted from the start of this file.
    pub fn line(&self, i: usize) -> (r: String)
        requires
            i < self.lines_view().len(),
        ensures
            r@ == self.lines_view()[i as int],
    {
        self.lines[i].clone()
    }

    /// Takes in lines that were appended to the file since the last read.
    pub fn extend(&mut self, new_lines: Vec<String>)
        ensures
            final(self).path_view() == old(self).path_view(),
            final(self).lines_view() == old(self).lines_view() + lines_view(new_lines@),
    {
        let mut i: usize = 0;
        while i < new_lines.len()
            invariant
                i <= new_lines@.len(),
                self.path_view() == old(self).path_view(),
                self.lines_view() == old(self).lines_view() + lines_view(new_lines@.take(i as int)),
            decreases new_lines@.len() - i,
        {
            let l = new_lines[i].clone();
            let ghost prev = self.lines@;
            self.lines.push(l);
            assert(lines_view(self.lines@) =~= lines_view(prev).push(new_lines@[i as int]@));
            assert(lines_view(new_lines@.take(i + 1)) =~= lines_view(new_lines@.take(i as int)).push(
                new_lines@[i as int]@,
            ));
            assert(new_lines@.take(i + 1) =~= new_lines@.take(i as int).push(new_lines@[i as int]));
            assert(self.lines_view() =~= old(self).lines_view() + lines_view(new_lines@.take(i + 1)));
            i = i + 1;
        }
        assert(new_lines@.take(new_lines@.len() as int) =~= new_lines@);
    }

    /// Closes this segment as an archive now stored at `archived_path`.
    pub fn into_rotated(self, archived_path: String) -> (r: RotatedLogFile)
        ensures
            r.path_view() == archived_path@,
            r.lines_view() == self.lines_view(),
    {
        RotatedLogFile { path: archived_path, lines: self.lines }
    }
}

impl RotatedLogFile {
    pub closed spec fn path_view(&self) -> Seq<char> {
        self.path@
    }

    pub closed spec fn lines_view(&self) -> Seq<Seq<char>> {
        lines_view(self.lines@)
    }

    /// An archived segment stored at `file_path` with the given content.
    pub fn new(file_path: String, lines: Vec<String>) -> (r: Self)
        ensures
            r.path_view() == file_path@,
            r.lines_view() == lines_view(lines@),
    {
        RotatedLogFile { path: file_path, lines }
    }

    pub fn file_path(&self) -> (r: String)
        ensures
            r@ == self.path_view(),
    {
        self.path.clone()
    }

    pub fn num_lines(&self) -> (r: usize)
        ensures
            r == self.lines_view().len(),
    {
        self.lines.len()
    }

    /// The line at `i`, counted from the start of this file.
    pub fn line(&self, i: usize) -> (r: String)
        requires
            i < self.lines_view().len(),
        ensures
            r@ == self.lines_view()[i as int],
    {
        self.lines[i].clone()
    }
}

} // verus!
