//! A bounded window over the logical line sequence formed by all archived
//! segments, oldest first, followed by the live segment.
use vstd::prelude::*;
use crate::segments::{lines_view, LiveLogFile, RotatedLogFile};

verus! {

/// Which way a window moves: toward older lines or toward newer ones.
#[derive(Debug, Clone, Copy, PartialEq, Eq, Structural)]
pub enum ShiftDirection {
    Left,
    Right,
}

/// The lines of the archived segments, concatenated in creation order.
pub open spec fn archived_lines(segs: Seq<RotatedLogFile>) -> Seq<Seq<char>>
    decreases segs.len(),
{
    if segs.len() == 0 {
        Seq::empty()
    } else {
        segs[0].lines_view() + archived_lines(segs.drop_first())
    }
}

/// Path of the archived segment that holds the line at `off`, counted from
/// the first archived line.
pub open spec fn archived_path_at(segs: Seq<RotatedLogFile>, off: int) -> Seq<char>
    decreases segs.len(),
{
    if segs.len() == 0 {
        Seq::empty()
    } else if off < segs[0].lines_view().len() {
        segs[0].path_view()
    } else {
        archived_path_at(segs.drop_first(), off - segs[0].lines_view().len())
    }
}

/// Lines joined by line breaks, with none after the last.
pub open spec fn joined(lines: Seq<Seq<char>>) -> Seq<char>
    decreases lines.len(),
{
    if lines.len() == 0 {
        Seq::empty()
    } else if lines.len() == 1 {
        lines[0]
    } else {
        joined(lines.drop_last()) + seq!['\n'] + lines.last()
    }
}

pub open spec fn clamp(x: int, lo: int, hi: int) -> int {
    if x < lo {
        lo
    } else if x > hi {
        hi
    } else {
        x
    }
}

pub open spec fn max(a: int, b: int) -> int {
    if a < b { b } else { a }
}

pub open spec fn min(a: int, b: int) -> int {
    if a < b { a } else { b }
}

/// The half-open range `[start, stop)` that a shift produces, given the
/// available range `[lo, hi)` and the current window `[start, stop)`.
/// A left shift anchors the window at its end, a right shift at its start;
/// both stop at the edges of the available lines.
pub open spec fn shifted_range(
    lo: int,
    hi: int,
    start: int,
    stop: int,
    direction: ShiftDirection,
    shift_len: int,
    window_size: int,
) -> (int, int) {
    match direction {
        ShiftDirection::Left => {
            let e = clamp(stop - shift_len, lo, hi);
            (max(lo, e - window_size), e)
        },
        ShiftDirection::Right => {
            let s = clamp(start + shift_len, lo, hi);
            (s, min(hi, s + window_size))
        },
    }
}

/// A shift never leaves the available lines and never holds more than the
/// requested number of them. A left shift yields the tail of the requested
/// range `[stop - shift_len - window_size, stop - shift_len)` that is
/// available, a right shift the head of `[start + shift_len, start +
/// shift_len + window_size)`; where that range is wholly available, the
/// window is exactly it, and where it lies wholly outside, the window is empty.
pub proof fn lemma_shift_clamps(
    lo: int,
    hi: int,
    start: int,
    stop: int,
    direction: ShiftDirection,
    shift_len: int,
    window_size: int,
)
    requires
        lo <= start <= stop <= hi,
        shift_len >= 0,
        window_size >= 0,
    ensures
        ({
            let (s, e) = shifted_range(lo, hi, start, stop, direction, shift_len, window_size);
            &&& lo <= s <= e <= hi
            &&& e - s <= window_size
            &&& direction == ShiftDirection::Left ==> {
                let want_end = stop - shift_len;
                &&& want_end >= lo ==> e == want_end && s == max(lo, want_end - window_size)
                &&& want_end < lo ==> s == lo && e == lo
                &&& want_end - window_size >= lo ==> e - s == window_size
            }
            &&& direction == ShiftDirection::Right ==> {
                let want_start = start + shift_len;
                &&& want_start <= hi ==> s == want_start && e == min(hi, want_start + window_size)
                &&& want_start > hi ==> s == hi && e == hi
                &&& want_start + window_size <= hi ==> e - s == window_size
            }
        }),
{
}

/// Owns the segments of a log, oldest archive first and the live file last,
/// and a window of materialised lines over their concatenation.
pub struct LogRegistry {
    archived: Vec<RotatedLogFile>,
    live: LiveLogFile,
    first_index: u64,
    num_archived_lines: u64,
    start: u64,
    stop: u64,
    window: Vec<String>,
}

impl LogRegistry {
    /// Every line currently held by a segment, oldest first.
    pub closed spec fn all_lines(&self) -> Seq<Seq<char>> {
        archived_lines(self.archived@) + self.live.lines_view()
    }

    /// Logical index of the oldest retained line.
    pub closed spec fn lo(&self) -> int {
        self.first_index as int
    }

    /// One past the logical index of the newest line.
    pub open spec fn hi(&self) -> int {
        self.lo() + self.all_lines().len()
    }

    /// The line at logical index `i`.
    pub open spec fn line_at(&self, i: int) -> Seq<char> {
        self.all_lines()[i - self.lo()]
    }

    /// First logical index of the window.
    pub closed spec fn window_start(&self) -> int {
        self.start as int
    }

    /// One past the last logical index of the window.
    pub closed spec fn window_stop(&self) -> int {
        self.stop as int
    }

    /// The materialised lines of the window.
    pub closed spec fn window_lines(&self) -> Seq<Seq<char>> {
        lines_view(self.window@)
    }

    pub closed spec fn live_path(&self) -> Seq<char> {
        self.live.path_view()
    }

    /// Path of the most recently archived segment.
    pub closed spec fn newest_archive_path(&self) -> Seq<char> {
        self.archived@.last().path_view()
    }

    pub closed spec fn num_archived(&self) -> nat {
        self.archived@.len()
    }

    /// Path of the segment that holds the line at logical index `i`; the live
    /// segment for any index past the archived lines.
    pub closed spec fn path_at(&self, i: int) -> Seq<char> {
        let off = i - self.lo();
        if off < archived_lines(self.archived@).len() {
            archived_path_at(self.archived@, off)
        } else {
            self.live.path_view()
        }
    }

    /// The segments and the counts kept of them agree.
    closed spec fn store_wf(&self) -> bool {
        &&& self.num_archived_lines == archived_lines(self.archived@).len()
        &&& self.hi() <= u64::MAX
    }

    pub closed spec fn wf(&self) -> bool {
        &&& self.store_wf()
        &&& self.lo() <= self.start <= self.stop <= self.hi()
        &&& lines_view(self.window@) == self.all_lines().subrange(
            self.start - self.lo(),
            self.stop - self.lo(),
        )
    }

    /// Positions already present keep their content in `self`: the view
    /// only ever grows at its tail or loses lines at its head.
    pub open spec fn keeps_lines_of(&self, earlier: &Self) -> bool {
        &&& self.lo() >= earlier.lo()
        &&& self.hi() >= earlier.hi()
        &&& forall|i: int|
            self.lo() <= i < earlier.hi() ==> #[trigger] self.line_at(i) == earlier.line_at(i)
    }

    /// Content read at a logical position stays the same over any series of
    /// appends, rotations and prunings: keeping the lines of an earlier state
    /// carries from one step to the next.
    pub proof fn lemma_keeps_lines_transitive(a: &Self, b: &Self, c: &Self)
        requires
            b.keeps_lines_of(a),
            c.keeps_lines_of(b),
        ensures
            c.keeps_lines_of(a),
    {
        assert forall|i: int| c.lo() <= i < a.hi() implies #[trigger] c.line_at(i) == a.line_at(i) by {
            assert(c.line_at(i) == b.line_at(i));
            assert(b.line_at(i) == a.line_at(i));
        }
    }

    /// The window lines are the stored lines of the window's range.
    pub proof fn lemma_window_is_stored(&self)
        requires
            self.wf(),
        ensures
            self.lo() <= self.window_start() <= self.window_stop() <= self.hi(),
            self.window_lines().len() == self.window_stop() - self.window_start(),
            forall|k: int|
                0 <= k < self.window_lines().len() ==> #[trigger] self.window_lines()[k] == self.line_at(
                    self.window_start() + k,
                ),
    {
    }

    /// A registry tailing a live file at `live_path` whose current content is
    /// `lines`; the window starts empty at the end of the lines.
    pub fn new(live_path: String, lines: Vec<String>) -> (r: Self)
        ensures
            r.wf(),
            r.lo() == 0,
            r.all_lines() == lines_view(lines@),
            r.live_path() == live_path@,
            r.num_archived() == 0,
            r.window_start() == r.hi(),
            r.window_stop() == r.hi(),
    {
        let mut live = LiveLogFile::new(live_path);
        live.extend(lines);
        let n = live.num_lines() as u64;
        let r = LogRegistry {
            archived: Vec::new(),
            live,
            first_index: 0,
            num_archived_lines: 0,
            start: n,
            stop: n,
            window: Vec::new(),
        };
        assert(archived_lines(r.archived@) =~= Seq::<Seq<char>>::empty());
        assert(r.all_lines() =~= lines_view(lines@));
        assert(lines_view(r.window@) =~= r.all_lines().subrange(n as int, n as int));
        r
    }

    proof fn lemma_archived_push(segs: Seq<RotatedLogFile>, seg: RotatedLogFile)
        ensures
            archived_lines(segs.push(seg)) == archived_lines(segs) + seg.lines_view(),
        decreases segs.len(),
    {
        if segs.len() == 0 {
            assert(segs.push(seg).drop_first() =~= Seq::<RotatedLogFile>::empty());
            assert(segs.push(seg)[0] == seg);
            assert(archived_lines(Seq::<RotatedLogFile>::empty()) == Seq::<Seq<char>>::empty());
            assert(archived_lines(segs.push(seg)) =~= archived_lines(segs) + seg.lines_view());
        } else {
            Self::lemma_archived_push(segs.drop_first(), seg);
            assert(segs.push(seg).drop_first() =~= segs.drop_first().push(seg));
            assert(segs.push(seg)[0] == segs[0]);
            assert(archived_lines(segs.push(seg)) == segs[0].lines_view() + archived_lines(
                segs.drop_first().push(seg),
            ));
            assert(archived_lines(segs.push(seg)) =~= archived_lines(segs) + seg.lines_view());
        }
    }

    /// Locates the archived line at offset `off`: the segment that holds it
    /// and the position inside that segment.
    fn locate(&self, off: u64) -> (r: (usize, usize))
        requires
            self.store_wf(),
            off < self.num_archived_lines,
        ensures
            r.0 < self.archived@.len(),
            r.1 < self.archived@[r.0 as int].lines_view().len(),
            self.archived@[r.0 as int].lines_view()[r.1 as int] == archived_lines(self.archived@)[off as int],
            self.archived@[r.0 as int].path_view() == archived_path_at(self.archived@, off as int),
    {
        let ghost segs = self.archived@;
        let mut j: usize = 0;
        let mut rem: u64 = off;
        assert(segs.subrange(0, segs.len() as int) =~= segs);
        while j < self.archived.len()
            invariant
                self.store_wf(),
                segs == self.archived@,
                off < archived_lines(segs).len(),
                j <= segs.len(),
                rem < archived_lines(segs.subrange(j as int, segs.len() as int)).len(),
                archived_lines(segs.subrange(j as int, segs.len() as int))[rem as int] == archived_lines(segs)[off as int],
                archived_path_at(segs.subrange(j as int, segs.len() as int), rem as int)
                    == archived_path_at(segs, off as int),
            decreases segs.len() - j,
        {
            let ghost rest = segs.subrange(j as int, segs.len() as int);
            assert(rest.drop_first() =~= segs.subrange(j + 1, segs.len() as int));
            assert(rest[0] == segs[j as int]);
            let n = self.archived[j].num_lines();
            if rem < n as u64 {
                return (j, rem as usize);
            }
            rem = rem - n as u64;
            j = j + 1;
        }
        assert(segs.subrange(j as int, segs.len() as int) =~= Seq::<RotatedLogFile>::empty());
        (0, 0)
    }

    /// The line at offset `off` from the oldest retained line.
    fn fetch(&self, off: u64) -> (r: String)
        requires
            self.store_wf(),
            off < self.all_lines().len(),
        ensures
            r@ == self.all_lines()[off as int],
    {
        if off < self.num_archived_lines {
            let (j, i) = self.locate(off);
            assert(self.all_lines()[off as int] == archived_lines(self.archived@)[off as int]);
            self.archived[j].line(i)
        } else {
            let i = off - self.num_archived_lines;
            let n = self.live.num_lines();
            assert(i < n);
            assert(self.all_lines()[off as int] == self.live.lines_view()[i as int]);
            self.live.line(i as usize)
        }
    }

    /// Number of lines currently held by all segments.
    fn total_lines(&self) -> (r: u64)
        requires
            self.store_wf(),
        ensures
            r == self.all_lines().len(),
    {
        self.num_archived_lines + self.live.num_lines() as u64
    }

    /// Copies the lines of the logical range `[s, e)` out of the segments.
    fn materialize(&self, s: u64, e: u64) -> (r: Vec<String>)
        requires
            self.store_wf(),
            self.lo() <= s <= e <= self.hi(),
        ensures
            lines_view(r@) == self.all_lines().subrange(s - self.lo(), e - self.lo()),
    {
        let mut out: Vec<String> = Vec::new();
        let mut k: u64 = s;
        while k < e
            invariant
                self.store_wf(),
                self.lo() <= s <= k <= e <= self.hi(),
                lines_view(out@) == self.all_lines().subrange(s - self.lo(), k - self.lo()),
            decreases e - k,
        {
            let line = self.fetch(k - self.first_index);
            let ghost prev = out@;
            out.push(line);
            assert(lines_view(out@) =~= lines_view(prev).push(self.all_lines()[k - self.lo()]));
            assert(lines_view(out@) =~= self.all_lines().subrange(s - self.lo(), k + 1 - self.lo()));
            k = k + 1;
        }
        out
    }

    /// Moves the window by `shift_len` lines in `direction` and resizes it to
    /// at most `window_size_lines`, loading the lines of the new range and
    /// dropping the others. Returns the number of lines now in the window.
    pub fn shift(&mut self, direction: ShiftDirection, shift_len: usize, window_size_lines: usize) -> (r: usize)
        requires
            old(self).wf(),
        ensures
            final(self).wf(),
            final(self).all_lines() == old(self).all_lines(),
            final(self).lo() == old(self).lo(),
            final(self).live_path() == old(self).live_path(),
            final(self).num_archived() == old(self).num_archived(),
            (final(self).window_start(), final(self).window_stop()) == shifted_range(
                old(self).lo(),
                old(self).hi(),
                old(self).window_start(),
                old(self).window_stop(),
                direction,
                shift_len as int,
                window_size_lines as int,
            ),
            final(self).window_lines() == old(self).all_lines().subrange(
                final(self).window_start() - old(self).lo(),
                final(self).window_stop() - old(self).lo(),
            ),
            r == final(self).window_stop() - final(self).window_start(),
    {
        let lo = self.first_index;
        let hi = lo + self.total_lines();
        let shift = shift_len as u64;
        let size = window_size_lines as u64;
        let (s, e) = match direction {
            ShiftDirection::Left => {
                let e = if shift >= self.stop - lo {
                    lo
                } else {
                    self.stop - shift
                };
                let s = if size >= e - lo {
                    lo
                } else {
                    e - size
                };
                (s, e)
            },
            ShiftDirection::Right => {
                let s = if shift >= hi - self.start {
                    hi
                } else {
                    self.start + shift
                };
                let e = if size >= hi - s {
                    hi
                } else {
                    s + size
                };
                (s, e)
            },
        };
        self.window = self.materialize(s, e);
        self.start = s;
        self.stop = e;
        (e - s) as usize
    }

    /// The lines of the window, oldest first.
    pub fn render(&self) -> (r: Vec<String>)
        requires
            self.wf(),
        ensures
            lines_view(r@) == self.window_lines(),
    {
        let mut out: Vec<String> = Vec::new();
        let mut i: usize = 0;
        while i < self.window.len()
            invariant
                i <= self.window@.len(),
                lines_view(out@) == lines_view(self.window@.take(i as int)),
            decreases self.window@.len() - i,
        {
            let ghost prev = out@;
            out.push(self.window[i].clone());
            assert(lines_view(out@) =~= lines_view(prev).push(self.window@[i as int]@));
            assert(lines_view(self.window@.take(i + 1)) =~= lines_view(self.window@.take(i as int)).push(
                self.window@[i as int]@,
            ));
            i = i + 1;
        }
        assert(self.window@.take(i as int) =~= self.window@);
        out
    }

    /// Path of the segment that anchors the view: the one holding the first
    /// line of the window, or the live file when the window is at the tail.
    pub fn file_path(&self) -> (r: String)
        requires
            self.wf(),
        ensures
            r@ == self.path_at(self.window_start()),
    {
        let off = self.start - self.first_index;
        if off < self.num_archived_lines {
            let (j, _) = self.locate(off);
            self.archived[j].file_path()
        } else {
            self.live.file_path()
        }
    }

    /// Takes in lines appended to the live file since it was last read. The
    /// window keeps its range and content.
    pub fn append_live(&mut self, lines: Vec<String>)
        requires
            old(self).wf(),
            old(self).hi() + lines@.len() <= u64::MAX,
        ensures
            final(self).wf(),
            final(self).lo() == old(self).lo(),
            final(self).all_lines() == old(self).all_lines() + lines_view(lines@),
            final(self).live_path() == old(self).live_path(),
            final(self).num_archived() == old(self).num_archived(),
            final(self).window_start() == old(self).window_start(),
            final(self).window_stop() == old(self).window_stop(),
            final(self).window_lines() == old(self).window_lines(),
            final(self).keeps_lines_of(old(self)),
    {
        self.live.extend(lines);
        assert(self.all_lines() =~= old(self).all_lines() + lines_view(lines@));
        assert(self.all_lines().subrange(self.start - self.lo(), self.stop - self.lo())
            =~= old(self).all_lines().subrange(self.start - self.lo(), self.stop - self.lo()));
    }

    /// The live file was rotated out to `archived_path`: what was read of it
    /// becomes the newest archived segment, at the same logical positions, and
    /// an empty live file at `new_live_path` follows it.
    pub fn rotate_live(&mut self, archived_path: String, new_live_path: String)
        requires
            old(self).wf(),
        ensures
            final(self).wf(),
            final(self).lo() == old(self).lo(),
            final(self).all_lines() == old(self).all_lines(),
            final(self).live_path() == new_live_path@,
            final(self).num_archived() == old(self).num_archived() + 1,
            final(self).newest_archive_path() == archived_path@,
            final(self).window_start() == old(self).window_start(),
            final(self).window_stop() == old(self).window_stop(),
            final(self).window_lines() == old(self).window_lines(),
            final(self).keeps_lines_of(old(self)),
    {
        let mut current = LiveLogFile::new(new_live_path);
        std::mem::swap(&mut self.live, &mut current);
        let n = current.num_lines();
        let rotated = current.into_rotated(archived_path);
        let ghost old_archived = self.archived@;
        proof {
            Self::lemma_archived_push(old_archived, rotated);
        }
        self.archived.push(rotated);
        self.num_archived_lines = self.num_archived_lines + n as u64;
        assert(self.all_lines() =~= old(self).all_lines());
    }

    /// Drops the oldest archived segment, if there is one, from the view:
    /// its lines leave the head of the logical range and the window is
    /// clamped to what is left.
    pub fn prune_oldest(&mut self) -> (r: bool)
        requires
            old(self).wf(),
        ensures
            final(self).wf(),
            r == (old(self).num_archived() > 0),
            !r ==> *final(self) == *old(self),
            r ==> final(self).num_archived() == old(self).num_archived() - 1,
            final(self).hi() == old(self).hi(),
            final(self).all_lines() == old(self).all_lines().subrange(
                final(self).lo() - old(self).lo(),
                old(self).all_lines().len() as int,
            ),
            final(self).live_path() == old(self).live_path(),
            final(self).window_start() == max(old(self).window_start(), final(self).lo()),
            final(self).window_stop() == max(old(self).window_stop(), final(self).lo()),
            final(self).keeps_lines_of(old(self)),
    {
        if self.archived.len() == 0 {
            assert(old(self).all_lines().subrange(0, old(self).all_lines().len() as int) =~= old(self).all_lines());
            return false;
        }
        let ghost old_archived = self.archived@;
        let oldest = self.archived.remove(0);
        let n = oldest.num_lines() as u64;
        assert(self.archived@ =~= old_archived.drop_first());
        assert(archived_lines(old_archived) == oldest.lines_view() + archived_lines(self.archived@));
        self.first_index = self.first_index + n;
        self.num_archived_lines = self.num_archived_lines - n;
        assert(self.all_lines() =~= old(self).all_lines().subrange(n as int, old(self).all_lines().len() as int));
        if self.start < self.first_index {
            self.start = self.first_index;
        }
        if self.stop < self.first_index {
            self.stop = self.first_index;
        }
        self.window = self.materialize(self.start, self.stop);
        true
    }

    /// Number of lines held by all segments.
    pub fn num_lines(&self) -> (r: u64)
        requires
            self.wf(),
        ensures
            r == self.all_lines().len(),
    {
        self.total_lines()
    }

    /// Logical index of the oldest line still held.
    pub fn first_index(&self) -> (r: u64)
        ensures
            r == self.lo(),
    {
        self.first_index
    }

    /// Appends the window's lines to `buffer`, separated by line breaks.
    pub fn write(&self, buffer: &mut String)
        requires
            self.wf(),
        ensures
            final(buffer)@ == old(buffer)@ + joined(self.window_lines()),
    {
        let mut i: usize = 0;
        while i < self.window.len()
            invariant
                i <= self.window@.len(),
                buffer@ == old(buffer)@ + joined(lines_view(self.window@).take(i as int)),
            decreases self.window@.len() - i,
        {
            if i > 0 {
                buffer.append("\n");
            }
            buffer.append(self.window[i].as_str());
            let ghost t = lines_view(self.window@).take(i + 1);
            assert(t.drop_last() =~= lines_view(self.window@).take(i as int));
            assert(t.len() == i + 1);
            assert(t.last() == self.window@[i as int]@);
            proof {
                reveal_strlit("\n");
            }
            assert("\n"@ =~= seq!['\n']);
            if i == 0 {
                assert(joined(t) == t[0]);
            } else {
                assert(joined(t) == joined(t.drop_last()) + seq!['\n'] + t.last());
            }
            assert(buffer@ =~= old(buffer)@ + joined(lines_view(self.window@).take(i + 1)));
            i = i + 1;
        }
        assert(lines_view(self.window@).take(i as int) =~= lines_view(self.window@));
    }

    /// Reads the line at logical index `index` again, if it is still held.
    pub fn line(&self, index: u64) -> (r: Option<String>)
        requires
            self.wf(),
        ensures
            r is Some <==> self.lo() <= index < self.hi(),
            r matches Some(l) ==> l@ == self.line_at(index as int),
    {
        if index < self.first_index || index - self.first_index >= self.total_lines() {
            None
        } else {
            Some(self.fetch(index - self.first_index))
        }
    }
}

} // verus!
