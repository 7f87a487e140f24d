//! The source viewport: one file's text with overlap-level highlights,
//! a buffer cursor, and a scroll offset kept in step with it.

use crate::loc_file::{spec_contains_point, Loc};
use crate::text::{spec_lines, split_lines};
use vstd::prelude::*;

verus! {

/// The overlap level of the 1-indexed point `(line, col)`: how many of
/// the ranges contain it.
pub open spec fn spec_overlap_level(hs: Seq<Loc>, line: int, col: int) -> nat
    decreases hs.len(),
{
    if hs.len() == 0 {
        0
    } else {
        spec_overlap_level(hs.drop_last(), line, col) + if spec_contains_point(
            hs.last(),
            line,
            col,
        ) {
            1nat
        } else {
            0nat
        }
    }
}

/// Removing any one highlight range cannot increase the overlap level
/// anywhere.
pub proof fn lemma_level_remove_monotone(hs: Seq<Loc>, i: int, line: int, col: int)
    requires
        0 <= i < hs.len(),
    ensures
        spec_overlap_level(hs.remove(i), line, col) <= spec_overlap_level(hs, line, col),
    decreases hs.len(),
{
    if i == hs.len() - 1 {
        assert(hs.remove(i) =~= hs.drop_last());
    } else {
        lemma_level_remove_monotone(hs.drop_last(), i, line, col);
        assert(hs.remove(i).drop_last() =~= hs.drop_last().remove(i));
        assert(hs.remove(i).last() == hs.last());
    }
}

/// The overlap level of the point, counted over the ranges.
pub fn overlap_level_at(hs: &Vec<Loc>, line: usize, col: usize) -> (r: usize)
    ensures
        r == spec_overlap_level(hs@, line as int, col as int),
{
    let mut cnt: usize = 0;
    let mut i: usize = 0;
    proof {
        assert(hs@.subrange(0, 0) =~= Seq::<Loc>::empty());
    }
    while i < hs.len()
        invariant
            i <= hs@.len(),
            cnt <= i,
            cnt == spec_overlap_level(hs@.subrange(0, i as int), line as int, col as int),
        decreases hs@.len() - i,
    {
        proof {
            assert(hs@.subrange(0, i + 1).drop_last() =~= hs@.subrange(0, i as int));
            assert(hs@.subrange(0, i + 1).last() == hs@[i as int]);
        }
        if hs[i].contains_point(line, col) {
            cnt += 1;
        }
        i += 1;
    }
    proof {
        assert(hs@.subrange(0, hs@.len() as int) =~= hs@);
    }
    cnt
}

/// The number of characters on the `row`-th (0-indexed) line of `s`;
/// 0 beyond the last line.
pub open spec fn spec_line_len(s: Seq<char>, row: int) -> nat {
    let lines = spec_lines(s);
    if 0 <= row < lines.len() {
        lines[row].len()
    } else {
        0
    }
}

/// The number of characters on the `row`-th (0-indexed) line.
pub fn line_char_count(content: &str, row: usize) -> (r: usize)
    ensures
        r == spec_line_len(content@, row as int),
{
    let lines = split_lines(content);
    proof {
        assert(forall|k: int|
            0 <= k < lines@.len() ==> (#[trigger] lines@[k]@) == spec_lines(content@)[k]);
    }
    if row < lines.len() {
        lines[row].as_str().unicode_len()
    } else {
        0
    }
}

/// The line length clamped to the cursor's range.
pub open spec fn spec_clamped_len(ll: nat) -> int {
    if ll < u16::MAX {
        ll as int
    } else {
        u16::MAX as int
    }
}

/// The column after one step left: 0 stays 0; otherwise the column is
/// first clamped to the line (an empty line counting one column) and
/// then moved back one.
pub open spec fn spec_left_col(col: u16, llc: int) -> int {
    if col == 0 {
        0
    } else {
        let cap: int = if llc == 0 {
            1
        } else {
            llc
        };
        let capped: int = if (col as int) < cap {
            col as int
        } else {
            cap
        };
        capped - 1
    }
}

/// The column after one step right: 0 on an empty line; otherwise the
/// column is clamped to the line and moved forward one, saturating at
/// the cursor's range.
pub open spec fn spec_right_col(col: u16, llc: int) -> int {
    if llc == 0 {
        0
    } else {
        let b: int = if llc < col as int {
            llc
        } else {
            col as int
        };
        if b < u16::MAX {
            b + 1
        } else {
            u16::MAX as int
        }
    }
}

/// The buffer cursor after one movement step, as `(col, row)`: where
/// the cursor stands after `move_cursor` is applied to `sv`.
pub open spec fn spec_moved_cursor(sv: SourceView, m: Direction) -> (int, int) {
    match sv.content {
        None => (sv.cursor.0 as int, sv.cursor.1 as int),
        Some(c) => {
            let llc = spec_clamped_len(spec_line_len(c@, sv.cursor.1 as int));
            match m {
                Direction::Up => (
                    sv.cursor.0 as int,
                    if sv.cursor.1 > 0 {
                        sv.cursor.1 - 1
                    } else {
                        0
                    },
                ),
                Direction::Down => (
                    sv.cursor.0 as int,
                    if sv.cursor.1 < u16::MAX {
                        sv.cursor.1 + 1
                    } else {
                        u16::MAX as int
                    },
                ),
                Direction::Left => (spec_left_col(sv.cursor.0, llc), sv.cursor.1 as int),
                Direction::Right => (spec_right_col(sv.cursor.0, llc), sv.cursor.1 as int),
            }
        },
    }
}

/// One run of consecutive characters that share an overlap level.
pub struct Segment {
    pub text: String,
    pub level: usize,
}

/// One rendered line: its 1-based number for the gutter, and its text
/// split into maximal same-level runs.
pub struct RenderedLine {
    pub number: usize,
    pub segments: Vec<Segment>,
}

/// The text of the segments, concatenated.
pub open spec fn spec_seg_text(segs: Seq<Segment>) -> Seq<char>
    decreases segs.len(),
{
    if segs.len() == 0 {
        Seq::empty()
    } else {
        spec_seg_text(segs.drop_last()) + segs.last().text@
    }
}

/// What a correct segmentation of one line looks like: the segments
/// concatenate back to the line; none is empty; neighbours differ in
/// level; and each segment's level is the overlap level of every one
/// of its characters, at the character's 1-indexed line position.
pub open spec fn spec_line_render_ok(
    segs: Seq<Segment>,
    line: Seq<char>,
    number: int,
    hs: Seq<Loc>,
) -> bool {
    &&& spec_seg_text(segs) == line
    &&& forall|s: int| 0 <= s < segs.len() ==> (#[trigger] segs[s].text@).len() > 0
    &&& forall|s: int| 0 <= s < segs.len() - 1 ==> #[trigger] segs[s].level != segs[s + 1].level
    &&& forall|s: int, p: int|
        #![trigger segs[s].level, spec_overlap_level(hs, number, p)]
        (0 <= s < segs.len() && spec_seg_text(segs.subrange(0, s)).len() < p <= spec_seg_text(
            segs.subrange(0, s + 1),
        ).len()) ==> segs[s].level == spec_overlap_level(hs, number, p)
}

/// Splits one line into maximal runs of equal overlap level. The
/// position handed to the containment rule is 1-indexed within the
/// line, exactly as the point queries hand it.
pub fn render_line(line: &str, number: usize, highlights: &Vec<Loc>) -> (r: Vec<Segment>)
    ensures
        spec_line_render_ok(r@, line@, number as int, highlights@),
{
    let n = line.unicode_len();
    let mut segs: Vec<Segment> = Vec::new();
    let mut acc = String::new();
    let mut cur_level: usize = 0;
    let mut k: usize = 0;
    while k < n
        invariant
            k <= n,
            n == line@.len(),
            spec_seg_text(segs@) + acc@ == line@.subrange(0, k as int),
            k == 0 ==> segs@.len() == 0 && acc@.len() == 0,
            k > 0 ==> acc@.len() > 0,
            acc@.len() == k - spec_seg_text(segs@).len(),
            forall|p: int|
                #![trigger spec_overlap_level(highlights@, number as int, p)]
                (spec_seg_text(segs@).len() < p <= k) ==> cur_level == spec_overlap_level(
                    highlights@,
                    number as int,
                    p,
                ),
            forall|s: int| 0 <= s < segs@.len() ==> (#[trigger] segs@[s].text@).len() > 0,
            forall|s: int|
                0 <= s < segs@.len() - 1 ==> #[trigger] segs@[s].level != segs@[s + 1].level,
            segs@.len() > 0 && acc@.len() > 0 ==> segs@.last().level != cur_level,
            forall|s: int, p: int|
                #![trigger segs@[s].level, spec_overlap_level(highlights@, number as int, p)]
                (0 <= s < segs@.len() && spec_seg_text(segs@.subrange(0, s)).len() < p
                    <= spec_seg_text(segs@.subrange(0, s + 1)).len()) ==> segs@[s].level
                    == spec_overlap_level(highlights@, number as int, p),
        decreases n - k,
    {
        let lvl = overlap_level_at(highlights, number, k + 1);
        if k == 0 {
            cur_level = lvl;
        } else if lvl != cur_level {
            let ghost segs0 = segs@;
            let done = Segment { text: acc, level: cur_level };
            segs.push(done);
            acc = String::new();
            cur_level = lvl;
            proof {
                assert(segs@.drop_last() =~= segs0);
                assert(segs@.last().text@.len() > 0);
                assert forall|s: int, p: int|
                    #![trigger segs@[s].level, spec_overlap_level(highlights@, number as int, p)]
                    (0 <= s < segs@.len() && spec_seg_text(segs@.subrange(0, s)).len() < p
                        <= spec_seg_text(segs@.subrange(0, s + 1)).len()) implies segs@[s].level
                    == spec_overlap_level(highlights@, number as int, p) by {
                    if s < segs0.len() {
                        assert(segs@.subrange(0, s) =~= segs0.subrange(0, s));
                        assert(segs@.subrange(0, s + 1) =~= segs0.subrange(0, s + 1));
                        assert(segs@[s] == segs0[s]);
                    } else {
                        assert(segs@.subrange(0, s) =~= segs0);
                        assert(segs@.subrange(0, s + 1) =~= segs@);
                    }
                }
            }
        }
        let ghost acc0 = acc@;
        let piece = line.substring_char(k, k + 1);
        acc.append(piece);
        proof {
            assert(acc@ =~= acc0.push(line@[k as int]));
            assert(spec_seg_text(segs@) + acc@ =~= line@.subrange(0, k + 1));
        }
        k += 1;
    }
    if n > 0 {
        let ghost segs0 = segs@;
        let done = Segment { text: acc, level: cur_level };
        segs.push(done);
        proof {
            assert(segs@.drop_last() =~= segs0);
            assert(spec_seg_text(segs@) =~= line@.subrange(0, n as int));
            assert forall|s: int, p: int|
                #![trigger segs@[s].level, spec_overlap_level(highlights@, number as int, p)]
                (0 <= s < segs@.len() && spec_seg_text(segs@.subrange(0, s)).len() < p
                    <= spec_seg_text(segs@.subrange(0, s + 1)).len()) implies segs@[s].level
                == spec_overlap_level(highlights@, number as int, p) by {
                if s < segs0.len() {
                    assert(segs@.subrange(0, s) =~= segs0.subrange(0, s));
                    assert(segs@.subrange(0, s + 1) =~= segs0.subrange(0, s + 1));
                    assert(segs@[s] == segs0[s]);
                } else {
                    assert(segs@.subrange(0, s) =~= segs0);
                    assert(segs@.subrange(0, s + 1) =~= segs@);
                }
            }
        }
    }
    proof {
        assert(spec_seg_text(segs@) =~= line@.subrange(0, n as int));
        assert(line@.subrange(0, n as int) =~= line@);
    }
    segs
}

/// The number of decimal digits of `n` (one for 0).
pub open spec fn spec_digits(n: nat) -> nat
    decreases n,
{
    if n < 10 {
        1
    } else {
        1 + spec_digits(n / 10)
    }
}

/// A loose bound on the digit count, enough to rule overflow out.
proof fn lemma_digits_loose(n: nat)
    ensures
        spec_digits(n) <= n / 10 + 2,
    decreases n,
{
    if n >= 10 {
        lemma_digits_loose(n / 10);
    }
}

/// The number of decimal digits of `n`.
pub fn digit_count(n: usize) -> (r: usize)
    ensures
        r == spec_digits(n as nat),
        r >= 1,
    decreases n,
{
    if n < 10 {
        1
    } else {
        proof {
            lemma_digits_loose((n / 10) as nat);
        }
        1 + digit_count(n / 10)
    }
}

/// The text a viewport shows: the file's content, or the placeholder
/// for a file that could not be read.
pub open spec fn spec_view_text(v: SourceView) -> Seq<char> {
    match v.content {
        Some(c) => c@,
        None => "-- FILE NOT FOUND --"@,
    }
}

/// A cursor movement in the viewport.
pub enum Direction {
    Up,
    Down,
    Left,
    Right,
}

/// The viewport over one source file. `scroll` is `(row, col)`;
/// `cursor` is `(col, row)`, both 0-indexed buffer coordinates. A
/// `content` of `None` stands for a file that could not be read and is
/// rendered as a placeholder. `line_padding` is the gutter width the
/// last rendering derived from the line count.
pub struct SourceView {
    pub name: String,
    pub content: Option<String>,
    pub highlights: Vec<Loc>,
    pub scroll: (u16, u16),
    pub cursor: (u16, u16),
    pub line_padding: usize,
}

impl SourceView {
    /// An empty viewport on no file.
    pub fn new() -> (r: SourceView)
        ensures
            r.name@.len() == 0,
            r.content is None,
            r.highlights@.len() == 0,
            r.scroll == (0u16, 0u16),
            r.cursor == (0u16, 0u16),
            r.line_padding == 0,
    {
        SourceView {
            name: String::new(),
            content: None,
            highlights: Vec::new(),
            scroll: (0, 0),
            cursor: (0, 0),
            line_padding: 0,
        }
    }

    /// The buffer cursor, as `(col, row)`.
    pub fn get_cursor(&self) -> (r: (u16, u16))
        ensures
            r == self.cursor,
    {
        self.cursor
    }

    /// Places the buffer cursor at `target`, given as `(col, row)`.
    pub fn move_to(&mut self, target: (u16, u16))
        ensures
            final(self).cursor == target,
            final(self).name == old(self).name,
            final(self).content == old(self).content,
            final(self).highlights == old(self).highlights,
            final(self).scroll == old(self).scroll,
            final(self).line_padding == old(self).line_padding,
    {
        self.cursor = target;
    }

    /// Jumps the cursor to the first line, keeping the column.
    pub fn move_to_start(&mut self)
        ensures
            final(self).cursor == (old(self).cursor.0, 0u16),
            final(self).name == old(self).name,
            final(self).content == old(self).content,
            final(self).highlights == old(self).highlights,
            final(self).scroll == old(self).scroll,
            final(self).line_padding == old(self).line_padding,
    {
        self.cursor = (self.cursor.0, 0);
    }

    /// Jumps the cursor to the last line, keeping the column; a no-op
    /// without content. A line count past the cursor range saturates.
    pub fn move_to_end(&mut self)
        ensures
            final(self).name == old(self).name,
            final(self).content == old(self).content,
            final(self).highlights == old(self).highlights,
            final(self).scroll == old(self).scroll,
            final(self).line_padding == old(self).line_padding,
            final(self).cursor.0 == old(self).cursor.0,
            match old(self).content {
                None => final(self).cursor == old(self).cursor,
                Some(c) => {
                    let n = spec_lines(c@).len() as int;
                    final(self).cursor.1 as int == if n == 0 {
                        0
                    } else if n - 1 < u16::MAX {
                        n - 1
                    } else {
                        u16::MAX as int
                    }
                },
            },
    {
        let n = match &self.content {
            Some(c) => split_lines(c.as_str()).len(),
            None => {
                return ;
            },
        };
        let row: u16 = if n == 0 {
            0
        } else if n - 1 < u16::MAX as usize {
            (n - 1) as u16
        } else {
            u16::MAX
        };
        self.cursor = (self.cursor.0, row);
    }

    /// Moves the cursor one step. Vertical movement stops at line 0 and
    /// saturates upward (rendering clamps it later); horizontal
    /// movement is clamped to the current line: at most one past the
    /// last column, and column 0 on an empty line. A viewport without
    /// content ignores every movement.
    pub fn move_cursor(&mut self, m: Direction)
        ensures
            final(self).name == old(self).name,
            final(self).content == old(self).content,
            final(self).highlights == old(self).highlights,
            final(self).scroll == old(self).scroll,
            final(self).line_padding == old(self).line_padding,
            final(self).cursor.0 as int == spec_moved_cursor(*old(self), m).0,
            final(self).cursor.1 as int == spec_moved_cursor(*old(self), m).1,
    {
        let ll_usize = match &self.content {
            Some(c) => line_char_count(c.as_str(), self.cursor.1 as usize),
            None => {
                return ;
            },
        };
        let ll: u16 = if ll_usize < u16::MAX as usize {
            ll_usize as u16
        } else {
            u16::MAX
        };
        match m {
            Direction::Up => {
                self.cursor.1 = if self.cursor.1 > 0 {
                    self.cursor.1 - 1
                } else {
                    0
                };
            },
            Direction::Down => {
                self.cursor.1 = if self.cursor.1 < u16::MAX {
                    self.cursor.1 + 1
                } else {
                    u16::MAX
                };
            },
            Direction::Left => {
                self.cursor.0 = if self.cursor.0 == 0 {
                    0
                } else {
                    let cap = if ll == 0 {
                        1
                    } else {
                        ll
                    };
                    (if self.cursor.0 < cap {
                        self.cursor.0
                    } else {
                        cap
                    }) - 1
                };
            },
            Direction::Right => {
                self.cursor.0 = if ll == 0 {
                    0
                } else {
                    let b = if ll < self.cursor.0 {
                        ll
                    } else {
                        self.cursor.0
                    };
                    if b < u16::MAX {
                        b + 1
                    } else {
                        u16::MAX
                    }
                };
            },
        }
    }

    /// Recomputes the scroll offset so the cursor stays visible in a
    /// drawable rectangle `width` columns by `height` rows, two of each
    /// taken by borders and the gutter taking `line_padding` more: a
    /// cursor at or past the last visible row (column) advances the
    /// scroll so it becomes the last visible one; a cursor at or before
    /// the first visible row (column) pulls the scroll back to it.
    pub fn update_scroll(&mut self, width: u16, height: u16)
        requires
            height >= 3,
            old(self).line_padding + 3 <= width as int,
        ensures
            final(self).name == old(self).name,
            final(self).content == old(self).content,
            final(self).highlights == old(self).highlights,
            final(self).cursor == old(self).cursor,
            final(self).line_padding == old(self).line_padding,
            ({
                let lines_in_view = height - 2;
                let row = old(self).cursor.1 as int;
                final(self).scroll.0 as int == if row >= old(self).scroll.0 + lines_in_view {
                    row - lines_in_view + 1
                } else if row <= old(self).scroll.0 {
                    row
                } else {
                    old(self).scroll.0 as int
                }
            }),
            ({
                let cols_in_view = width - 2 - old(self).line_padding;
                let col = old(self).cursor.0 as int;
                final(self).scroll.1 as int == if col >= old(self).scroll.1 + cols_in_view {
                    col - cols_in_view + 1
                } else if col <= old(self).scroll.1 {
                    col
                } else {
                    old(self).scroll.1 as int
                }
            }),
    {
        let lines_in_view = height - 2;
        if self.cursor.1 as u32 >= self.scroll.0 as u32 + lines_in_view as u32 {
            self.scroll.0 = self.cursor.1 - lines_in_view + 1;
        } else if self.cursor.1 <= self.scroll.0 {
            self.scroll.0 = self.cursor.1;
        }
        let padding = self.line_padding as u16;
        let cols_in_view = width - 2 - padding;
        if self.cursor.0 as u32 >= self.scroll.1 as u32 + cols_in_view as u32 {
            self.scroll.1 = self.cursor.0 - cols_in_view + 1;
        } else if self.cursor.0 <= self.scroll.1 {
            self.scroll.1 = self.cursor.0;
        }
    }

    /// Renders the viewport's text — or the placeholder, when the file
    /// could not be read — line by line: each line numbered from 1 and
    /// split into maximal runs of equal overlap level against the
    /// active highlights. Records the gutter width the line count
    /// calls for (its digits and one space) in `line_padding`.
    pub fn rendered_lines(&mut self) -> (r: Vec<RenderedLine>)
        ensures
            final(self).name == old(self).name,
            final(self).content == old(self).content,
            final(self).highlights == old(self).highlights,
            final(self).scroll == old(self).scroll,
            final(self).cursor == old(self).cursor,
            ({
                let lines = spec_lines(spec_view_text(*old(self)));
                &&& final(self).line_padding == spec_digits(lines.len()) + 1
                &&& r@.len() == lines.len()
                &&& forall|j: int|
                    0 <= j < lines.len() ==> (#[trigger] r@[j]).number == j + 1
                        && spec_line_render_ok(
                        r@[j].segments@,
                        lines[j],
                        j + 1,
                        old(self).highlights@,
                    )
            }),
    {
        let text: &str = match &self.content {
            Some(c) => c.as_str(),
            None => "-- FILE NOT FOUND --",
        };
        let lines = split_lines(text);
        proof {
            assert(forall|k: int|
                0 <= k < lines@.len() ==> (#[trigger] lines@[k]@) == spec_lines(text@)[k]);
        }
        let d = digit_count(lines.len());
        proof {
            lemma_digits_loose(lines@.len());
        }
        self.line_padding = d + 1;
        let mut out: Vec<RenderedLine> = Vec::new();
        let mut j: usize = 0;
        while j < lines.len()
            invariant
                j <= lines@.len(),
                forall|k: int|
                    0 <= k < lines@.len() ==> (#[trigger] lines@[k]@) == spec_lines(text@)[k],
                lines@.len() == spec_lines(text@).len(),
                out@.len() == j,
                forall|k: int|
                    0 <= k < j ==> (#[trigger] out@[k]).number == k + 1 && spec_line_render_ok(
                        out@[k].segments@,
                        spec_lines(text@)[k],
                        k + 1,
                        self.highlights@,
                    ),
            decreases lines@.len() - j,
        {
            let segments = render_line(lines[j].as_str(), j + 1, &self.highlights);
            out.push(RenderedLine { number: j + 1, segments });
            j += 1;
        }
        out
    }

    /// The absolute screen position for the terminal's hardware cursor:
    /// the buffer cursor clamped to the current line and the visible
    /// width, kept out of the gutter, shifted by the viewport's origin
    /// `(cx, cy)`, the gutter and the scroll, and clamped to the
    /// visible height. Without content the cursor rests just right of
    /// the gutter on the first text row.
    pub fn global_cursor(&self, cx: u16, cy: u16, width: u16, height: u16) -> (r: (u16, u16))
        requires
            height >= 2,
            self.line_padding + 3 <= width as int,
            cx as int + width as int <= u16::MAX,
            cy as int + height as int <= u16::MAX,
        ensures
            ({
                let pad = self.line_padding as int;
                match self.content {
                    None => r.0 == cx + pad + 1 && r.1 == cy + 1,
                    Some(c) => {
                        let ll = spec_line_len(c@, self.cursor.1 as int);
                        let llc: int = if ll < u16::MAX {
                            ll as int
                        } else {
                            u16::MAX as int
                        };
                        let line_bounded: int = if (self.cursor.0 as int) < llc {
                            self.cursor.0 as int
                        } else {
                            llc
                        };
                        let window_bounded: int = if line_bounded < width - 2 - pad {
                            line_bounded
                        } else {
                            width - 2 - pad
                        };
                        let bounded: int = if window_bounded > 1 {
                            window_bounded
                        } else {
                            1
                        };
                        let xoff: int = if self.scroll.1 <= bounded {
                            bounded - self.scroll.1
                        } else {
                            0
                        };
                        let rel: int = if self.scroll.0 <= self.cursor.1 {
                            self.cursor.1 - self.scroll.0
                        } else {
                            0
                        };
                        let ybound: int = cy + height - 2;
                        &&& r.0 == pad + cx + xoff
                        &&& r.1 as int == if cy + rel + 1 < ybound {
                            cy + rel + 1
                        } else {
                            ybound
                        }
                    },
                }
            }),
    {
        let pad = self.line_padding as u16;
        let ll_usize = match &self.content {
            Some(c) => line_char_count(c.as_str(), self.cursor.1 as usize),
            None => {
                return (cx + pad + 1, cy + 1);
            },
        };
        let ll: u16 = if ll_usize < u16::MAX as usize {
            ll_usize as u16
        } else {
            u16::MAX
        };
        let line_bounded = if self.cursor.0 < ll {
            self.cursor.0
        } else {
            ll
        };
        let wlimit = width - 2 - pad;
        let window_bounded = if line_bounded < wlimit {
            line_bounded
        } else {
            wlimit
        };
        let bounded = if window_bounded > 1 {
            window_bounded
        } else {
            1
        };
        let xoff = if self.scroll.1 <= bounded {
            bounded - self.scroll.1
        } else {
            0
        };
        let x = pad + cx + xoff;
        let rel = if self.scroll.0 <= self.cursor.1 {
            self.cursor.1 - self.scroll.0
        } else {
            0
        };
        let y1 = cy as u32 + rel as u32 + 1;
        let y2 = cy as u32 + height as u32 - 2;
        let y = (if y1 < y2 {
            y1
        } else {
            y2
        }) as u16;
        (x, y)
    }
}

} // verus!
