//! The incremental renderer: composes the intended content of each dirty
//! screen row (a fixed-width line-number gutter followed by the line's display
//! text, or a placeholder row past the end of the document), compares it
//! against a cached virtual screen, and reports only the rows that actually
//! changed.  Terminal output itself is the caller's concern; the renderer
//! decides what must be written where.

use vstd::prelude::*;
use vstd::pervasive::VecAdditionalExecFns;
use vstd::string::StrSliceExecFns;
use crate::dirty::DirtyLines;
use crate::text::{line_count, line_display, EditorBuffer};

verus! {

/// The width of the right-aligned line-number column.
pub const GUTTER_WIDTH: usize = 4;

pub open spec fn digit_char(d: int) -> char {
    if d == 0 {
        '0'
    } else if d == 1 {
        '1'
    } else if d == 2 {
        '2'
    } else if d == 3 {
        '3'
    } else if d == 4 {
        '4'
    } else if d == 5 {
        '5'
    } else if d == 6 {
        '6'
    } else if d == 7 {
        '7'
    } else if d == 8 {
        '8'
    } else {
        '9'
    }
}

/// The decimal digits of `n`, most significant first.
pub open spec fn dec_digits(n: int) -> Seq<char>
    decreases n,
{
    if n < 10 {
        seq![digit_char(n)]
    } else {
        dec_digits(n / 10).push(digit_char(n % 10))
    }
}

pub open spec fn spaces(n: int) -> Seq<char>
    decreases n,
{
    if n <= 0 {
        Seq::empty()
    } else {
        spaces(n - 1).push(' ')
    }
}

/// The gutter for line `line_idx`: its one-based number right-aligned to
/// [`GUTTER_WIDTH`] columns, followed by one space.
pub open spec fn gutter_seq(line_idx: int) -> Seq<char> {
    let d = dec_digits(line_idx + 1);
    spaces(GUTTER_WIDTH - d.len()) + d + seq![' ']
}

/// The placeholder row drawn past the end of the document.
pub open spec fn tilde_row() -> Seq<char> {
    seq![' ', ' ', ' ', '~', ' ']
}

/// What screen row showing absolute line `abs_line` must display: gutter plus
/// line content inside the document, the placeholder row past its end.
pub open spec fn intended_row(s: Seq<char>, abs_line: int) -> Seq<char> {
    if abs_line < line_count(s) {
        gutter_seq(abs_line) + line_display(s, abs_line)
    } else {
        tilde_row()
    }
}

/// Greedy non-overlapping occurrences of `t` in `s` at or after `i`: each
/// match start, scanning left to right and resuming past each match.
pub open spec fn occurrences(s: Seq<char>, t: Seq<char>, i: int) -> Seq<int>
    decreases s.len() - i,
{
    if t.len() == 0 || i < 0 || i + t.len() > s.len() {
        Seq::empty()
    } else if s.subrange(i, i + t.len()) == t {
        seq![i] + occurrences(s, t, i + t.len())
    } else {
        occurrences(s, t, i + 1)
    }
}

fn digit_to_char(d: usize) -> (c: char)
    requires
        d < 10,
    ensures
        c == digit_char(d as int),
{
    match d {
        0 => '0',
        1 => '1',
        2 => '2',
        3 => '3',
        4 => '4',
        5 => '5',
        6 => '6',
        7 => '7',
        8 => '8',
        _ => '9',
    }
}

fn push_decimal(n: usize, out: &mut Vec<char>)
    ensures
        final(out)@ == old(out)@ + dec_digits(n as int),
    decreases n,
{
    if n >= 10 {
        push_decimal(n / 10, out);
    }
    out.push(digit_to_char(n % 10));
    proof {
        assert(out@ =~= old(out)@ + dec_digits(n as int));
    }
}

fn gutter_chars(line_idx: usize) -> (g: Vec<char>)
    requires
        line_idx < usize::MAX,
    ensures
        g@ == gutter_seq(line_idx as int),
{
    let mut d: Vec<char> = Vec::new();
    push_decimal(line_idx + 1, &mut d);
    let mut g: Vec<char> = Vec::new();
    let pad: usize = if d.len() < GUTTER_WIDTH {
        GUTTER_WIDTH - d.len()
    } else {
        0
    };
    let mut i: usize = 0;
    while i < pad
        invariant
            i <= pad,
            g@ == spaces(i as int),
        decreases pad - i,
    {
        g.push(' ');
        i += 1;
    }
    proof {
        assert(g@ == spaces(GUTTER_WIDTH - dec_digits(line_idx + 1).len()));
    }
    g.append(&mut d);
    g.push(' ');
    proof {
        assert(g@ =~= gutter_seq(line_idx as int));
    }
    g
}

/// Relies on String::from_iter over chars: the string holds exactly the
/// characters of the vector, in order.
#[verifier::external_body]
fn chars_to_string(v: &Vec<char>) -> (r: String)
    ensures
        r@ == v@,
{
    v.iter().collect()
}

fn tilde_string() -> (r: String)
    ensures
        r@ == tilde_row(),
{
    let mut v: Vec<char> = Vec::new();
    v.push(' ');
    v.push(' ');
    v.push(' ');
    v.push('~');
    v.push(' ');
    proof {
        assert(v@ =~= tilde_row());
    }
    chars_to_string(&v)
}

fn is_match_at(line: &str, term: &str, i: usize) -> (r: bool)
    requires
        i + term@.len() <= line@.len(),
    ensures
        r == (line@.subrange(i as int, i + term@.len()) == term@),
{
    let n = line.unicode_len();
    let m = term.unicode_len();
    let mut j: usize = 0;
    while j < m
        invariant
            j <= m,
            m == term@.len(),
            n == line@.len(),
            i + m <= n,
            forall|k: int| 0 <= k < j ==> line@[i + k] == term@[k],
        decreases m - j,
    {
        if line.get_char(i + j) != term.get_char(j) {
            proof {
                assert(line@.subrange(i as int, i + term@.len())[j as int] == line@[i + j]);
            }
            return false;
        }
        j += 1;
    }
    proof {
        assert(line@.subrange(i as int, i + term@.len()) =~= term@);
    }
    true
}

/// Greedy non-overlapping occurrences of `term` in `line`, as match start
/// offsets in characters; scanning resumes past each match.
pub fn find_occurrences(line: &str, term: &str) -> (r: Vec<usize>)
    ensures
        r@.len() == occurrences(line@, term@, 0).len(),
        forall|k: int| 0 <= k < r@.len() ==> r@[k] == occurrences(line@, term@, 0)[k],
{
    let mut r: Vec<usize> = Vec::new();
    let n = line.unicode_len();
    let m = term.unicode_len();
    if m == 0 || n < m {
        proof {
            assert(occurrences(line@, term@, 0).len() == 0);
        }
        return r;
    }
    let ghost s = line@;
    let ghost t = term@;
    proof {
        assert(r@.map_values(|x: usize| x as int) + occurrences(s, t, 0) =~= occurrences(
            s,
            t,
            0,
        ));
    }
    let mut i: usize = 0;
    while i <= n - m
        invariant
            s == line@,
            t == term@,
            m == t.len(),
            n == s.len(),
            0 < m <= n,
            i <= n,
            occurrences(s, t, 0) == r@.map_values(|x: usize| x as int) + occurrences(s, t, i as int),
        decreases n - i,
    {
        let ghost pre = r@;
        if is_match_at(line, term, i) {
            r.push(i);
            proof {
                assert(occurrences(s, t, i as int) == seq![i as int] + occurrences(
                    s,
                    t,
                    i + m,
                ));
                assert(r@.map_values(|x: usize| x as int) =~= pre.map_values(|x: usize| x as int)
                    + seq![i as int]);
                assert(pre.map_values(|x: usize| x as int) + (seq![i as int] + occurrences(
                    s,
                    t,
                    i + m,
                )) =~= r@.map_values(|x: usize| x as int) + occurrences(s, t, i + m));
            }
            i += m;
        } else {
            proof {
                assert(occurrences(s, t, i as int) == occurrences(s, t, i + 1));
            }
            i += 1;
        }
    }
    proof {
        assert(occurrences(s, t, i as int).len() == 0);
        assert(occurrences(s, t, 0) =~= r@.map_values(|x: usize| x as int));
    }
    r
}

/// A cache of the exact string last reported for each visible screen row.
/// After a render pass it equals, row for row, what is on the terminal.
pub struct VirtualScreen {
    lines: Vec<String>,
}

impl VirtualScreen {
    /// The cached rows, as character sequences.
    pub closed spec fn rows(&self) -> Seq<Seq<char>> {
        self.lines@.map_values(|s: String| s@)
    }

    pub fn new(rows: usize) -> (r: Self)
        ensures
            r.rows().len() == rows,
            forall|i: int| 0 <= i < rows ==> r.rows()[i] == Seq::<char>::empty(),
    {
        let mut lines: Vec<String> = Vec::new();
        let mut i: usize = 0;
        while i < rows
            invariant
                i <= rows,
                lines@.len() == i,
                forall|k: int| 0 <= k < i ==> lines@[k]@ == Seq::<char>::empty(),
            decreases rows - i,
        {
            lines.push(String::new());
            i += 1;
        }
        VirtualScreen { lines }
    }

    /// Replaces the cached content of `index`; rows outside the cache are
    /// ignored, matching the tolerant behaviour expected at the boundary.
    pub fn update_line(&mut self, index: usize, content: &str)
        ensures
            index < old(self).rows().len() ==> final(self).rows() == old(self).rows().update(
                index as int,
                content@,
            ),
            index >= old(self).rows().len() ==> final(self).rows() == old(self).rows(),
    {
        if index < self.lines.len() {
            self.lines.set(index, content.to_owned());
            proof {
                assert(self.rows() =~= old(self).rows().update(index as int, content@));
            }
        }
    }

    /// The cached content of `index`, or `None` outside the cache.
    pub fn get_line(&self, index: usize) -> (r: Option<&String>)
        ensures
            match r {
                Some(s) => index < self.rows().len() && s@ == self.rows()[index as int],
                None => index >= self.rows().len(),
            },
    {
        if index < self.lines.len() {
            Some(&self.lines[index])
        } else {
            None
        }
    }
}

/// One row the terminal must be given: the screen row to write at, the gutter
/// text, and the line content (empty for placeholder rows, whose text is
/// entirely in the gutter field).
pub struct RowPaint {
    pub row: usize,
    pub gutter: String,
    pub content: String,
}

/// Diffs intended visible content against the cached prior frame and reports
/// only the changed rows.
pub struct Renderer {
    pub max_lines: usize,
    pub virtual_screen: VirtualScreen,
}

impl Renderer {
    /// The cache holds one row per visible line.
    pub open spec fn wf(&self) -> bool {
        self.screen().len() == self.max_lines
    }

    pub open spec fn screen(&self) -> Seq<Seq<char>> {
        self.virtual_screen.rows()
    }

    pub fn new(max_lines: usize) -> (r: Self)
        ensures
            r.max_lines == max_lines,
            r.wf(),
            forall|i: int| 0 <= i < max_lines ==> r.screen()[i] == Seq::<char>::empty(),
    {
        Renderer { max_lines, virtual_screen: VirtualScreen::new(max_lines) }
    }

    /// One render pass: for each dirty absolute line that falls inside the
    /// viewport, composes the row's intended content, and reports the row only
    /// when it differs from the cache, updating the cache to match.  The dirty
    /// set is consumed and cleared.  With an empty dirty set, nothing is
    /// reported and nothing changes: repainting an already painted frame
    /// writes nothing.
    pub fn paint(&mut self, buffer: &EditorBuffer, dirty: &mut DirtyLines, viewport_row: usize) -> (writes: Vec<
        RowPaint,
    >)
        requires
            old(self).wf(),
            viewport_row + old(self).max_lines <= usize::MAX,
        ensures
            final(self).wf(),
            final(self).max_lines == old(self).max_lines,
            final(dirty)@ == Set::<usize>::empty(),
            // the cache reflects the intended content of every repainted row
            // and is untouched elsewhere
            forall|r: int|
                0 <= r < old(self).max_lines ==> final(self).screen()[r] == (if old(dirty)@.contains(
                    (viewport_row + r) as usize,
                ) {
                    intended_row(buffer@, viewport_row + r)
                } else {
                    old(self).screen()[r]
                }),
            // every reported row was dirty, mismatched the cache, and carries
            // the intended content
            forall|k: int|
                0 <= k < writes@.len() ==> {
                    let w = #[trigger] writes@[k];
                    &&& w.row < old(self).max_lines
                    &&& old(dirty)@.contains((viewport_row + w.row) as usize)
                    &&& w.gutter@ + w.content@ == intended_row(buffer@, viewport_row + w.row)
                    &&& old(self).screen()[w.row as int] != intended_row(
                        buffer@,
                        viewport_row + w.row,
                    )
                },
            // every dirty row in the viewport whose cache mismatched is reported
            forall|r: int|
                0 <= r < old(self).max_lines && old(dirty)@.contains((viewport_row + r) as usize)
                    && old(self).screen()[r] != intended_row(buffer@, viewport_row + r)
                    ==> exists|k: int| 0 <= k < writes@.len() && (#[trigger] writes@[k]).row == r,
            old(dirty)@ == Set::<usize>::empty() ==> writes@.len() == 0,
    {
        let ghost s = buffer@;
        let ghost dirty0 = dirty@;
        let ghost screen0 = self.screen();
        let mut writes: Vec<RowPaint> = Vec::new();
        let count = dirty.count();
        let ghost idxs = dirty.indices();
        let mut i: usize = 0;
        while i < count
            invariant
                i <= count,
                count == idxs.len(),
                dirty.indices() == idxs,
                dirty@ == dirty0,
                buffer@ == s,
                self.max_lines == old(self).max_lines,
                self.wf(),
                viewport_row + self.max_lines <= usize::MAX,
                // processed rows show their intended content; others untouched
                forall|r: int|
                    0 <= r < self.max_lines ==> self.screen()[r] == (if (exists|p: int|
                        0 <= p < i && idxs[p] == viewport_row + r) {
                        intended_row(s, viewport_row + r)
                    } else {
                        screen0[r]
                    }),
                forall|k: int|
                    0 <= k < writes@.len() ==> {
                        let w = #[trigger] writes@[k];
                        &&& w.row < self.max_lines
                        &&& dirty0.contains((viewport_row + w.row) as usize)
                        &&& w.gutter@ + w.content@ == intended_row(s, viewport_row + w.row)
                        &&& screen0[w.row as int] != intended_row(s, viewport_row + w.row)
                    },
                forall|r: int|
                    0 <= r < self.max_lines && (exists|p: int|
                        0 <= p < i && idxs[p] == viewport_row + r) && screen0[r] != intended_row(
                        s,
                        viewport_row + r,
                    ) ==> exists|k: int| 0 <= k < writes@.len() && (#[trigger] writes@[k]).row == r,
            decreases count - i,
        {
            let abs = dirty.index_at(i);
            if abs >= viewport_row && abs - viewport_row < self.max_lines {
                let row = abs - viewport_row;
                let total = buffer.len_lines();
                let gutter: String;
                let content: String;
                if abs < total {
                    let g = gutter_chars(abs);
                    gutter = chars_to_string(&g);
                    content = buffer.line_content(abs);
                } else {
                    gutter = tilde_string();
                    content = String::new();
                }
                proof {
                    assert(gutter@ + content@ =~= intended_row(s, abs as int));
                }
                let composed = gutter.clone().concat(content.as_str());
                let ghost pre_screen = self.screen();
                let ghost pre_writes = writes@;
                let differs: bool = match self.virtual_screen.get_line(row) {
                    Some(c) => !string_eq(c, &composed),
                    None => true,
                };
                if differs {
                    self.virtual_screen.update_line(row, composed.as_str());
                    writes.push(RowPaint { row, gutter, content });
                }
                proof {
                    let intended = intended_row(s, abs as int);
                    // a matching cache means this row was already repainted,
                    // since a stale row never equals the intended content
                    if differs {
                        assert(self.screen() == pre_screen.update(row as int, composed@));
                        assert(writes@ == pre_writes.push(
                            RowPaint { row, gutter, content },
                        ));
                        assert(writes@[pre_writes.len() as int].row == row);
                        if pre_screen[row as int] != screen0[row as int] {
                            assert(pre_screen[row as int] == intended);
                            assert(false);
                        }
                        assert(screen0[row as int] != intended);
                    } else {
                        assert(pre_screen[row as int] == composed@);
                        if screen0[row as int] != intended {
                            assert(pre_screen[row as int] == intended);
                            assert(exists|p: int| 0 <= p < i && idxs[p] == viewport_row + row);
                            assert(exists|k: int|
                                0 <= k < writes@.len() && (#[trigger] writes@[k]).row
                                    == row as int);
                        }
                    }
                    assert(self.screen()[row as int] == intended_row(s, abs as int));
                    assert forall|r: int| 0 <= r < self.max_lines implies self.screen()[r] == (if (
                    exists|p: int| 0 <= p < i + 1 && idxs[p] == viewport_row + r) {
                        intended_row(s, viewport_row + r)
                    } else {
                        screen0[r]
                    }) by {
                        if r != row {
                            if exists|p: int| 0 <= p < i + 1 && idxs[p] == viewport_row + r {
                                let p = choose|p: int|
                                    0 <= p < i + 1 && idxs[p] == viewport_row + r;
                                assert(p < i);
                            }
                        } else {
                            assert(idxs[i as int] == viewport_row + r);
                        }
                    }
                    assert forall|r: int|
                        0 <= r < self.max_lines && (exists|p: int|
                            0 <= p < i + 1 && idxs[p] == viewport_row + r) && screen0[r]
                            != intended_row(s, viewport_row + r) implies exists|k: int|
                        0 <= k < writes@.len() && (#[trigger] writes@[k]).row == r by {
                        if r == row {
                            if differs {
                                assert(writes@[pre_writes.len() as int].row == r);
                            }
                        } else {
                            let p = choose|p: int| 0 <= p < i + 1 && idxs[p] == viewport_row + r;
                            assert(p < i);
                            let k = choose|k: int|
                                0 <= k < pre_writes.len() && (#[trigger] pre_writes[k]).row == r;
                            assert(writes@[k].row == r);
                        }
                    }
                }
            } else {
                proof {
                    assert forall|r: int| 0 <= r < self.max_lines implies self.screen()[r] == (if (
                    exists|p: int| 0 <= p < i + 1 && idxs[p] == viewport_row + r) {
                        intended_row(s, viewport_row + r)
                    } else {
                        screen0[r]
                    }) by {
                        if exists|p: int| 0 <= p < i + 1 && idxs[p] == viewport_row + r {
                            let p = choose|p: int| 0 <= p < i + 1 && idxs[p] == viewport_row + r;
                            assert(p < i);
                        }
                    }
                    assert forall|r: int|
                        0 <= r < self.max_lines && (exists|p: int|
                            0 <= p < i + 1 && idxs[p] == viewport_row + r) && screen0[r]
                            != intended_row(s, viewport_row + r) implies exists|k: int|
                        0 <= k < writes@.len() && (#[trigger] writes@[k]).row == r by {
                        let p = choose|p: int| 0 <= p < i + 1 && idxs[p] == viewport_row + r;
                        assert(p < i);
                    }
                }
            }
            i += 1;
        }
        proof {
            dirty.lemma_indices_members();
            assert forall|r: int| 0 <= r < self.max_lines implies self.screen()[r] == (if dirty0
                .contains((viewport_row + r) as usize) {
                intended_row(s, viewport_row + r)
            } else {
                screen0[r]
            }) by {
                if dirty0.contains((viewport_row + r) as usize) {
                    let p = choose|p: int|
                        0 <= p < idxs.len() && idxs[p] == (viewport_row + r) as usize;
                    assert(idxs[p] == viewport_row + r);
                } else {
                    if exists|p: int| 0 <= p < count && idxs[p] == viewport_row + r {
                        let p = choose|p: int| 0 <= p < count && idxs[p] == viewport_row + r;
                        assert(dirty0.contains(idxs[p]));
                        assert(false);
                    }
                }
            }
            assert forall|r: int|
                0 <= r < self.max_lines && dirty0.contains((viewport_row + r) as usize)
                    && screen0[r] != intended_row(s, viewport_row + r) implies exists|k: int|
                0 <= k < writes@.len() && (#[trigger] writes@[k]).row == r by {
                let p = choose|p: int| 0 <= p < idxs.len() && idxs[p] == (viewport_row + r) as usize;
                assert(idxs[p] == viewport_row + r);
            }
            if dirty0 == Set::<usize>::empty() {
                if writes@.len() > 0 {
                    assert(dirty0.contains((viewport_row + writes@[0].row) as usize));
                }
            }
        }
        dirty.clear();
        writes
    }
}

fn string_eq(a: &String, b: &String) -> (r: bool)
    ensures
        r == (a@ == b@),
{
    a.eq(b)
}

} // verus!
