//! Character-indexed text storage with line-index translation.
//!
//! The buffer is modelled as a sequence of Unicode scalar values; lines are
//! delimited by `'\n'`, and a line's trailing `'\n'`, if present, belongs to
//! the line it terminates.  Storage is a rope, reached only through trusted
//! wrappers whose contracts speak of the character sequence the rope holds.

use vstd::prelude::*;

verus! {

/// Number of `'\n'` characters among `s[0..i)`.
pub open spec fn newline_count(s: Seq<char>, i: int) -> nat
    decreases i,
{
    if i <= 0 || i > s.len() {
        0
    } else {
        newline_count(s, i - 1) + (if s[i - 1] == '\n' {
            1nat
        } else {
            0nat
        })
    }
}

/// Line index of character position `i`: the number of line endings before it.
pub open spec fn line_of(s: Seq<char>, i: int) -> nat {
    newline_count(s, i)
}

/// Total number of lines: one more than the number of line breaks.
pub open spec fn line_count(s: Seq<char>) -> nat {
    newline_count(s, s.len() as int) + 1
}

/// Position just after the first `'\n'` at or after `i`; `s.len()` if none.
pub open spec fn next_line_start(s: Seq<char>, i: int) -> int
    decreases s.len() - i,
{
    if 0 <= i < s.len() {
        if s[i] == '\n' {
            i + 1
        } else {
            next_line_start(s, i + 1)
        }
    } else {
        s.len() as int
    }
}

/// Character index of the start of line `l`.
pub open spec fn line_start(s: Seq<char>, l: int) -> int
    decreases l,
{
    if l <= 0 {
        0
    } else {
        next_line_start(s, line_start(s, l - 1))
    }
}

/// The characters of line `l`, including its trailing `'\n'` if it has one.
pub open spec fn line_seq(s: Seq<char>, l: int) -> Seq<char> {
    s.subrange(line_start(s, l), line_start(s, l + 1))
}

/// The characters of line `l` with any trailing `'\n'` stripped, for display.
pub open spec fn line_display(s: Seq<char>, l: int) -> Seq<char> {
    let full = line_seq(s, l);
    if full.len() > 0 && full.last() == '\n' {
        full.drop_last()
    } else {
        full
    }
}

/// `s` with `t` inserted at character offset `i`.
pub open spec fn splice(s: Seq<char>, i: int, t: Seq<char>) -> Seq<char> {
    s.subrange(0, i) + t + s.subrange(i, s.len() as int)
}

/// `s` with the character span `[i, j)` removed.
pub open spec fn remove_span(s: Seq<char>, i: int, j: int) -> Seq<char> {
    s.subrange(0, i) + s.subrange(j, s.len() as int)
}

/// No `'\n'` occurs at any position in `[a, b)`.
pub open spec fn no_newline_between(s: Seq<char>, a: int, b: int) -> bool {
    forall|k: int| a <= k < b ==> s[k] != '\n'
}

pub proof fn lemma_newline_count_mono(s: Seq<char>, i: int, j: int)
    requires
        0 <= i <= j <= s.len(),
    ensures
        newline_count(s, i) <= newline_count(s, j),
    decreases j - i,
{
    if i < j {
        lemma_newline_count_mono(s, i, j - 1);
    }
}

/// There are never more line breaks before a position than characters.
pub proof fn lemma_newline_count_le(s: Seq<char>, i: int)
    requires
        0 <= i <= s.len(),
    ensures
        newline_count(s, i) <= i,
    decreases i,
{
    if i > 0 {
        lemma_newline_count_le(s, i - 1);
    }
}

pub proof fn lemma_next_line_start_props(s: Seq<char>, i: int)
    requires
        0 <= i <= s.len(),
    ensures
        i <= next_line_start(s, i) <= s.len(),
        next_line_start(s, i) == s.len() ==> no_newline_between(
            s,
            i,
            next_line_start(s, i),
        ) || (next_line_start(s, i) > i && s[next_line_start(s, i) - 1] == '\n'
            && no_newline_between(s, i, next_line_start(s, i) - 1)),
        next_line_start(s, i) < s.len() ==> next_line_start(s, i) > i && s[next_line_start(s, i)
            - 1] == '\n' && no_newline_between(s, i, next_line_start(s, i) - 1),
    decreases s.len() - i,
{
    if i < s.len() && s[i] != '\n' {
        lemma_next_line_start_props(s, i + 1);
    }
}

/// If no `'\n'` occurs in `[a, b)`, the counts at `a` and `b` agree.
pub proof fn lemma_no_newline_count(s: Seq<char>, a: int, b: int)
    requires
        0 <= a <= b <= s.len(),
        no_newline_between(s, a, b),
    ensures
        newline_count(s, b) == newline_count(s, a),
    decreases b - a,
{
    if a < b {
        lemma_no_newline_count(s, a, b - 1);
    }
}

/// If the counts at `a` and `b` agree, no `'\n'` occurs in `[a, b)`.
pub proof fn lemma_count_eq_no_newline(s: Seq<char>, a: int, b: int)
    requires
        0 <= a <= b <= s.len(),
        newline_count(s, a) == newline_count(s, b),
    ensures
        no_newline_between(s, a, b),
{
    assert forall|k: int| a <= k < b implies s[k] != '\n' by {
        lemma_newline_count_mono(s, a, k);
        lemma_newline_count_mono(s, k + 1, b);
        if s[k] == '\n' {
            assert(newline_count(s, k + 1) == newline_count(s, k) + 1);
        }
    }
}

/// Scanning for the next line break from `a` or from `b` finds the same
/// position when `[a, b)` holds no break.
pub proof fn lemma_next_line_start_stable(s: Seq<char>, a: int, b: int)
    requires
        0 <= a <= b <= s.len(),
        no_newline_between(s, a, b),
    ensures
        next_line_start(s, a) == next_line_start(s, b),
    decreases b - a,
{
    if a < b {
        lemma_next_line_start_stable(s, a + 1, b);
    }
}

pub proof fn lemma_line_start_bounds(s: Seq<char>, l: int)
    ensures
        0 <= line_start(s, l) <= s.len(),
        l >= 0 ==> line_start(s, l) <= line_start(s, l + 1),
    decreases l,
{
    if l <= 0 {
        lemma_next_line_start_props(s, 0);
    } else {
        lemma_line_start_bounds(s, l - 1);
        lemma_next_line_start_props(s, line_start(s, l - 1));
        lemma_next_line_start_props(s, line_start(s, l));
    }
}

pub proof fn lemma_line_start_mono(s: Seq<char>, l1: int, l2: int)
    requires
        0 <= l1 <= l2,
    ensures
        line_start(s, l1) <= line_start(s, l2),
    decreases l2 - l1,
{
    if l1 < l2 {
        lemma_line_start_mono(s, l1, l2 - 1);
        lemma_line_start_bounds(s, l2 - 1);
    }
}

/// `line_start` is a right inverse of the line-of translation: the start of
/// line `l` lies on line `l` (while `l` is a real line), and past the last
/// line every start collapses to the end of the text.
pub proof fn lemma_line_start_count(s: Seq<char>, l: int)
    requires
        l >= 0,
    ensures
        l <= newline_count(s, s.len() as int) ==> newline_count(s, line_start(s, l)) == l,
        l > newline_count(s, s.len() as int) ==> line_start(s, l) == s.len(),
    decreases l,
{
    let total = newline_count(s, s.len() as int);
    if l == 0 {
    } else {
        lemma_line_start_count(s, l - 1);
        let p = line_start(s, l - 1);
        let j = next_line_start(s, p);
        lemma_line_start_bounds(s, l - 1);
        lemma_next_line_start_props(s, p);
        if l - 1 > total {
            // p == s.len(), so j == s.len() as well.
        } else {
            // newline_count(s, p) == l - 1
            if j < s.len() || (j > p && j <= s.len() && s[j - 1] == '\n' && no_newline_between(
                s,
                p,
                j - 1,
            )) {
                if s[j - 1] == '\n' && no_newline_between(s, p, j - 1) {
                    lemma_no_newline_count(s, p, j - 1);
                    assert(newline_count(s, j) == newline_count(s, j - 1) + 1);
                    lemma_newline_count_mono(s, j, s.len() as int);
                }
            }
            if j == s.len() && no_newline_between(s, p, j) {
                lemma_no_newline_count(s, p, j);
            }
        }
    }
}

/// The translation functions are consistent inverses: `line_start` applied to
/// the line containing position `i` yields a position at or before `i`, and
/// the next line starts strictly after `i`.  In other words,
/// `line_to_char(char_to_line(i))` is the start of the line containing `i`.
pub proof fn lemma_line_of_start(s: Seq<char>, i: int)
    requires
        0 <= i <= s.len(),
    ensures
        line_start(s, line_of(s, i) as int) <= i,
        i < s.len() ==> i < line_start(s, line_of(s, i) as int + 1),
    decreases i,
{
    let c = line_of(s, i) as int;
    let total = newline_count(s, s.len() as int);
    lemma_newline_count_mono(s, i, s.len() as int);
    lemma_line_start_count(s, c);
    let p = line_start(s, c);
    lemma_line_start_bounds(s, c);
    // newline_count(s, p) == c == newline_count(s, i)
    if p > i {
        lemma_count_eq_no_newline(s, i, p);
        // line starts above 0 sit just after a '\n'
        if c > 0 {
            let prev = line_start(s, c - 1);
            lemma_line_start_bounds(s, c - 1);
            lemma_line_start_count(s, c - 1);
            lemma_next_line_start_props(s, prev);
            if no_newline_between(s, prev, p) {
                lemma_no_newline_count(s, prev, p);
            }
            assert(s[p - 1] == '\n');
            assert(false);
        } else {
            assert(false);
        }
    }
    if i < s.len() {
        lemma_count_eq_no_newline(s, p, i);
        lemma_next_line_start_stable(s, p, i);
        lemma_next_line_start_props(s, i);
        if s[i] != '\n' {
            lemma_next_line_start_props(s, i + 1);
            assert(next_line_start(s, i) == next_line_start(s, i + 1));
        }
    }
}

/// Declares ropey::Rope, the rope the buffer stores its text in, so that it
/// can stand in fields and signatures; its value is opaque here and reached
/// only through the trusted wrappers below.
#[verifier::external_type_specification]
#[verifier::external_body]
pub struct ExRope(ropey::Rope);

/// The sequence of Unicode scalar values a rope holds.
pub uninterp spec fn rope_chars(r: ropey::Rope) -> Seq<char>;

/// Character-indexed mutable text storage.  All offsets are counted in
/// characters, never bytes.
pub struct EditorBuffer {
    pub rope: ropey::Rope,
}

impl View for EditorBuffer {
    type V = Seq<char>;

    open spec fn view(&self) -> Seq<char> {
        rope_chars(self.rope)
    }
}

impl EditorBuffer {
    /// Relies on ropey::Rope::new: creates an empty rope.
    #[verifier::external_body]
    pub fn new() -> (r: Self)
        ensures
            rope_chars(r.rope) == Seq::<char>::empty(),
    {
        EditorBuffer { rope: ropey::Rope::new() }
    }

    /// Relies on ropey::Rope::from_str: the rope holds exactly the text's
    /// characters.  A string's character count always fits in usize, since it
    /// is at most its byte count.
    #[verifier::external_body]
    pub fn from_text(text: &str) -> (r: Self)
        ensures
            r@ == text@,
            r@.len() < usize::MAX,
    {
        EditorBuffer { rope: ropey::Rope::from_str(text) }
    }

    /// Relies on ropey::Rope::len_chars: the total number of characters.
    #[verifier::external_body]
    pub fn len_chars(&self) -> (r: usize)
        ensures
            r == self@.len(),
    {
        self.rope.len_chars()
    }

    /// Relies on ropey::Rope::len_lines: one more than the number of line
    /// breaks (with only `'\n'` recognized as a break).
    #[verifier::external_body]
    pub fn len_lines(&self) -> (r: usize)
        ensures
            r == line_count(self@),
    {
        self.rope.len_lines()
    }

    /// Relies on ropey::Rope::insert_char: inserts `ch` at character index
    /// `idx`; it panics only when `idx` is past the end.
    #[verifier::external_body]
    pub fn insert_char(&mut self, idx: usize, ch: char)
        requires
            idx <= old(self)@.len(),
            old(self)@.len() < usize::MAX,
        ensures
            final(self)@ == old(self)@.insert(idx as int, ch),
    {
        self.rope.insert_char(idx, ch);
    }

    /// Relies on ropey::Rope::insert: inserts `text` at character index
    /// `idx`; it panics only when `idx` is past the end.
    #[verifier::external_body]
    pub fn insert(&mut self, idx: usize, text: &str)
        requires
            idx <= old(self)@.len(),
            old(self)@.len() + text@.len() <= usize::MAX,
        ensures
            final(self)@ == splice(old(self)@, idx as int, text@),
    {
        self.rope.insert(idx, text);
    }

    /// Relies on ropey::Rope::remove: removes the character span starting at
    /// `start` of length `len`; it panics only on an out-of-bounds span.
    #[verifier::external_body]
    pub fn remove(&mut self, start: usize, len: usize)
        requires
            start + len <= old(self)@.len(),
        ensures
            final(self)@ == remove_span(old(self)@, start as int, start + len),
    {
        self.rope.remove(start..start + len);
    }

    /// Relies on ropey::Rope::char_to_line: the line index of the character
    /// at `idx`, equal to the number of line endings before it; `idx` may be
    /// one past the end.
    #[verifier::external_body]
    pub fn char_to_line(&self, idx: usize) -> (r: usize)
        requires
            idx <= self@.len(),
        ensures
            r == line_of(self@, idx as int),
    {
        self.rope.char_to_line(idx)
    }

    /// Relies on ropey::Rope::line_to_char: the character index of the start
    /// of line `line_idx`; one past the last line yields the text length.
    #[verifier::external_body]
    pub fn line_to_char(&self, line_idx: usize) -> (r: usize)
        requires
            line_idx <= line_count(self@),
        ensures
            r == line_start(self@, line_idx as int),
    {
        self.rope.line_to_char(line_idx)
    }

    /// Relies on ropey::Rope::char: the character at index `idx`.
    #[verifier::external_body]
    pub fn char_at(&self, idx: usize) -> (r: char)
        requires
            idx < self@.len(),
        ensures
            r == self@[idx as int],
    {
        self.rope.char(idx)
    }

    /// Relies on ropey::Rope::slice: the characters of the span `[start, end)`
    /// as an owned string.
    #[verifier::external_body]
    pub fn slice(&self, start: usize, end: usize) -> (r: String)
        requires
            start <= end <= self@.len(),
        ensures
            r@ == self@.subrange(start as int, end as int),
    {
        self.rope.slice(start..end).to_string()
    }

    /// The whole text as an owned string.
    pub fn text(&self) -> (r: String)
        ensures
            r@ == self@,
    {
        let n = self.len_chars();
        let r = self.slice(0, n);
        proof {
            assert(r@ =~= self@);
        }
        r
    }

    /// The characters of line `line_idx`, including its trailing `'\n'` if it
    /// has one.
    pub fn line(&self, line_idx: usize) -> (r: String)
        requires
            line_idx < line_count(self@),
        ensures
            r@ == line_seq(self@, line_idx as int),
    {
        let total = self.len_lines();
        proof {
            assert(line_idx + 1 <= total);
            lemma_line_start_bounds(self@, line_idx as int);
            lemma_line_start_bounds(self@, line_idx as int + 1);
        }
        let start = self.line_to_char(line_idx);
        let end = self.line_to_char(line_idx + 1);
        self.slice(start, end)
    }

    /// The content of line `line_idx` for display: its characters with any
    /// trailing `'\n'` stripped.
    pub fn line_content(&self, line_idx: usize) -> (r: String)
        requires
            line_idx < line_count(self@),
        ensures
            r@ == line_display(self@, line_idx as int),
    {
        let total = self.len_lines();
        proof {
            assert(line_idx + 1 <= total);
            lemma_line_start_bounds(self@, line_idx as int);
            lemma_line_start_bounds(self@, line_idx as int + 1);
        }
        let start = self.line_to_char(line_idx);
        let end = self.line_to_char(line_idx + 1);
        if end > start && self.char_at(end - 1) == '\n' {
            let r = self.slice(start, end - 1);
            proof {
                assert(line_seq(self@, line_idx as int).last() == self@[end - 1]);
                assert(r@ =~= line_display(self@, line_idx as int));
            }
            r
        } else {
            let r = self.slice(start, end);
            proof {
                assert(r@ =~= line_display(self@, line_idx as int));
            }
            r
        }
    }
}

} // verus!
