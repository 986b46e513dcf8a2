//! A plain text editor: lines of characters and a cursor inside a rectangle.
use vstd::prelude::*;

use crate::interpreter::chars::{is_ascii_whitespace, is_control, spec_is_ascii_whitespace, spec_is_control};
use crate::math::{Pos, Rect};
use crate::util::nonempty::{lines_in, lines_into_vec, lines_vec, lines_vec1};
use crate::util::text::{chars_of, push_char};
use vec1::Vec1;

verus! {

/// What the editor reacts to.
#[derive(Debug, Clone, Copy, PartialEq, Eq, Structural)]
pub enum EditorEvent {
    /// A typed character.
    Character(char),
    Back,
    Return,
    Right,
    Left,
    Up,
    Down,
    /// Any other key.
    Other,
}

/// The text of lines `v`.
pub open spec fn view_lines(v: Seq<Vec<char>>) -> Seq<Seq<char>> {
    v.map_values(|l: Vec<char>| l@)
}

/// The lines of `s`, split at each `'\n'`; an empty text is one empty line.
pub open spec fn split_lines(s: Seq<char>) -> Seq<Seq<char>>
    decreases s.len(),
{
    if s.len() == 0 {
        seq![Seq::<char>::empty()]
    } else if s.last() == '\n' {
        split_lines(s.drop_last()).push(Seq::<char>::empty())
    } else {
        let ls = split_lines(s.drop_last());
        ls.update(ls.len() - 1, ls.last().push(s.last()))
    }
}

/// The lines joined with `'\n'` between them.
pub open spec fn join_lines(ls: Seq<Seq<char>>) -> Seq<char>
    decreases ls.len(),
{
    if ls.len() == 0 {
        Seq::<char>::empty()
    } else if ls.len() == 1 {
        ls[0]
    } else {
        join_lines(ls.drop_last()) + seq!['\n'] + ls.last()
    }
}

/// `l` without its trailing ASCII whitespace.
pub open spec fn trim_end(l: Seq<char>) -> Seq<char>
    decreases l.len(),
{
    if l.len() > 0 && spec_is_ascii_whitespace(l.last()) {
        trim_end(l.drop_last())
    } else {
        l
    }
}

/// `l` cut to `w` characters, without trailing whitespace.
pub open spec fn fit_line(l: Seq<char>, w: int) -> Seq<char> {
    trim_end(
        if l.len() > w {
            l.take(w)
        } else {
            l
        },
    )
}

/// `ls` without its trailing empty lines, keeping at least one line.
pub open spec fn drop_trailing_empty(ls: Seq<Seq<char>>) -> Seq<Seq<char>>
    decreases ls.len(),
{
    if ls.len() > 1 && ls.last().len() == 0 {
        drop_trailing_empty(ls.drop_last())
    } else {
        ls
    }
}

/// The lines an editor of `w` columns and `h` rows shows for the text `s`: its
/// first `h` lines, each cut to `w` characters and without trailing
/// whitespace, without trailing empty lines.
pub open spec fn loaded_lines(s: Seq<char>, w: int, h: int) -> Seq<Seq<char>> {
    let ls = split_lines(s);
    let kept = if ls.len() > h {
        ls.take(h)
    } else {
        ls
    };
    drop_trailing_empty(kept.map_values(|l: Seq<char>| fit_line(l, w)))
}

/// Moving right: to the next character, or to the start of the next line at
/// the end of a line; nowhere at the end of the last line. The flag says
/// whether the cursor moved.
pub open spec fn right_of(ls: Seq<Seq<char>>, i: int, j: int) -> (int, int, bool) {
    if j == ls[i].len() {
        if i == ls.len() - 1 {
            (i, j, false)
        } else {
            (i + 1, 0, true)
        }
    } else {
        (i, j + 1, true)
    }
}

/// Moving left: to the previous character, or to the end of the previous line
/// at the start of a line; nowhere at the start of the first line.
pub open spec fn left_of(ls: Seq<Seq<char>>, i: int, j: int) -> (int, int, bool) {
    if j == 0 {
        if i == 0 {
            (i, j, false)
        } else {
            (i - 1, ls[i - 1].len() as int, true)
        }
    } else {
        (i, j - 1, true)
    }
}

pub open spec fn min(a: int, b: int) -> int {
    if a <= b {
        a
    } else {
        b
    }
}

/// The lines and cursor after event `e`, in an editor of `w` columns and `h`
/// rows holding lines `ls` with the cursor at line `i`, column `j`.
///
/// A character that is not a control character is inserted at the cursor if
/// the line has room for it (it stays shorter than `w - 1` before). Back
/// deletes the character before the cursor, or at the start of a line joins it
/// to the previous one if both fit in fewer than `w` characters. Return splits
/// the line at the cursor if there are fewer than `h` lines. Up and down keep
/// the column where the new line is long enough.
pub open spec fn after_event(ls: Seq<Seq<char>>, i: int, j: int, w: int, h: int, e: EditorEvent) -> (
    Seq<Seq<char>>,
    int,
    int,
) {
    match e {
        EditorEvent::Character(c) => if !spec_is_control(c) && ls[i].len() < w - 1 {
            (ls.update(i, ls[i].insert(j, c)), i, j + 1)
        } else {
            (ls, i, j)
        },
        EditorEvent::Back => if j == 0 {
            if i > 0 && ls[i].len() + ls[i - 1].len() < w {
                (ls.update(i - 1, ls[i - 1] + ls[i]).remove(i), i - 1, ls[i - 1].len() as int)
            } else {
                (ls, i, j)
            }
        } else {
            (ls.update(i, ls[i].remove(j - 1)), i, j - 1)
        },
        EditorEvent::Return => if ls.len() < h {
            (ls.update(i, ls[i].take(j)).insert(i + 1, ls[i].skip(j)), i + 1, 0)
        } else {
            (ls, i, j)
        },
        EditorEvent::Right => {
            let (i2, j2, _) = right_of(ls, i, j);
            (ls, i2, j2)
        },
        EditorEvent::Left => {
            let (i2, j2, _) = left_of(ls, i, j);
            (ls, i2, j2)
        },
        EditorEvent::Up => if i > 0 {
            (ls, i - 1, min(j, ls[i - 1].len() as int))
        } else {
            (ls, i, j)
        },
        EditorEvent::Down => if i < ls.len() - 1 {
            (ls, i + 1, min(j, ls[i + 1].len() as int))
        } else {
            (ls, i, j)
        },
        EditorEvent::Other => (ls, i, j),
    }
}

/// Lines fit an editor of `w` columns and `h` rows: at least one line and at
/// most `h`, none longer than `w`.
pub open spec fn lines_fit(ls: Seq<Seq<char>>, w: int, h: int) -> bool {
    &&& 0 <= w
    &&& 1 <= h
    &&& 1 <= ls.len() <= h
    &&& forall|k: int| 0 <= k < ls.len() ==> (#[trigger] ls[k]).len() <= w
}

/// Lines and cursor fit an editor of `w` columns and `h` rows: the lines fit,
/// and the cursor is on a line, at most at its end.
pub open spec fn fits(ls: Seq<Seq<char>>, i: int, j: int, w: int, h: int) -> bool {
    &&& lines_fit(ls, w, h)
    &&& 0 <= i < ls.len()
    &&& 0 <= j <= ls[i].len()
}

/// A text box that the user edits.
#[derive(Debug)]
pub struct BasicTextEditor {
    title: String,
    rect: Rect,
    cursor: Pos,
    text: Vec1<Vec<char>>,
    cursor_enabled: bool,
}

impl BasicTextEditor {
    /// The text, line by line.
    pub closed spec fn lines(&self) -> Seq<Seq<char>> {
        view_lines(lines_in(self.text))
    }

    pub closed spec fn cursor_spec(&self) -> Pos {
        self.cursor
    }

    pub closed spec fn rect_spec(&self) -> Rect {
        self.rect
    }

    pub closed spec fn cursor_on(&self) -> bool {
        self.cursor_enabled
    }

    pub closed spec fn title_spec(&self) -> Seq<char> {
        self.title@
    }

    /// The editor's lines fit its rectangle.
    pub open spec fn text_fits(&self) -> bool {
        lines_fit(self.lines(), self.rect_spec().size.w as int, self.rect_spec().size.h as int)
    }

    /// The editor's lines and cursor fit its rectangle.
    pub open spec fn wf(&self) -> bool {
        fits(
            self.lines(),
            self.cursor_spec().i as int,
            self.cursor_spec().j as int,
            self.rect_spec().size.w as int,
            self.rect_spec().size.h as int,
        )
    }

    /// An empty editor titled `title` in `rect`. The initial text is not
    /// loaded; `load_string` loads one.
    pub fn new(title: String, rect: Rect, initial_text: String) -> (r: Self)
        requires
            rect.size.w >= 0,
            rect.size.h >= 1,
        ensures
            r.title_spec() == title@,
            r.rect_spec() == rect,
            r.lines() == seq![Seq::<char>::empty()],
            r.cursor_spec() == (Pos { i: 0, j: 0 }),
            r.cursor_on(),
            r.wf(),
    {
        let mut lines: Vec<Vec<char>> = Vec::new();
        lines.push(Vec::new());
        let text = match lines_vec1(lines) {
            Ok(t) => t,
            Err(_) => vstd::pervasive::unreached(),
        };
        let r = BasicTextEditor { title, rect, cursor: Pos { i: 0, j: 0 }, text, cursor_enabled: true };
        assert(r.lines() =~= seq![Seq::<char>::empty()]);
        r
    }

    pub fn rect(&self) -> (r: &Rect)
        ensures
            *r == self.rect_spec(),
    {
        &self.rect
    }

    pub fn title(&self) -> (r: &String)
        ensures
            r@ == self.title_spec(),
    {
        &self.title
    }

    pub fn cursor(&self) -> (r: Pos)
        ensures
            r == self.cursor_spec(),
    {
        self.cursor
    }

    /// Whether the cursor is shown.
    pub fn cursor_enabled(&self) -> (r: bool)
        ensures
            r == self.cursor_on(),
    {
        self.cursor_enabled
    }

    pub fn set_cursor(&mut self, enable: bool)
        ensures
            final(self).cursor_on() == enable,
            final(self).lines() == old(self).lines(),
            final(self).cursor_spec() == old(self).cursor_spec(),
            final(self).rect_spec() == old(self).rect_spec(),
            final(self).title_spec() == old(self).title_spec(),
    {
        self.cursor_enabled = enable;
    }

    /// The lines of the text.
    pub fn text_lines(&self) -> (r: &Vec<Vec<char>>)
        ensures
            view_lines(r@) == self.lines(),
    {
        lines_vec(&self.text)
    }

    /// The text, lines joined with `'\n'`.
    pub fn to_string(&self) -> (r: String)
        ensures
            r@ == join_lines(self.lines()),
    {
        let mut r = String::new();
        let text = lines_vec(&self.text);
        let n = text.len();
        for k in 0..n
            invariant
                n == text.len(),
                view_lines(text@) == self.lines(),
                r@ == join_lines(self.lines().take(k as int)),
        {
            let ghost before = r@;
            if k > 0 {
                push_char(&mut r, '\n');
            }
            let line = &text[k];
            assert(self.lines()[k as int] == line@);
            for c in 0..line.len()
                invariant
                    r@ == (if k > 0 {
                        before + seq!['\n']
                    } else {
                        before
                    }) + line@.take(c as int),
            {
                push_char(&mut r, line[c]);
                assert(line@.take(c + 1) =~= line@.take(c as int).push(line@[c as int]));
            }
            proof {
                let t1 = self.lines().take(k + 1);
                assert(line@.take(line@.len() as int) =~= line@);
                assert(t1.drop_last() =~= self.lines().take(k as int));
                assert(t1.last() == line@);
                if k == 0 {
                    assert(self.lines().take(0) =~= Seq::<Seq<char>>::empty());
                    assert(t1 =~= seq![line@]);
                }
                assert(r@ =~= join_lines(t1));
            }
        }
        assert(self.lines().take(n as int) =~= self.lines());
        r
    }

    /// Takes the lines out, leaving one empty line in their place.
    fn take_text(&mut self) -> (r: Vec<Vec<char>>)
        ensures
            view_lines(r@) == old(self).lines(),
            r@.len() > 0,
            final(self).rect_spec() == old(self).rect_spec(),
            final(self).title_spec() == old(self).title_spec(),
            final(self).cursor_on() == old(self).cursor_on(),
            final(self).cursor_spec() == old(self).cursor_spec(),
    {
        let mut empty: Vec<Vec<char>> = Vec::new();
        empty.push(Vec::new());
        let mut other = match lines_vec1(empty) {
            Ok(t) => t,
            Err(_) => vstd::pervasive::unreached(),
        };
        std::mem::swap(&mut self.text, &mut other);
        lines_into_vec(other)
    }

    /// Puts back `text`, which must hold a line.
    fn put_text(&mut self, text: Vec<Vec<char>>)
        requires
            text@.len() > 0,
        ensures
            final(self).lines() == view_lines(text@),
            final(self).rect_spec() == old(self).rect_spec(),
            final(self).title_spec() == old(self).title_spec(),
            final(self).cursor_on() == old(self).cursor_on(),
            final(self).cursor_spec() == old(self).cursor_spec(),
    {
        self.text = match lines_vec1(text) {
            Ok(t) => t,
            Err(_) => vstd::pervasive::unreached(),
        };
    }

    /// Whether the cursor is on a line of the text, at most at its end.
    pub fn cursor_fits(&self) -> (r: bool)
        requires
            self.text_fits(),
        ensures
            r == self.wf(),
    {
        let text = lines_vec(&self.text);
        0 <= self.cursor.i && (self.cursor.i as usize) < text.len() && 0 <= self.cursor.j && (self.cursor.j
            as usize) <= text[self.cursor.i as usize].len()
    }

    /// The length of the cursor's line.
    fn line_len(&self) -> (r: i32)
        requires
            self.wf(),
        ensures
            r == self.lines()[self.cursor_spec().i as int].len(),
    {
        lines_vec(&self.text)[self.cursor.i as usize].len() as i32
    }

    /// Moves the cursor one place right, as `right_of` says; tells whether it moved.
    fn move_cursor_right(&mut self) -> (moved: bool)
        requires
            old(self).wf(),
        ensures
            ({
                let (i, j, m) = right_of(
                    old(self).lines(),
                    old(self).cursor_spec().i as int,
                    old(self).cursor_spec().j as int,
                );
                final(self).cursor_spec().i == i && final(self).cursor_spec().j == j && moved == m
            }),
            final(self).lines() == old(self).lines(),
            final(self).rect_spec() == old(self).rect_spec(),
            final(self).title_spec() == old(self).title_spec(),
            final(self).cursor_on() == old(self).cursor_on(),
    {
        let line_len = self.line_len();
        if self.cursor.j == line_len {
            if self.cursor.i == lines_vec(&self.text).len() as i32 - 1 {
                false
            } else {
                self.cursor.j = 0;
                self.cursor.i = self.cursor.i + 1;
                true
            }
        } else {
            self.cursor.j = self.cursor.j + 1;
            true
        }
    }

    /// Moves the cursor one place left, as `left_of` says; tells whether it moved.
    fn move_cursor_left(&mut self) -> (moved: bool)
        requires
            old(self).wf(),
        ensures
            ({
                let (i, j, m) = left_of(
                    old(self).lines(),
                    old(self).cursor_spec().i as int,
                    old(self).cursor_spec().j as int,
                );
                final(self).cursor_spec().i == i && final(self).cursor_spec().j == j && moved == m
            }),
            final(self).lines() == old(self).lines(),
            final(self).rect_spec() == old(self).rect_spec(),
            final(self).title_spec() == old(self).title_spec(),
            final(self).cursor_on() == old(self).cursor_on(),
    {
        if self.cursor.j == 0 {
            if self.cursor.i == 0 {
                false
            } else {
                self.cursor.i = self.cursor.i - 1;
                self.cursor.j = self.line_len();
                true
            }
        } else {
            self.cursor.j = self.cursor.j - 1;
            true
        }
    }
}


proof fn lemma_split_nonempty(s: Seq<char>)
    ensures
        split_lines(s).len() >= 1,
    decreases s.len(),
{
    if s.len() > 0 {
        lemma_split_nonempty(s.drop_last());
    }
}

proof fn lemma_trim_shorter(l: Seq<char>)
    ensures
        trim_end(l).len() <= l.len(),
        trim_end(l) == l.take(trim_end(l).len() as int),
    decreases l.len(),
{
    if l.len() > 0 && spec_is_ascii_whitespace(l.last()) {
        lemma_trim_shorter(l.drop_last());
        assert(l.drop_last().take(trim_end(l).len() as int) =~= l.take(trim_end(l).len() as int));
    } else {
        assert(l.take(l.len() as int) =~= l);
    }
}

proof fn lemma_drop_trailing_prefix(ls: Seq<Seq<char>>)
    requires
        ls.len() >= 1,
    ensures
        1 <= drop_trailing_empty(ls).len() <= ls.len(),
        drop_trailing_empty(ls) == ls.take(drop_trailing_empty(ls).len() as int),
    decreases ls.len(),
{
    if ls.len() > 1 && ls.last().len() == 0 {
        lemma_drop_trailing_prefix(ls.drop_last());
        assert(ls.drop_last().take(drop_trailing_empty(ls).len() as int) =~= ls.take(
            drop_trailing_empty(ls).len() as int,
        ));
    } else {
        assert(ls.take(ls.len() as int) =~= ls);
    }
}

/// The lines of `chars`, as `split_lines` gives them.
fn split_text(chars: &Vec<char>) -> (r: Vec<Vec<char>>)
    ensures
        view_lines(r@) == split_lines(chars@),
{
    let mut done: Vec<Vec<char>> = Vec::new();
    let mut cur: Vec<char> = Vec::new();
    let n = chars.len();
    assert(chars@.take(0) =~= Seq::<char>::empty());
    assert(view_lines(done@).push(cur@) =~= split_lines(chars@.take(0)));
    for k in 0..n
        invariant
            n == chars.len(),
            view_lines(done@).push(cur@) == split_lines(chars@.take(k as int)),
    {
        let ghost d0 = done@;
        let ghost c0 = cur@;
        let c = chars[k];
        assert(chars@.take(k + 1).drop_last() =~= chars@.take(k as int));
        assert(chars@.take(k + 1).last() == c);
        if c == '\n' {
            done.push(cur);
            cur = Vec::new();
            assert(view_lines(done@).push(cur@) =~= view_lines(d0).push(c0).push(Seq::<char>::empty()));
        } else {
            cur.push(c);
            let ghost ls = view_lines(d0).push(c0);
            assert(view_lines(done@).push(cur@) =~= ls.update(ls.len() - 1, ls.last().push(c)));
        }
    }
    assert(chars@.take(n as int) =~= chars@);
    let ghost d0 = done@;
    done.push(cur);
    assert(view_lines(done@) =~= view_lines(d0).push(cur@));
    done
}

/// `line` cut to `w` characters, without trailing whitespace.
fn fit_copy(line: &Vec<char>, w: usize) -> (r: Vec<char>)
    ensures
        r@ == fit_line(line@, w as int),
{
    let m = if line.len() > w {
        w
    } else {
        line.len()
    };
    let mut r: Vec<char> = Vec::new();
    for c in 0..m
        invariant
            m <= line.len(),
            r@ == line@.take(c as int),
    {
        r.push(line[c]);
        assert(line@.take(c + 1) =~= line@.take(c as int).push(line@[c as int]));
    }
    assert(r@ == (if line@.len() > w {
        line@.take(w as int)
    } else {
        line@
    })) by {
        if line@.len() <= w {
            assert(line@.take(m as int) =~= line@);
        }
    }
    let ghost full = r@;
    loop
        invariant
            trim_end(r@) == trim_end(full),
        ensures
            r@ == trim_end(full),
        decreases r@.len(),
    {
        if r.len() == 0 {
            assert(trim_end(r@) == r@);
            break;
        }
        let last = r[r.len() - 1];
        if !is_ascii_whitespace(last) {
            assert(trim_end(r@) == r@);
            break;
        }
        let ghost before = r@;
        r.pop();
        assert(r@ =~= before.drop_last());
    }
    r
}

impl BasicTextEditor {
    /// Reacts to `event` as `after_event` says; the editor keeps fitting its
    /// rectangle.
    pub fn on_event(&mut self, event: EditorEvent)
        requires
            old(self).wf(),
        ensures
            final(self).wf(),
            (final(self).lines(), final(self).cursor_spec().i as int, final(self).cursor_spec().j as int)
                == after_event(
                old(self).lines(),
                old(self).cursor_spec().i as int,
                old(self).cursor_spec().j as int,
                old(self).rect_spec().size.w as int,
                old(self).rect_spec().size.h as int,
                event,
            ),
            final(self).rect_spec() == old(self).rect_spec(),
            final(self).title_spec() == old(self).title_spec(),
            final(self).cursor_on() == old(self).cursor_on(),
    {
        let ghost ls = self.lines();
        let i = self.cursor.i as usize;
        let j = self.cursor.j as usize;
        match event {
            EditorEvent::Character(c) => {
                if !is_control(c) && self.line_len() < self.rect.size.w - 1 {
                    let mut text = self.take_text();
                    let mut line = text.remove(i);
                    line.insert(j, c);
                    text.insert(i, line);
                    assert(view_lines(text@) =~= ls.update(i as int, ls[i as int].insert(j as int, c)));
                    self.put_text(text);
                    self.cursor.j = self.cursor.j + 1;
                }
            },
            EditorEvent::Back => {
                if j == 0 {
                    if i > 0 {
                        let new_i = i - 1;
                        assert(ls[new_i as int].len() <= self.rect.size.w);
                        let prev_len = lines_vec(&self.text)[new_i].len();
                        if (self.line_len() as i64) + (prev_len as i64) < self.rect.size.w as i64 {
                            let mut text = self.take_text();
                            let mut second = text.remove(i);
                            let mut first = text.remove(new_i);
                            self.cursor.j = first.len() as i32;
                            first.append(&mut second);
                            text.insert(new_i, first);
                            assert(view_lines(text@) =~= ls.update(
                                new_i as int,
                                ls[new_i as int] + ls[i as int],
                            ).remove(i as int));
                            self.put_text(text);
                            self.cursor.i = new_i as i32;
                        }
                    }
                } else {
                    self.cursor.j = self.cursor.j - 1;
                    let mut text = self.take_text();
                    let mut line = text.remove(i);
                    line.remove(j - 1);
                    text.insert(i, line);
                    assert(view_lines(text@) =~= ls.update(i as int, ls[i as int].remove(j - 1)));
                    self.put_text(text);
                }
            },
            EditorEvent::Return => {
                if (lines_vec(&self.text).len() as i32) < self.rect.size.h {
                    let mut text = self.take_text();
                    let mut line = text.remove(i);
                    let rest = line.split_off(j);
                    text.insert(i, line);
                    text.insert(i + 1, rest);
                    assert(view_lines(text@) =~= ls.update(i as int, ls[i as int].take(j as int)).insert(
                        i + 1,
                        ls[i as int].skip(j as int),
                    ));
                    self.put_text(text);
                    self.cursor.i = self.cursor.i + 1;
                    self.cursor.j = 0;
                }
            },
            EditorEvent::Right => {
                self.move_cursor_right();
            },
            EditorEvent::Left => {
                self.move_cursor_left();
            },
            EditorEvent::Up => {
                if self.cursor.i > 0 {
                    assert(ls[i - 1].len() <= self.rect.size.w);
                    let len = lines_vec(&self.text)[i - 1].len() as i32;
                    self.cursor.i = self.cursor.i - 1;
                    if len < self.cursor.j {
                        self.cursor.j = len;
                    }
                }
            },
            EditorEvent::Down => {
                if self.cursor.i < lines_vec(&self.text).len() as i32 - 1 {
                    assert(ls[i + 1].len() <= self.rect.size.w);
                    let len = lines_vec(&self.text)[i + 1].len() as i32;
                    self.cursor.i = self.cursor.i + 1;
                    if len < self.cursor.j {
                        self.cursor.j = len;
                    }
                }
            },
            EditorEvent::Other => {},
        }
    }

    /// Replaces the text with the lines `loaded_lines` gives for `str`. The
    /// cursor stays where it was, so it may lie past the new text; `wf` then
    /// no longer holds, and an event needs the cursor set back inside first.
    pub fn load_string(&mut self, str: String)
        requires
            old(self).text_fits(),
        ensures
            final(self).text_fits(),
            final(self).lines() == loaded_lines(
                str@,
                old(self).rect_spec().size.w as int,
                old(self).rect_spec().size.h as int,
            ),
            final(self).cursor_spec() == old(self).cursor_spec(),
            final(self).rect_spec() == old(self).rect_spec(),
            final(self).title_spec() == old(self).title_spec(),
            final(self).cursor_on() == old(self).cursor_on(),
    {
        let ghost wi = self.rect.size.w as int;
        let ghost hi = self.rect.size.h as int;
        let chars = chars_of(str.as_str());
        let lines = split_text(&chars);
        proof {
            lemma_split_nonempty(str@);
        }
        let w = self.rect.size.w as usize;
        let h = self.rect.size.h as usize;
        let keep = if lines.len() > h {
            h
        } else {
            lines.len()
        };
        let ghost split = split_lines(str@);
        let ghost kept = if split.len() > hi {
            split.take(hi)
        } else {
            split
        };
        let ghost fitted_all = kept.map_values(|l: Seq<char>| fit_line(l, wi));
        assert(kept.len() == keep);
        let mut fitted: Vec<Vec<char>> = Vec::new();
        for k in 0..keep
            invariant
                keep == kept.len(),
                keep <= lines.len(),
                1 <= hi,
                w == wi,
                view_lines(lines@) == split,
                kept == (if split.len() > hi {
                    split.take(hi)
                } else {
                    split
                }),
                fitted_all == kept.map_values(|l: Seq<char>| fit_line(l, wi)),
                view_lines(fitted@) == fitted_all.take(k as int),
        {
            let line = fit_copy(&lines[k], w);
            assert(view_lines(lines@)[k as int] == lines@[k as int]@);
            assert(view_lines(lines@).len() == lines@.len());
            proof {
                if split.len() > hi {
                    assert(kept[k as int] == split[k as int]);
                }
            }
            assert(kept[k as int] == lines@[k as int]@);
            assert(fitted_all[k as int] == fit_line(kept[k as int], wi));
            assert(line@ == fitted_all[k as int]);
            assert(fitted_all.take(k + 1) =~= fitted_all.take(k as int).push(fitted_all[k as int]));
            assert(view_lines(fitted@.push(line)) =~= view_lines(fitted@).push(line@));
            assert(view_lines(fitted@.push(line)) =~= fitted_all.take(k + 1));
            fitted.push(line);
        }
        assert(fitted_all.take(keep as int) =~= fitted_all);
        proof {
            lemma_drop_trailing_prefix(fitted_all);
        }
        loop
            invariant
                fitted@.len() >= 1,
                drop_trailing_empty(view_lines(fitted@)) == drop_trailing_empty(fitted_all),
            ensures
                fitted@.len() >= 1,
                view_lines(fitted@) == drop_trailing_empty(fitted_all),
            decreases fitted@.len(),
        {
            if fitted.len() <= 1 {
                assert(drop_trailing_empty(view_lines(fitted@)) == view_lines(fitted@));
                break;
            }
            if fitted[fitted.len() - 1].len() != 0 {
                assert(view_lines(fitted@).last() == fitted@[fitted@.len() - 1]@);
                assert(drop_trailing_empty(view_lines(fitted@)) == view_lines(fitted@));
                break;
            }
            let ghost before = fitted@;
            fitted.pop();
            assert(view_lines(fitted@) =~= view_lines(before).drop_last());
        }
        self.text = match lines_vec1(fitted) {
            Ok(t) => t,
            Err(_) => vstd::pervasive::unreached(),
        };
        let ghost result = self.lines();
        assert(result == loaded_lines(str@, wi, hi));
        proof {
            assert forall|k: int| 0 <= k < result.len() implies (#[trigger] result[k]).len() <= wi by {
                let full = fitted_all;
                assert(result[k] == full[k]);
                let l = kept[k];
                lemma_trim_shorter(if l.len() > wi {
                    l.take(wi)
                } else {
                    l
                });
            }
        }
    }
}


/// Deleting right after typing undoes the typing: a character that was
/// inserted is removed again by Back, and the cursor goes back.
pub proof fn back_undoes_character(ls: Seq<Seq<char>>, i: int, j: int, w: int, h: int, c: char)
    requires
        fits(ls, i, j, w, h),
        !spec_is_control(c),
        ls[i].len() < w - 1,
    ensures
        ({
            let (ls2, i2, j2) = after_event(ls, i, j, w, h, EditorEvent::Character(c));
            after_event(ls2, i2, j2, w, h, EditorEvent::Back) == (ls, i, j)
        }),
{
    let (ls2, i2, j2) = after_event(ls, i, j, w, h, EditorEvent::Character(c));
    assert(ls2[i].remove(j) =~= ls[i]) by {
        assert(ls2[i] == ls[i].insert(j, c));
    }
    assert(ls2.update(i, ls2[i].remove(j)) =~= ls);
}

/// Back at the start of a line undoes Return: the split line is joined again,
/// and the cursor goes back, when the line is shorter than the width.
pub proof fn back_undoes_return(ls: Seq<Seq<char>>, i: int, j: int, w: int, h: int)
    requires
        fits(ls, i, j, w, h),
        ls.len() < h,
        ls[i].len() < w,
    ensures
        ({
            let (ls2, i2, j2) = after_event(ls, i, j, w, h, EditorEvent::Return);
            after_event(ls2, i2, j2, w, h, EditorEvent::Back) == (ls, i, j)
        }),
{
    let (ls2, i2, j2) = after_event(ls, i, j, w, h, EditorEvent::Return);
    assert(ls2[i] == ls[i].take(j));
    assert(ls2[i + 1] == ls[i].skip(j));
    assert(ls[i].take(j) + ls[i].skip(j) =~= ls[i]);
    assert(ls2.update(i, ls2[i] + ls2[i + 1]).remove(i + 1) =~= ls);
}

/// Every event keeps the lines and the cursor fitting the editor.
pub proof fn events_keep_fit(ls: Seq<Seq<char>>, i: int, j: int, w: int, h: int, e: EditorEvent)
    requires
        fits(ls, i, j, w, h),
    ensures
        ({
            let (ls2, i2, j2) = after_event(ls, i, j, w, h, e);
            fits(ls2, i2, j2, w, h)
        }),
{
    let (ls2, i2, j2) = after_event(ls, i, j, w, h, e);
    match e {
        EditorEvent::Character(c) => {
            if !spec_is_control(c) && ls[i].len() < w - 1 {
                assert forall|k: int| 0 <= k < ls2.len() implies (#[trigger] ls2[k]).len() <= w by {
                    if k != i {
                        assert(ls2[k] == ls[k]);
                    }
                }
            }
        },
        EditorEvent::Back => {
            if j == 0 {
                if i > 0 && ls[i].len() + ls[i - 1].len() < w {
                    let u = ls.update(i - 1, ls[i - 1] + ls[i]);
                    assert forall|k: int| 0 <= k < ls2.len() implies (#[trigger] ls2[k]).len() <= w by {
                        if k < i {
                            assert(ls2[k] == u[k]);
                        } else {
                            assert(ls2[k] == u[k + 1]);
                        }
                    }
                }
            } else {
                assert forall|k: int| 0 <= k < ls2.len() implies (#[trigger] ls2[k]).len() <= w by {
                    if k != i {
                        assert(ls2[k] == ls[k]);
                    }
                }
            }
        },
        EditorEvent::Return => {
            if ls.len() < h {
                let u = ls.update(i, ls[i].take(j));
                assert forall|k: int| 0 <= k < ls2.len() implies (#[trigger] ls2[k]).len() <= w by {
                    if k <= i {
                        assert(ls2[k] == u[k]);
                    } else if k > i + 1 {
                        assert(ls2[k] == u[k - 1]);
                    }
                }
            }
        },
        _ => {},
    }
}

proof fn lemma_join_push_char(ls: Seq<Seq<char>>, c: char)
    requires
        ls.len() >= 1,
    ensures
        join_lines(ls.update(ls.len() - 1, ls.last().push(c))) == join_lines(ls).push(c),
{
    let u = ls.update(ls.len() - 1, ls.last().push(c));
    if ls.len() == 1 {
        assert(u[0] == ls[0].push(c));
    } else {
        assert(u.drop_last() =~= ls.drop_last());
        assert(join_lines(u) =~= join_lines(ls).push(c));
    }
}

/// Splitting a text into lines and joining them again gives the text back.
pub proof fn join_split(s: Seq<char>)
    ensures
        join_lines(split_lines(s)) == s,
    decreases s.len(),
{
    if s.len() > 0 {
        join_split(s.drop_last());
        lemma_split_nonempty(s.drop_last());
        let ls = split_lines(s.drop_last());
        if s.last() == '\n' {
            assert(ls.push(Seq::<char>::empty()).drop_last() =~= ls);
            assert(join_lines(split_lines(s)) =~= s);
        } else {
            lemma_join_push_char(ls, s.last());
            assert(s.drop_last().push(s.last()) =~= s);
        }
    }
}

/// A text whose lines already fit the editor (at most `h` of them, none longer
/// than `w` nor ending in whitespace, and no empty last line unless it is the
/// only one) is shown unchanged: loading it and reading the text back gives it.
pub proof fn load_then_read(s: Seq<char>, w: int, h: int)
    requires
        split_lines(s).len() <= h,
        forall|k: int|
            0 <= k < split_lines(s).len() ==> (#[trigger] split_lines(s)[k]).len() <= w && trim_end(
                split_lines(s)[k],
            ) == split_lines(s)[k],
        split_lines(s).len() == 1 || split_lines(s).last().len() > 0,
    ensures
        join_lines(loaded_lines(s, w, h)) == s,
{
    let ls = split_lines(s);
    lemma_split_nonempty(s);
    let fitted = ls.map_values(|l: Seq<char>| fit_line(l, w));
    assert(fitted =~= ls) by {
        assert forall|k: int| 0 <= k < ls.len() implies fitted[k] == ls[k] by {
            assert(trim_end(ls[k]) == ls[k]);
        }
    }
    assert(drop_trailing_empty(ls) == ls);
    join_split(s);
}

/// The cursor is on a line of `ls`, at most at its end.
pub open spec fn cursor_in(ls: Seq<Seq<char>>, i: int, j: int) -> bool {
    0 <= i < ls.len() && 0 <= j <= ls[i].len()
}

/// Moving the cursor right stays inside the text and fails only at the end
/// of the last line, where the cursor stays; moving left after a move right
/// brings it back. The same holds the other way round, at the start of the
/// first line. The lines themselves are never changed by these moves.
pub proof fn right_then_left(ls: Seq<Seq<char>>, i: int, j: int)
    requires
        cursor_in(ls, i, j),
    ensures
        ({
            let (i2, j2, moved) = right_of(ls, i, j);
            &&& cursor_in(ls, i2, j2)
            &&& !moved <==> (i == ls.len() - 1 && j == ls[i].len())
            &&& !moved ==> (i2, j2) == (i, j)
            &&& moved ==> left_of(ls, i2, j2) == (i, j, true)
        }),
        ({
            let (i2, j2, moved) = left_of(ls, i, j);
            &&& cursor_in(ls, i2, j2)
            &&& !moved <==> (i == 0 && j == 0)
            &&& !moved ==> (i2, j2) == (i, j)
            &&& moved ==> right_of(ls, i2, j2) == (i, j, true)
        }),
{
}

} // verus!
