//! Identifiers of editor views, as the editor backend names them.
use vstd::prelude::*;

use crate::util::numbers::{parse_unsigned, spec_parse_unsigned};
use crate::interpreter::chars::{is_control, spec_is_control};
use crate::math::Pos;
use crate::util::text::{chars_of, push_str};

verus! {

/// A view of the editor backend, by number.
#[derive(Debug, Clone, Copy, PartialEq, Eq, Structural)]
pub struct ViewId(pub usize);

/// Why a text is not a view id.
#[derive(Debug, Clone, Copy, PartialEq, Eq, Structural)]
pub enum ViewIdParseError {
    /// It does not start with `view-id-`.
    WrongPrefix,
    /// What follows the prefix is not an unsigned integer.
    NotInt,
}

/// The prefix of every view id.
pub open spec fn view_prefix() -> Seq<char> {
    seq!['v', 'i', 'e', 'w', '-', 'i', 'd', '-']
}

/// The number a view id names: `view-id-` followed by an unsigned integer
/// that fits in a `usize`.
pub open spec fn view_id_of(s: Seq<char>) -> Option<nat> {
    let p = view_prefix();
    if s.len() < p.len() || s.take(p.len() as int) != p {
        None
    } else {
        spec_parse_unsigned(s.skip(p.len() as int), usize::MAX as nat)
    }
}

impl ViewId {
    /// Reads `view-id-` followed by an unsigned integer.
    pub fn try_from(value: &str) -> (r: Result<ViewId, ViewIdParseError>)
        ensures
            ({
                let s = value@;
                let p = view_prefix();
                if s.len() < p.len() || s.take(p.len() as int) != p {
                    r == Err::<ViewId, ViewIdParseError>(ViewIdParseError::WrongPrefix)
                } else {
                    match spec_parse_unsigned(s.skip(p.len() as int), usize::MAX as nat) {
                        Some(n) => r == Ok::<ViewId, ViewIdParseError>(ViewId(n as usize)),
                        None => r == Err::<ViewId, ViewIdParseError>(ViewIdParseError::NotInt),
                    }
                }
            }),
    {
        let chars = chars_of(value);
        let prefix: Vec<char> = vec!['v', 'i', 'e', 'w', '-', 'i', 'd', '-'];
        assert(prefix@ =~= view_prefix());
        if chars.len() < prefix.len() {
            return Err(ViewIdParseError::WrongPrefix);
        }
        for k in 0..prefix.len()
            invariant
                prefix@ == view_prefix(),
                chars@ == value@,
                chars.len() >= prefix.len(),
                forall|t: int| 0 <= t < k ==> chars@[t] == prefix@[t],
        {
            if chars[k] != prefix[k] {
                assert(chars@.take(8)[k as int] != view_prefix()[k as int]);
                return Err(ViewIdParseError::WrongPrefix);
            }
        }
        assert(chars@.take(8) =~= view_prefix());
        let mut rest: Vec<char> = Vec::new();
        for k in prefix.len()..chars.len()
            invariant
                prefix.len() == 8,
                chars.len() >= 8,
                rest@ == chars@.subrange(8, k as int),
        {
            rest.push(chars[k]);
            assert(chars@.subrange(8, k + 1) =~= chars@.subrange(8, k as int).push(chars@[k as int]));
        }
        assert(rest@ =~= chars@.skip(8));
        match parse_unsigned(&rest, usize::MAX as u64) {
            Some(n) => Ok(ViewId(n as usize)),
            None => Err(ViewIdParseError::NotInt),
        }
    }
}

/// The kinds of operation of an update of the editor backend.
#[derive(Debug, Clone, Copy, PartialEq, Eq, Structural)]
pub enum UpdateOpType {
    Copy,
    Skip,
    Invalidate,
    Update,
    Ins,
}

/// An operation of an update of the backend: the new lines are built by
/// reading the old ones in order.
#[derive(Debug)]
pub enum UpdateOp {
    /// Keep the next `n` old lines.
    Copy { n: usize, ln: usize },
    /// Leave out the next `n` old lines.
    Skip { n: usize },
    /// `n` lines whose text is not known yet, shown empty.
    Invalidate { n: usize },
    /// New styles for `n` lines; never sent to this editor.
    Update { n: usize },
    /// New lines.
    Ins { n: usize, lines: Vec<String> },
}

/// The lines that `ops` build from the old lines `old`, the old lines before
/// `k` having been read already. Copying or skipping past the end of the old
/// lines stops there.
pub open spec fn run_ops(old: Seq<Seq<char>>, k: int, ops: Seq<UpdateOp>) -> Seq<Seq<char>>
    decreases ops.len(),
{
    if ops.len() == 0 {
        Seq::empty()
    } else {
        let rest = ops.drop_first();
        match ops[0] {
            UpdateOp::Copy { n, .. } => {
                let end = if k + n <= old.len() {
                    k + n
                } else {
                    old.len() as int
                };
                old.subrange(k, end) + run_ops(old, end, rest)
            },
            UpdateOp::Skip { n } => {
                let end = if k + n <= old.len() {
                    k + n
                } else {
                    old.len() as int
                };
                run_ops(old, end, rest)
            },
            UpdateOp::Invalidate { n } => Seq::new(n as nat, |i: int| Seq::<char>::empty()) + run_ops(
                old,
                k,
                rest,
            ),
            UpdateOp::Update { .. } => run_ops(old, k, rest),
            UpdateOp::Ins { lines, .. } => lines@.map_values(|l: String| l@) + run_ops(old, k, rest),
        }
    }
}

/// An edit asked of the backend by a key or a character.
#[derive(Debug, Clone, Copy, PartialEq, Eq, Structural)]
pub enum EditKind {
    Insert(char),
    DeleteBackward,
    DeleteForward,
    InsertNewline,
    InsertTab,
    MoveRight,
    MoveRightAndModifySelection,
    MoveLeft,
    MoveLeftAndModifySelection,
    MoveUp,
    MoveUpAndModifySelection,
    MoveDown,
    MoveDownAndModifySelection,
    SelectAll,
    Undo,
    Redo,
    /// Paste what the clipboard holds.
    PasteClipboard,
}

/// What the clipboard gets from the backend.
#[derive(Debug, Clone, Copy, PartialEq, Eq, Structural)]
pub enum ClipboardRequest {
    Copy,
    Cut,
}

/// The keys the editor reacts to.
#[derive(Debug, Clone, Copy, PartialEq, Eq, Structural)]
pub enum EditorKey {
    Back,
    Return,
    NumpadEnter,
    Right,
    Left,
    Up,
    Down,
    A,
    C,
    V,
    X,
    Z,
    Tab,
    Delete,
    Other,
}

/// The edit of `key`, with shift and ctrl held or not, when the editor holds
/// `lines` lines of at most `height`: a new line only while there is room
/// for it and ctrl is up (ctrl+return runs the code).
pub open spec fn key_edit(key: EditorKey, shift: bool, ctrl: bool, lines: nat, height: nat) -> Option<EditKind> {
    match key {
        EditorKey::Back => Some(EditKind::DeleteBackward),
        EditorKey::Return | EditorKey::NumpadEnter => if !ctrl && lines < height {
            Some(EditKind::InsertNewline)
        } else {
            None
        },
        EditorKey::Right => Some(
            if shift {
                EditKind::MoveRightAndModifySelection
            } else {
                EditKind::MoveRight
            },
        ),
        EditorKey::Left => Some(
            if shift {
                EditKind::MoveLeftAndModifySelection
            } else {
                EditKind::MoveLeft
            },
        ),
        EditorKey::Up => Some(
            if shift {
                EditKind::MoveUpAndModifySelection
            } else {
                EditKind::MoveUp
            },
        ),
        EditorKey::Down => Some(
            if shift {
                EditKind::MoveDownAndModifySelection
            } else {
                EditKind::MoveDown
            },
        ),
        EditorKey::A => if ctrl {
            Some(EditKind::SelectAll)
        } else {
            None
        },
        EditorKey::Z => if ctrl {
            Some(
                if shift {
                    EditKind::Redo
                } else {
                    EditKind::Undo
                },
            )
        } else {
            None
        },
        EditorKey::V => if ctrl {
            Some(EditKind::PasteClipboard)
        } else {
            None
        },
        EditorKey::Tab => Some(EditKind::InsertTab),
        EditorKey::Delete => Some(EditKind::DeleteForward),
        _ => None,
    }
}

/// The view of the backend's editor that the screen shows.
#[derive(Debug)]
pub struct XiView {
    pub view_id: usize,
    /// Where the cursor is: line, column.
    pub cursor: Pos,
    /// The lines, each with its newline if it has one.
    pub text: Vec<String>,
    /// Selected ranges, from (line, column) to (line, column).
    pub selections: Vec<(Pos, Pos)>,
    /// The columns of the editor's box.
    pub width: usize,
    /// The rows of the editor's box.
    pub height: usize,
}

/// The lines of `text` as characters.
pub open spec fn lines_view(text: Seq<String>) -> Seq<Seq<char>> {
    text.map_values(|l: String| l@)
}

/// All lines, one after the other.
pub open spec fn joined(lines: Seq<Seq<char>>) -> Seq<char>
    decreases lines.len(),
{
    if lines.len() == 0 {
        Seq::empty()
    } else {
        joined(lines.drop_last()) + lines.last()
    }
}

/// The bytes of the line under the cursor, none when the cursor is on no line.
pub open spec fn cursor_line_len(v: XiView) -> nat {
    if 0 <= v.cursor.i < v.text@.len() {
        (vstd::utf8::encode_utf8(v.text@[v.cursor.i as int]@).len() as usize) as nat
    } else {
        0
    }
}

impl XiView {
    /// An empty view of the backend's view `view_id`, in a box of `width`
    /// columns and `height` rows.
    pub fn new(view_id: usize, width: usize, height: usize) -> (r: Self)
        ensures
            r.view_id == view_id,
            r.cursor == (Pos { i: 0, j: 0 }),
            r.text@.len() == 0,
            r.selections@.len() == 0,
            r.width == width,
            r.height == height,
    {
        XiView { view_id, cursor: Pos { i: 0, j: 0 }, text: Vec::new(), selections: Vec::new(), width, height }
    }

    /// The edit of `key` in this view, as `key_edit` says.
    pub fn key_edit(&self, key: EditorKey, shift: bool, ctrl: bool) -> (r: Option<EditKind>)
        ensures
            r == key_edit(key, shift, ctrl, self.text@.len(), self.height as nat),
    {
        match key {
            EditorKey::Back => Some(EditKind::DeleteBackward),
            EditorKey::Return | EditorKey::NumpadEnter => if !ctrl && self.text.len() < self.height {
                Some(EditKind::InsertNewline)
            } else {
                None
            },
            EditorKey::Right => Some(
                if shift {
                    EditKind::MoveRightAndModifySelection
                } else {
                    EditKind::MoveRight
                },
            ),
            EditorKey::Left => Some(
                if shift {
                    EditKind::MoveLeftAndModifySelection
                } else {
                    EditKind::MoveLeft
                },
            ),
            EditorKey::Up => Some(
                if shift {
                    EditKind::MoveUpAndModifySelection
                } else {
                    EditKind::MoveUp
                },
            ),
            EditorKey::Down => Some(
                if shift {
                    EditKind::MoveDownAndModifySelection
                } else {
                    EditKind::MoveDown
                },
            ),
            EditorKey::A => if ctrl {
                Some(EditKind::SelectAll)
            } else {
                None
            },
            EditorKey::Z => if ctrl {
                Some(
                    if shift {
                        EditKind::Redo
                    } else {
                        EditKind::Undo
                    },
                )
            } else {
                None
            },
            EditorKey::V => if ctrl {
                Some(EditKind::PasteClipboard)
            } else {
                None
            },
            EditorKey::Tab => Some(EditKind::InsertTab),
            EditorKey::Delete => Some(EditKind::DeleteForward),
            _ => None,
        }
    }

    /// Copy or cut, with ctrl+C or ctrl+X.
    pub fn clipboard_request(key: EditorKey, ctrl: bool) -> (r: Option<ClipboardRequest>)
        ensures
            r == if ctrl && key == EditorKey::C {
                Some(ClipboardRequest::Copy)
            } else if ctrl && key == EditorKey::X {
                Some(ClipboardRequest::Cut)
            } else {
                None
            },
    {
        if ctrl && key == EditorKey::C {
            Some(ClipboardRequest::Copy)
        } else if ctrl && key == EditorKey::X {
            Some(ClipboardRequest::Cut)
        } else {
            None
        }
    }

    /// A typed character is inserted unless it is a control character or
    /// the line under the cursor fills the width of the box.
    pub fn char_edit(&self, c: char) -> (r: Option<EditKind>)
        ensures
            r == if !spec_is_control(c) && cursor_line_len(*self) < self.width {
                Some(EditKind::Insert(c))
            } else {
                None
            },
    {
        let len = if 0 <= self.cursor.i && (self.cursor.i as usize) < self.text.len() {
            self.text[self.cursor.i as usize].as_str().len()
        } else {
            0
        };
        if !is_control(c) && len < self.width {
            Some(EditKind::Insert(c))
        } else {
            None
        }
    }

    /// Whether `view_id` names this view.
    pub fn check_view_id(&self, view_id: &str) -> (r: bool)
        ensures
            r <==> (view_id_of(view_id@) == Some(self.view_id as nat)),
    {
        match ViewId::try_from(view_id) {
            Ok(id) => id.0 == self.view_id,
            Err(_) => false,
        }
    }
}

/// What the backend tells the view, as far as the view listens.
#[derive(Debug)]
pub enum Notification {
    /// The cursor of view `view_id` moved to `line`, `col`.
    ScrollTo { view_id: String, line: usize, col: usize },
    /// The lines of view `view_id` changed as `ops` say; `selections`, when
    /// given, are its selected ranges (line, column, line, column).
    Update { view_id: String, ops: Vec<UpdateOp>, selections: Option<Vec<(usize, usize, usize, usize)>> },
    /// Anything else: configuration, plugins, languages, themes.
    Other,
}

/// None of `ops` is a style update.
pub open spec fn no_style_updates(ops: Seq<UpdateOp>) -> bool {
    forall|k: int| 0 <= k < ops.len() ==> !(#[trigger] ops[k] is Update)
}

/// The selected ranges as pairs of positions.
pub open spec fn selections_of(ranges: Seq<(usize, usize, usize, usize)>) -> Seq<(Pos, Pos)> {
    ranges.map_values(
        |r: (usize, usize, usize, usize)|
            (Pos { i: r.0 as i32, j: r.1 as i32 }, Pos { i: r.2 as i32, j: r.3 as i32 }),
    )
}

/// The lines that `ops` build from `old`, as `run_ops` says.
pub fn apply_ops(old: &Vec<String>, ops: &Vec<UpdateOp>) -> (r: Vec<String>)
    requires
        no_style_updates(ops@),
    ensures
        lines_view(r@) == run_ops(lines_view(old@), 0, ops@),
{
    let ghost lo = lines_view(old@);
    let mut new: Vec<String> = Vec::new();
    let mut k: usize = 0;
    assert(ops@.skip(0) =~= ops@);
    for t in 0..ops.len()
        invariant
            lo == lines_view(old@),
            no_style_updates(ops@),
            k <= old.len(),
            lines_view(new@) + run_ops(lo, k as int, ops@.skip(t as int)) == run_ops(lo, 0, ops@),
    {
        let ghost rest = ops@.skip(t + 1);
        let ghost before = lines_view(new@);
        assert(ops@.skip(t as int).drop_first() =~= rest);
        assert(ops@.skip(t as int)[0] == ops@[t as int]);
        match &ops[t] {
            UpdateOp::Copy { n, .. } => {
                let end = if *n <= old.len() - k {
                    k + *n
                } else {
                    old.len()
                };
                for i in k..end
                    invariant
                        lo == lines_view(old@),
                        k <= end <= old.len(),
                        lines_view(new@) == before + lo.subrange(k as int, i as int),
                {
                    let ghost prev = new@;
                    let c = old[i].clone();
                    new.push(c);
                    assert(lines_view(new@) =~= lines_view(prev).push(lo[i as int]));
                    assert(lines_view(new@) =~= before + lo.subrange(k as int, i + 1));
                }
                assert(run_ops(lo, k as int, ops@.skip(t as int)) == lo.subrange(k as int, end as int)
                    + run_ops(lo, end as int, rest));
                assert(lines_view(new@) + run_ops(lo, end as int, rest) =~= before + run_ops(
                    lo,
                    k as int,
                    ops@.skip(t as int),
                ));
                k = end;
            },
            UpdateOp::Skip { n } => {
                let end = if *n <= old.len() - k {
                    k + *n
                } else {
                    old.len()
                };
                k = end;
            },
            UpdateOp::Invalidate { n } => {
                for i in 0..*n
                    invariant
                        lines_view(new@) == before + Seq::new(i as nat, |x: int| Seq::<char>::empty()),
                {
                    let ghost prev = new@;
                    new.push(String::new());
                    assert(lines_view(new@) =~= lines_view(prev).push(Seq::<char>::empty()));
                    assert(lines_view(new@) =~= before + Seq::new((i + 1) as nat, |x: int| Seq::<char>::empty()));
                }
                assert(lines_view(new@) + run_ops(lo, k as int, rest) =~= before + run_ops(
                    lo,
                    k as int,
                    ops@.skip(t as int),
                ));
            },
            UpdateOp::Update { .. } => {
                assert(ops@[t as int] is Update);
            },
            UpdateOp::Ins { lines, .. } => {
                for i in 0..lines.len()
                    invariant
                        lines_view(new@) == before + lines@.map_values(|l: String| l@).take(i as int),
                {
                    let ghost prev = new@;
                    new.push(lines[i].clone());
                    assert(lines_view(new@) =~= lines_view(prev).push(lines@[i as int]@));
                    assert(lines_view(new@) =~= before + lines@.map_values(|l: String| l@).take(i + 1));
                }
                assert(lines@.map_values(|l: String| l@).take(lines.len() as int) =~= lines@.map_values(
                    |l: String| l@,
                ));
                assert(lines_view(new@) + run_ops(lo, k as int, rest) =~= before + run_ops(
                    lo,
                    k as int,
                    ops@.skip(t as int),
                ));
            },
        }
    }
    assert(run_ops(lo, k as int, ops@.skip(ops.len() as int)) =~= Seq::<Seq<char>>::empty());
    assert(lines_view(new@) + Seq::<Seq<char>>::empty() =~= lines_view(new@));
    new
}

fn selections_from(ranges: &Vec<(usize, usize, usize, usize)>) -> (r: Vec<(Pos, Pos)>)
    ensures
        r@ == selections_of(ranges@),
{
    let mut r: Vec<(Pos, Pos)> = Vec::new();
    for k in 0..ranges.len()
        invariant
            r@ == selections_of(ranges@).take(k as int),
    {
        let (i1, j1, i2, j2) = ranges[k];
        r.push((Pos { i: i1 as i32, j: j1 as i32 }, Pos { i: i2 as i32, j: j2 as i32 }));
        assert(r@ =~= selections_of(ranges@).take(k + 1));
    }
    assert(r@ =~= selections_of(ranges@));
    r
}

impl XiView {
    /// All the text, line after line.
    pub fn to_string(&self) -> (r: String)
        ensures
            r@ == joined(lines_view(self.text@)),
    {
        let mut r = String::new();
        for k in 0..self.text.len()
            invariant
                r@ == joined(lines_view(self.text@).take(k as int)),
        {
            push_str(&mut r, self.text[k].as_str());
            assert(lines_view(self.text@).take(k + 1).drop_last() =~= lines_view(self.text@).take(k as int));
        }
        assert(lines_view(self.text@).take(self.text.len() as int) =~= lines_view(self.text@));
        r
    }

    /// Takes in what the backend says about the view `view_id`; what it
    /// says of other views is left aside.
    pub fn handle_notif(&mut self, notif: Notification)
        requires
            notif matches Notification::Update { ops, .. } ==> no_style_updates(ops@),
        ensures
            final(self).view_id == old(self).view_id,
            final(self).width == old(self).width,
            final(self).height == old(self).height,
            match notif {
                Notification::ScrollTo { view_id, line, col } => if view_id_of(view_id@) == Some(
                    old(self).view_id as nat,
                ) {
                    &&& final(self).cursor == (Pos { i: line as i32, j: col as i32 })
                    &&& final(self).text == old(self).text
                    &&& final(self).selections == old(self).selections
                } else {
                    &&& final(self).cursor == old(self).cursor
                    &&& final(self).text == old(self).text
                    &&& final(self).selections == old(self).selections
                },
                Notification::Update { view_id, ops, selections } => if view_id_of(view_id@) == Some(
                    old(self).view_id as nat,
                ) {
                    &&& final(self).cursor == old(self).cursor
                    &&& lines_view(final(self).text@) == run_ops(lines_view(old(self).text@), 0, ops@)
                    &&& final(self).selections@ == match selections {
                        Some(rs) => selections_of(rs@),
                        None => old(self).selections@,
                    }
                } else {
                    &&& final(self).cursor == old(self).cursor
                    &&& final(self).text == old(self).text
                    &&& final(self).selections == old(self).selections
                },
                Notification::Other => {
                    &&& final(self).cursor == old(self).cursor
                    &&& final(self).text == old(self).text
                    &&& final(self).selections == old(self).selections
                },
            },
    {
        match notif {
            Notification::ScrollTo { view_id, line, col } => {
                if self.check_view_id(view_id.as_str()) {
                    self.cursor = Pos { i: line as i32, j: col as i32 };
                }
            },
            Notification::Update { view_id, ops, selections } => {
                if self.check_view_id(view_id.as_str()) {
                    let text = apply_ops(&self.text, &ops);
                    self.text = text;
                    if let Some(rs) = selections {
                        self.selections = selections_from(&rs);
                    }
                }
            },
            Notification::Other => {},
        }
    }
}

/// An update that copies every old line keeps the text as it was; one that
/// skips them all and inserts new lines leaves just the new lines.
pub proof fn copy_all_keeps_lines(old: Seq<Seq<char>>, lines: Vec<String>, ln: usize, n: usize)
    requires
        old.len() <= usize::MAX,
    ensures
        run_ops(old, 0, seq![UpdateOp::Copy { n: old.len() as usize, ln }]) == old,
        run_ops(old, 0, seq![UpdateOp::Skip { n: old.len() as usize }, UpdateOp::Ins { n, lines }])
            == lines@.map_values(|l: String| l@),
{
    let c = seq![UpdateOp::Copy { n: old.len() as usize, ln }];
    assert(c.drop_first() =~= Seq::<UpdateOp>::empty());
    assert(old.subrange(0, old.len() as int) =~= old);
    assert(c[0] == UpdateOp::Copy { n: old.len() as usize, ln });
    assert(run_ops(old, old.len() as int, c.drop_first()) == Seq::<Seq<char>>::empty());
    assert(run_ops(old, 0, c) =~= old + Seq::<Seq<char>>::empty());
    let ops = seq![UpdateOp::Skip { n: old.len() as usize }, UpdateOp::Ins { n, lines }];
    assert(ops.drop_first() =~= seq![UpdateOp::Ins { n, lines }]);
    assert(ops.drop_first().drop_first() =~= Seq::<UpdateOp>::empty());
    assert(run_ops(old, old.len() as int, ops.drop_first()) =~= lines@.map_values(|l: String| l@)
        + Seq::<Seq<char>>::empty());
}

/// What the mouse does on the editor.
#[derive(Debug, Clone, Copy, PartialEq, Eq, Structural)]
pub enum GestureType {
    /// The mouse moved with its button down: extend the selection.
    Drag,
    /// The button went down: put the cursor there.
    Select,
}

/// Where a mouse gesture at `mouse` falls in an editor whose box starts at
/// `origin`, as (line, column): the position relative to the box, a drag
/// held to the box's first line and column, a click taken as it is (a
/// negative value wraps around as unsigned numbers do).
pub fn gesture_position(mouse: Pos, origin: Pos, ty: GestureType) -> (r: (u64, u64))
    requires
        i32::MIN <= mouse.i - origin.i <= i32::MAX,
        i32::MIN <= mouse.j - origin.j <= i32::MAX,
    ensures
        ({
            let i = (mouse.i - origin.i) as i32;
            let j = (mouse.j - origin.j) as i32;
            r == match ty {
                GestureType::Drag => (
                    (if i < 0 {
                        0i32
                    } else {
                        i
                    }) as u64,
                    (if j < 0 {
                        0i32
                    } else {
                        j
                    }) as u64,
                ),
                GestureType::Select => (i as u64, j as u64),
            }
        }),
{
    let mut i = mouse.i - origin.i;
    let mut j = mouse.j - origin.j;
    match ty {
        GestureType::Drag => {
            if i < 0 {
                i = 0;
            }
            if j < 0 {
                j = 0;
            }
            (i as u64, j as u64)
        },
        GestureType::Select => (i as u64, j as u64),
    }
}

/// The cells of line `i` from column `from` to column `to`, both included.
pub open spec fn span(i: int, from: int, to: int) -> Seq<Pos> {
    if from > to {
        Seq::empty()
    } else {
        Seq::new((to - from + 1) as nat, |k: int| Pos { i: i as i32, j: (from + k) as i32 })
    }
}

/// The cells a selection from `a` to `b` highlights, from line `i` on: on
/// each line up to `b`'s, from `a`'s column on `a`'s line (else from the
/// first column) to `b`'s column on `b`'s line (else to the line's last
/// byte), where line `k` has `lens[k]` bytes.
pub open spec fn selection_rows(lens: Seq<usize>, a: Pos, b: Pos, i: int) -> Seq<Pos>
    decreases b.i + 1 - i,
{
    if i > b.i {
        Seq::empty()
    } else {
        let from = if i == a.i {
            a.j as int
        } else {
            0
        };
        let to = if i == b.i {
            b.j as int
        } else {
            lens[i] - 1
        };
        span(i, from, to) + selection_rows(lens, a, b, i + 1)
    }
}

/// The cells all `sels` highlight, selection after selection.
pub open spec fn selection_cells_spec(lens: Seq<usize>, sels: Seq<(Pos, Pos)>) -> Seq<Pos>
    decreases sels.len(),
{
    if sels.len() == 0 {
        Seq::empty()
    } else {
        selection_cells_spec(lens, sels.drop_last()) + selection_rows(
            lens,
            sels.last().0,
            sels.last().1,
            sels.last().0.i as int,
        )
    }
}

/// Every line a selection runs past, before its last, is a line of the text
/// whose length is an `i32`.
pub open spec fn selections_in_text(lens: Seq<usize>, sels: Seq<(Pos, Pos)>) -> bool {
    forall|k: int, i: int|
        #![trigger sels[k], lens[i]]
        0 <= k < sels.len() && sels[k].0.i <= i < sels[k].1.i ==> 0 <= i < lens.len() && lens[i] <= i32::MAX
}

/// The cells the selections `sels` highlight in a text whose lines have
/// `line_lens` bytes, as `selection_cells_spec` says.
pub fn selection_cells(line_lens: &Vec<usize>, selections: &Vec<(Pos, Pos)>) -> (r: Vec<Pos>)
    requires
        selections_in_text(line_lens@, selections@),
    ensures
        r@ == selection_cells_spec(line_lens@, selections@),
{
    let mut out: Vec<Pos> = Vec::new();
    for k in 0..selections.len()
        invariant
            selections_in_text(line_lens@, selections@),
            out@ == selection_cells_spec(line_lens@, selections@.take(k as int)),
    {
        let (a, b) = selections[k];
        let ghost before = out@;
        let ghost lens = line_lens@;
        let mut i: i64 = a.i as i64;
        while i <= b.i as i64
            invariant
                a == selections@[k as int].0,
                b == selections@[k as int].1,
                lens == line_lens@,
                a.i <= i <= b.i + 1 || (i == a.i && a.i > b.i),
                selections_in_text(lens, selections@),
                0 <= k < selections@.len(),
                out@ + selection_rows(lens, a, b, i as int) == before + selection_rows(lens, a, b, a.i as int),
            decreases b.i + 1 - i,
        {
            let from: i64 = if i == a.i as i64 {
                a.j as i64
            } else {
                0
            };
            let to: i64 = if i == b.i as i64 {
                b.j as i64
            } else {
                assert(0 <= i < lens.len() && lens[i as int] <= i32::MAX) by {
                    let _ = selections@[k as int];
                    let _ = lens[i as int];
                }
                line_lens[i as usize] as i64 - 1
            };
            let ghost base = out@;
            let mut j: i64 = from;
            while j <= to
                invariant
                    from <= j <= to + 1 || (j == from && from > to),
                    i32::MIN <= i <= i32::MAX,
                    i32::MIN <= from,
                    to <= i32::MAX,
                    out@ == base + span(i as int, from as int, j - 1),
                decreases to + 1 - j,
            {
                let ghost prev = out@;
                out.push(Pos { i: i as i32, j: j as i32 });
                assert(span(i as int, from as int, j as int) =~= span(i as int, from as int, j - 1).push(
                    Pos { i: i as i32, j: j as i32 },
                ));
                j = j + 1;
            }
            assert(span(i as int, from as int, j - 1) =~= span(i as int, from as int, to as int));
            i = i + 1;
            assert(selection_rows(lens, a, b, i - 1) == span(i - 1, from as int, to as int) + selection_rows(
                lens,
                a,
                b,
                i as int,
            ));
            assert(out@ + selection_rows(lens, a, b, i as int) =~= base + selection_rows(lens, a, b, i - 1));
        }
        assert(selection_rows(lens, a, b, i as int) =~= Seq::<Pos>::empty());
        assert(selections@.take(k + 1).drop_last() =~= selections@.take(k as int));
        assert(out@ =~= before + selection_rows(lens, a, b, a.i as int));
    }
    assert(selections@.take(selections.len() as int) =~= selections@);
    out
}

} // verus!
