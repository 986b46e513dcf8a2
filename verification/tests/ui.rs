use functional::audio::{set_volume, SFX};
use functional::editor::{BasicTextEditor, EditorEvent};
use functional::gamestates::main_menu::MenuItem;
use functional::gamestates::profile_selection::{validate, ProfileNameError, ProfileOutcome, ProfileSelectionState};
use functional::gamestates::string_reader::StringReaderState;
use functional::gamestates::{GameStateEvent, Key};
use functional::util::text::trim;
use functional::gamestates::EventTickData;
use functional::math::{inside_consider_border, Pos, Rect, Size, H, W};
use functional::text_editor::{
    apply_ops, gesture_position, selection_cells, ClipboardRequest, GestureType, EditKind, EditorKey, Notification, UpdateOp, UpdateOpType, ViewId, ViewIdParseError, XiView,
};
use functional::util::vec_with_cursor::VecWithCursor;

fn editor(w: i32, h: i32) -> BasicTextEditor {
    BasicTextEditor::new("Title".to_string(), Rect::new(0, 0, w, h), String::new())
}

fn lines(e: &BasicTextEditor) -> Vec<String> {
    e.text_lines().iter().map(|l| l.iter().collect()).collect()
}

fn type_text(e: &mut BasicTextEditor, text: &str) {
    for c in text.chars() {
        if c == '\n' {
            e.on_event(EditorEvent::Return);
        } else {
            e.on_event(EditorEvent::Character(c));
        }
    }
}

#[test]
fn editor_typing() {
    let mut e = editor(10, 3);
    type_text(&mut e, "ab\ncd");
    assert_eq!(e.to_string(), "ab\ncd");
    assert_eq!(e.cursor(), Pos::new(1, 2));
    // a line holds at most width - 1 characters
    type_text(&mut e, "efghijklmn");
    assert_eq!(lines(&e)[1], "cdefghijk");
    // no more lines than the height
    type_text(&mut e, "\nx\ny");
    assert_eq!(lines(&e).len(), 3);
    // control characters are not typed
    let before = e.to_string();
    e.on_event(EditorEvent::Character('\u{7}'));
    assert_eq!(e.to_string(), before);
}

#[test]
fn editor_back_and_return() {
    let mut e = editor(10, 3);
    type_text(&mut e, "abc");
    e.on_event(EditorEvent::Left);
    e.on_event(EditorEvent::Return);
    assert_eq!(e.to_string(), "ab\nc");
    assert_eq!(e.cursor(), Pos::new(1, 0));
    // Back at the start of a line joins it to the previous one
    e.on_event(EditorEvent::Back);
    assert_eq!(e.to_string(), "abc");
    assert_eq!(e.cursor(), Pos::new(0, 2));
    e.on_event(EditorEvent::Back);
    assert_eq!(e.to_string(), "ac");
    assert_eq!(e.cursor(), Pos::new(0, 1));
    // typed then deleted
    e.on_event(EditorEvent::Character('z'));
    e.on_event(EditorEvent::Back);
    assert_eq!(e.to_string(), "ac");
}

#[test]
fn editor_cursor_moves() {
    let mut e = editor(10, 3);
    type_text(&mut e, "abcd\nx");
    e.on_event(EditorEvent::Up);
    assert_eq!(e.cursor(), Pos::new(0, 1));
    e.on_event(EditorEvent::Right);
    e.on_event(EditorEvent::Right);
    e.on_event(EditorEvent::Right);
    assert_eq!(e.cursor(), Pos::new(0, 4));
    // past the end of a line: start of the next
    e.on_event(EditorEvent::Right);
    assert_eq!(e.cursor(), Pos::new(1, 0));
    // before the start of a line: end of the previous
    e.on_event(EditorEvent::Left);
    assert_eq!(e.cursor(), Pos::new(0, 4));
    e.on_event(EditorEvent::Down);
    assert_eq!(e.cursor(), Pos::new(1, 1));
    e.on_event(EditorEvent::Down);
    assert_eq!(e.cursor(), Pos::new(1, 1));
    e.on_event(EditorEvent::Other);
    assert_eq!(e.cursor(), Pos::new(1, 1));
}

#[test]
fn editor_load() {
    let mut e = editor(4, 2);
    e.load_string("abcdef  \nxy   \nthird".to_string());
    // lines cut to the width, trailing whitespace dropped, at most the height
    assert_eq!(lines(&e), vec!["abcd".to_string(), "xy".to_string()]);
    let mut e = editor(10, 5);
    e.load_string("a\n\n\n".to_string());
    // trailing empty lines dropped
    assert_eq!(lines(&e), vec!["a".to_string()]);
    e.load_string(String::new());
    assert_eq!(lines(&e), vec![String::new()]);
    // a text that fits reads back unchanged
    let mut e = editor(10, 5);
    e.load_string("x: x\n\ny".to_string());
    assert_eq!(e.to_string(), "x: x\n\ny");
}

#[test]
fn editor_load_leaves_cursor() {
    let mut e = editor(10, 5);
    type_text(&mut e, "abc\ndef\nghi");
    assert_eq!(e.cursor(), Pos::new(2, 3));
    assert!(e.cursor_fits());
    e.load_string("z".to_string());
    // the cursor stays where it was, past the new text
    assert_eq!(e.cursor(), Pos::new(2, 3));
    assert!(!e.cursor_fits());
    e.load_string("a\nb\ncdef".to_string());
    assert!(e.cursor_fits());
    e.set_cursor(false);
    assert!(!e.cursor_enabled());
    assert_eq!(e.title(), "Title");
    assert_eq!(*e.rect(), Rect::new(0, 0, 10, 5));
}

#[test]
fn cursor_wraps() {
    let mut v = VecWithCursor::from(vec!['a', 'b', 'c']);
    assert_eq!(*v.get(), 'a');
    v.cursor_decrement();
    assert_eq!(v.cursor(), 2);
    v.cursor_increment();
    assert_eq!(v.cursor(), 0);
    v.cursor_increment();
    v.cursor_increment();
    assert_eq!(*v.get(), 'c');
    v.cursor_increment();
    assert_eq!(v.cursor(), 0);
    assert_eq!(v.inner().len(), 3);
}

#[test]
fn positions() {
    let r = Rect::new(2, 3, 4, 5);
    assert!(Pos::new(2, 3).inside(&r));
    assert!(Pos::new(6, 6).inside(&r));
    assert!(!Pos::new(7, 6).inside(&r));
    assert!(!Pos::new(6, 7).inside(&r));
    assert!(!Pos::new(1, 3).inside(&r));
    assert_eq!(Pos::from_xy((3, 2)), Pos::new(2, 3));
    assert_eq!(r.bottom(), 6);
    assert_eq!(r.left(), 3);
    assert_eq!(Size::new(4, 5), r.size);
    let c = Rect::centered(20, 1);
    assert_eq!(c.pos, Pos::new(H / 2, W / 2 - 10));
    assert_eq!(Rect::centered(7, 3).pos, Pos::new(39, 62));
    // the frame around a rectangle: two rows above, one below, one column each side
    assert!(inside_consider_border(&Pos::new(0, 2), &r));
    assert!(inside_consider_border(&Pos::new(7, 7), &r));
    assert!(!inside_consider_border(&Pos::new(8, 7), &r));
    assert!(!inside_consider_border(&Pos::new(0, 1), &r));
}

#[test]
fn audio_settings() {
    assert_eq!(set_volume(3), 3);
    assert_eq!(set_volume(10), 10);
    assert_eq!(set_volume(200), 10);
    assert_eq!(SFX::Confirm.name(), "confirm");
    assert_eq!(SFX::Wrong.name(), "wrong");
}

#[test]
fn view_ids() {
    assert_eq!(ViewId::try_from("view-id-12"), Ok(ViewId(12)));
    assert_eq!(ViewId::try_from("view-id-+7"), Ok(ViewId(7)));
    assert_eq!(ViewId::try_from("view-12"), Err(ViewIdParseError::WrongPrefix));
    assert_eq!(ViewId::try_from("view-id-"), Err(ViewIdParseError::NotInt));
    assert_eq!(ViewId::try_from("view-id-1x"), Err(ViewIdParseError::NotInt));
}

#[test]
fn profile_names() {
    assert_eq!(validate("player_1"), None);
    assert_eq!(validate(""), None);
    assert_eq!(validate("abcdefghijklmnopqrs"), Some(ProfileNameError::TooLong));
    assert_eq!(validate("abcdefghijklmnopqr"), None);
    assert_eq!(validate("josé"), Some(ProfileNameError::NonASCII));
    // bytes count, not characters: nine two-byte characters are too long
    assert_eq!(validate("ééééééééé é"), Some(ProfileNameError::TooLong));
    assert_eq!(validate("a b"), Some(ProfileNameError::NonAlphaNumeric));
    assert_eq!(ProfileNameError::TooLong.str(), "Must be at most 18 digits");
    let state = ProfileSelectionState::new(vec!["me".to_string()]);
    assert_eq!(state.editor.to_string(), "");
    assert_eq!(state.known_profiles, vec!["me".to_string()]);
}

#[test]
fn menu() {
    assert_eq!(MenuItem::Quit.name(), "quit game");
    assert_eq!(MenuItem::LevelCreator.name(), "level creator");
    let all = MenuItem::all();
    assert_eq!(all.len(), 8);
    assert_eq!(all[1], MenuItem::Playground);
    assert!(!EventTickData::default().left_click);
}

fn st(x: &str) -> String {
    x.to_string()
}

#[test]
fn xi_update_ops() {
    let old = vec![st("a\n"), st("b\n"), st("c\n"), st("d")];
    let ops = vec![
        UpdateOp::Copy { n: 1, ln: 0 },
        UpdateOp::Skip { n: 1 },
        UpdateOp::Ins { n: 1, lines: vec![st("B\n")] },
        UpdateOp::Invalidate { n: 1 },
        UpdateOp::Skip { n: 1 },
        UpdateOp::Copy { n: 5, ln: 3 },
    ];
    assert_eq!(apply_ops(&old, &ops), vec![st("a\n"), st("B\n"), st(""), st("d")]);
    // skipping past the end stops there
    let ops = vec![UpdateOp::Skip { n: 10 }, UpdateOp::Copy { n: 2, ln: 0 }];
    assert_eq!(apply_ops(&old, &ops), Vec::<String>::new());
    assert_eq!(apply_ops(&old, &vec![]), Vec::<String>::new());
    // copying every line keeps the text; skipping all and inserting replaces it
    assert_eq!(apply_ops(&old, &vec![UpdateOp::Copy { n: 4, ln: 0 }]), old);
    assert_eq!(
        apply_ops(&old, &vec![UpdateOp::Skip { n: 4 }, UpdateOp::Ins { n: 1, lines: vec![st("z")] }]),
        vec![st("z")]
    );
    assert_eq!(UpdateOpType::Ins, UpdateOpType::Ins);
}

#[test]
fn xi_view_notifications() {
    let mut v = XiView::new(3, 5, 2);
    v.handle_notif(Notification::Update {
        view_id: st("view-id-3"),
        ops: vec![UpdateOp::Ins { n: 2, lines: vec![st("ab\n"), st("cdefg")] }],
        selections: Some(vec![(0, 1, 1, 2)]),
    });
    assert_eq!(v.to_string(), "ab\ncdefg");
    assert_eq!(v.selections.len(), 1);
    assert_eq!((v.selections[0].0.i, v.selections[0].0.j, v.selections[0].1.i, v.selections[0].1.j), (0, 1, 1, 2));
    // another view's news are left aside
    v.handle_notif(Notification::ScrollTo { view_id: st("view-id-4"), line: 1, col: 1 });
    assert_eq!((v.cursor.i, v.cursor.j), (0, 0));
    v.handle_notif(Notification::ScrollTo { view_id: st("view-id-3"), line: 1, col: 5 });
    assert_eq!((v.cursor.i, v.cursor.j), (1, 5));
    // the line under the cursor is full: no more characters
    assert_eq!(v.char_edit('x'), None);
    v.handle_notif(Notification::ScrollTo { view_id: st("view-id-3"), line: 0, col: 2 });
    assert_eq!(v.char_edit('x'), Some(EditKind::Insert('x')));
    assert_eq!(v.char_edit('\u{7}'), None);
    // two lines of two: no room for a new line
    assert_eq!(v.key_edit(EditorKey::Return, false, false), None);
    assert_eq!(v.key_edit(EditorKey::Left, true, false), Some(EditKind::MoveLeftAndModifySelection));
    assert_eq!(v.key_edit(EditorKey::Z, true, true), Some(EditKind::Redo));
    assert_eq!(v.key_edit(EditorKey::Z, false, true), Some(EditKind::Undo));
    assert_eq!(v.key_edit(EditorKey::Z, false, false), None);
    assert_eq!(v.key_edit(EditorKey::V, false, true), Some(EditKind::PasteClipboard));
    assert_eq!(XiView::clipboard_request(EditorKey::X, true), Some(ClipboardRequest::Cut));
    assert_eq!(XiView::clipboard_request(EditorKey::C, false), None);
    let mut w = XiView::new(0, 10, 10);
    assert_eq!(w.key_edit(EditorKey::NumpadEnter, false, false), Some(EditKind::InsertNewline));
    assert_eq!(w.key_edit(EditorKey::Return, false, true), None);
    assert_eq!(w.char_edit('a'), Some(EditKind::Insert('a')));
    w.handle_notif(Notification::Other);
    assert_eq!(w.to_string(), "");
}

#[test]
fn profile_selection_frames() {
    let mut p = ProfileSelectionState::new(vec![st("alice")]);
    assert_eq!(p.tick(Some(Key::Return)), ProfileOutcome::Nothing);
    type_text(&mut p.editor, "bob");
    assert_eq!(p.tick(None), ProfileOutcome::Nothing);
    assert_eq!(p.tick(Some(Key::Return)), ProfileOutcome::Load(st("bob"), SFX::Confirm));
    type_text(&mut p.editor, "!");
    assert_eq!(p.tick(Some(Key::Return)), ProfileOutcome::ShowError(ProfileNameError::NonAlphaNumeric));
}

#[test]
fn string_reader_frames() {
    let mut r = StringReaderState::new(st("Level title"), 15);
    assert!(matches!(r.tick::<()>(Some(Key::Return)), (None, GameStateEvent::Stay)));
    type_text(&mut r.editor, "   ");
    assert!(matches!(r.tick::<()>(Some(Key::Return)), (None, GameStateEvent::Stay)));
    type_text(&mut r.editor, "my level ");
    match r.tick::<()>(Some(Key::Return)) {
        (Some(Some(t)), GameStateEvent::Pop(1)) => assert_eq!(t, "my level"),
        _ => panic!("the title should come back"),
    }
    assert!(matches!(r.tick::<()>(Some(Key::Escape)), (Some(None), GameStateEvent::Pop(1))));
    assert!(matches!(r.tick::<()>(None), (None, GameStateEvent::Stay)));
    assert_eq!(trim("\t a b \n"), "a b");
    assert_eq!(trim("   "), "");
    assert_eq!(trim(""), "");
}

#[test]
fn mouse_gestures() {
    assert_eq!(gesture_position(Pos::new(7, 12), Pos::new(5, 10), GestureType::Select), (2, 2));
    assert_eq!(gesture_position(Pos::new(7, 12), Pos::new(5, 10), GestureType::Drag), (2, 2));
    // a drag above or left of the box is held to its first line and column
    assert_eq!(gesture_position(Pos::new(3, 8), Pos::new(5, 10), GestureType::Drag), (0, 0));
    assert_eq!(gesture_position(Pos::new(4, 12), Pos::new(5, 10), GestureType::Select), (u64::MAX, 2));
}

#[test]
fn selection_highlight() {
    let lens = vec![4, 2, 5];
    // from line 0 column 2 to line 2 column 1: the rest of line 0, all of
    // line 1, the start of line 2
    let cells = selection_cells(&lens, &vec![(Pos::new(0, 2), Pos::new(2, 1))]);
    let got: Vec<(i32, i32)> = cells.iter().map(|p| (p.i, p.j)).collect();
    assert_eq!(got, vec![(0, 2), (0, 3), (1, 0), (1, 1), (2, 0), (2, 1)]);
    let one_line = selection_cells(&lens, &vec![(Pos::new(1, 0), Pos::new(1, 0)), (Pos::new(2, 3), Pos::new(2, 2))]);
    assert_eq!(one_line.len(), 1);
    assert!(selection_cells(&lens, &vec![]).is_empty());
}
