use functional::audio::SFX;
use functional::gamestates::editor::{EditorEvent, EditorFrame, EditorSession, EditorStep};
use functional::gamestates::intro::{intro_frame, intro_text};
use functional::gamestates::level_creator::{validation_tick, ValidationAction};
use functional::gamestates::level_creator::list::{LevelCreatorLevelListState, LevelListAction};
use functional::gamestates::level_creator::uploading::{
    file_page_url, UploadError, UploadState, UploadingLevelState,
};
use functional::gamestates::main_menu::{MainMenuState, MenuItem, MenuMove};
use functional::gamestates::save_loader::{SaveLoaderChoice, SaveLoaderState};
use functional::gamestates::settings::{SettingsState, SettingsStep};
use functional::gamestates::show_results::{leaderboard_boxes, results_box, results_key};
use functional::gamestates::{GameStateEvent, GameStateStack, Key};
use functional::interpreter::interpreter::InterpretError;
use functional::interpreter::parser::ParseError;
use functional::math::Pos;
use functional::widgets::{button_clicked, button_rect, options_select};

fn frame(now_ms: u64) -> EditorFrame {
    EditorFrame {
        now_ms,
        clicked_solution: None,
        hint_clicked: false,
        run_clicked: false,
        playground_clicked: false,
        ctrl: false,
        key: None,
    }
}

#[test]
fn screen_stack() {
    let mut st = GameStateStack::new("menu");
    st = st.frame(16, GameStateEvent::Push("editor"));
    st = st.frame(16, GameStateEvent::Push("results"));
    assert_eq!(st.len(), 3);
    assert_eq!(st.last().cur, "results");
    st = st.frame(16, GameStateEvent::Pop(2));
    assert_eq!(st.len(), 1);
    assert_eq!(st.last().cur, "menu");
    // the menu ran only in the first frame, while it was on top
    assert_eq!(st.last().time_ms, 16);
    st = st.frame(16, GameStateEvent::Switch("levels"));
    assert_eq!(st.len(), 1);
    assert_eq!(st.last().cur, "levels");
    assert_eq!(st.last().time_ms, 0);
    // popping the last screen is ignored
    st = st.frame(10, GameStateEvent::Pop(3));
    assert_eq!(st.last().cur, "levels");
    st = st.frame(10, GameStateEvent::Stay);
    assert_eq!(st.len(), 1);
    assert_eq!(st.last().time_ms, 20);
}

#[test]
fn push_then_pop() {
    let mut st = GameStateStack::new(1);
    st = st.frame(5, GameStateEvent::Push(2));
    st = st.frame(5, GameStateEvent::Push(3));
    // only the running screen takes the frame's events
    *st.top_mut() += 10;
    assert_eq!(st.last().cur, 13);
    assert_eq!(st.last().time_ms, 0);
    st = st.frame(5, GameStateEvent::Pop(1));
    assert_eq!(st.len(), 2);
    assert_eq!(st.last().cur, 2);
    assert_eq!(st.last().time_ms, 5);
    // a pop deeper than the stack is ignored
    st = st.frame(0, GameStateEvent::Pop(2));
    assert_eq!(st.len(), 2);
    assert_eq!(st.last().cur, 2);
    st = st.frame(0, GameStateEvent::Pop(9));
    assert_eq!(st.len(), 2);
}

#[test]
fn main_menu_navigation() {
    let mut m = MainMenuState::new();
    assert_eq!(m.position(), 0);
    assert_eq!(m.tick(Some(Key::Up)), None);
    assert_eq!(m.position(), 7);
    assert_eq!(m.tick(Some(Key::Return)), Some(MenuItem::Quit));
    assert_eq!(m.tick(Some(Key::Down)), None);
    assert_eq!(m.tick(Some(Key::Down)), None);
    assert_eq!(m.tick(Some(Key::Escape)), None);
    assert_eq!(m.tick(Some(Key::Return)), Some(MenuItem::Playground));
    assert_eq!(MenuItem::Play.on_click(), (SFX::Select, MenuMove::Switch));
    assert_eq!(MenuItem::Settings.on_click(), (SFX::Select, MenuMove::Push));
    assert_eq!(MenuItem::Quit.on_click(), (SFX::Select, MenuMove::Stay));
}

#[test]
fn results_screen() {
    let b = results_box();
    assert_eq!((b.pos.i, b.pos.j, b.size.w, b.size.h), (25, 12, 60, 30));
    let (l1, l2) = leaderboard_boxes();
    assert_eq!((l1.pos.i, l1.pos.j, l1.size.w, l1.size.h), (9, 78, 40, 30));
    assert_eq!((l2.pos.i, l2.pos.j), (40, 78));
    assert!(matches!(results_key::<()>(false, Some(Key::Escape)), (Some(SFX::Back), GameStateEvent::Pop(1))));
    assert!(matches!(results_key::<()>(true, Some(Key::Return)), (Some(SFX::Confirm), GameStateEvent::Pop(2))));
    assert!(matches!(results_key::<()>(false, Some(Key::Return)), (None, GameStateEvent::Stay)));
    assert!(matches!(results_key::<()>(true, None), (None, GameStateEvent::Stay)));
}

#[test]
fn editor_slots_and_saving() {
    let (mut s, first) = EditorSession::new();
    assert_eq!(first, EditorStep::Load(1));
    let (steps, e) = s.frame(frame(1000));
    assert!(steps.is_empty());
    assert_eq!(e, EditorEvent::Stay);
    let (steps, e) = s.frame(EditorFrame { clicked_solution: Some(2), ..frame(2000) });
    assert_eq!(steps, vec![EditorStep::Save(1), EditorStep::Load(2)]);
    assert_eq!(e, EditorEvent::Stay);
    assert_eq!(s.current_solution, 2);
    // clicking the open slot does nothing
    let (steps, _) = s.frame(EditorFrame { clicked_solution: Some(2), ..frame(3000) });
    assert!(steps.is_empty());
    // twenty seconds without saving: autosave
    let (steps, _) = s.frame(frame(22001));
    assert_eq!(steps, vec![EditorStep::Save(2)]);
    assert_eq!(s.last_save_ms, 22001);
    let (steps, e) = s.frame(EditorFrame { ctrl: true, key: Some(Key::Return), ..frame(23000) });
    assert_eq!(steps, vec![EditorStep::Save(2)]);
    assert_eq!(e, EditorEvent::RunSolution);
    let (steps, e) = s.frame(EditorFrame { playground_clicked: true, ..frame(24000) });
    assert_eq!(steps, vec![EditorStep::Sound(SFX::Select)]);
    assert_eq!(e, EditorEvent::OpenPlayground);
    let (steps, e) = s.frame(EditorFrame { key: Some(Key::F10), ..frame(25000) });
    assert_eq!(steps, vec![EditorStep::Save(2)]);
    assert_eq!(e, EditorEvent::Stay);
    let (steps, e) = s.frame(EditorFrame { key: Some(Key::Escape), hint_clicked: true, ..frame(26000) });
    assert_eq!(steps, vec![EditorStep::Sound(SFX::Back), EditorStep::Save(2)]);
    assert_eq!(e, EditorEvent::Back);
    assert!(s.pressed_hint);
}

#[test]
fn intro_letters() {
    assert_eq!(intro_frame(0, false), (0, false));
    assert_eq!(intro_frame(550, false), (5, false));
    assert_eq!(intro_frame(1900, false), (19, false));
    // once out, the last letter blinks every half second
    assert_eq!(intro_frame(2000, false), (18, false));
    assert_eq!(intro_frame(2400, false), (19, false));
    assert_eq!(intro_frame(2900, false), (18, false));
    assert_eq!(intro_frame(3900, false), (18, false));
    assert_eq!(intro_frame(4000, false), (18, true));
    assert_eq!(intro_frame(100, true), (1, true));
    assert_eq!(intro_text(450), "this");
    assert_eq!(intro_text(5000), "this is functional");
}

#[test]
fn volume_settings() {
    let mut st = SettingsState::new(9);
    let (steps, e) = st.tick::<()>(Some(Key::Right));
    assert_eq!(steps, vec![SettingsStep::SetVolume(10), SettingsStep::Sound(SFX::Confirm)]);
    assert!(matches!(e, GameStateEvent::Stay));
    let (steps, _) = st.tick::<()>(Some(Key::Right));
    assert!(steps.is_empty());
    assert_eq!(st.get_volume(), 10);
    let (steps, _) = st.tick::<()>(Some(Key::Left));
    assert_eq!(steps, vec![SettingsStep::SetVolume(9), SettingsStep::Sound(SFX::Confirm)]);
    let (steps, e) = st.tick::<()>(Some(Key::Escape));
    assert_eq!(
        steps,
        vec![SettingsStep::SetVolume(9), SettingsStep::StoreVolume(9), SettingsStep::Sound(SFX::Back)]
    );
    assert!(matches!(e, GameStateEvent::Pop(1)));
    let mut quiet = SettingsState::new(0);
    let (steps, _) = quiet.tick::<()>(Some(Key::Left));
    assert!(steps.is_empty());
    assert_eq!(quiet.get_volume(), 0);
}

#[test]
fn error_messages() {
    assert_eq!(ParseError::ExtraColon.message(), "Extra ':' in the input");
    assert_eq!(ParseError::MissingExpression.message(), "Some subexpression '()' is empty");
    assert_eq!(
        InterpretError::TooDeep.message(),
        "The interpretation has gone too deep, expression probably has no reduction."
    );
}

#[test]
fn buttons_and_options() {
    let r = button_rect(3, Pos::new(5, 10));
    assert_eq!((r.pos.i, r.pos.j, r.size.w, r.size.h), (5, 10, 5, 3));
    assert!(button_clicked(3, Pos::new(5, 10), Pos::new(7, 14), true));
    assert!(!button_clicked(3, Pos::new(5, 10), Pos::new(7, 14), false));
    assert!(!button_clicked(3, Pos::new(5, 10), Pos::new(8, 14), true));
    assert!(!button_clicked(3, Pos::new(5, 10), Pos::new(7, 15), true));

    let mut last = 0;
    assert_eq!(options_select(2, &mut last, Some(Key::Up), None), None);
    assert_eq!(last, 1);
    assert_eq!(options_select(2, &mut last, Some(Key::Down), None), None);
    assert_eq!(last, 0);
    assert_eq!(options_select(2, &mut last, Some(Key::Return), None), Some(0));
    // a click on a later option wins over return
    assert_eq!(options_select(2, &mut last, Some(Key::Return), Some(1)), Some(1));
    assert_eq!(options_select(2, &mut last, None, Some(5)), None);
    // a cursor past the end is brought back to the end, then moves
    let mut far = 9;
    assert_eq!(options_select(2, &mut far, Some(Key::Return), None), None);
    assert_eq!(far, 2);
    assert_eq!(options_select(2, &mut far, Some(Key::Down), None), None);
    assert_eq!(far, 1);
    let mut one = 1;
    assert_eq!(options_select(1, &mut one, Some(Key::Down), None), None);
    assert_eq!(one, 0);
}

#[test]
fn broken_save() {
    let (mut st, sfx) = SaveLoaderState::failed("ana".to_string(), "bad header");
    assert_eq!(sfx, SFX::Wrong);
    assert!(st.err_text.starts_with("Got the following error:\nbad header\n\n These are your options:"));
    assert!(st.err_text.ends_with("try to fix the save yourself."));
    assert_eq!(st.title(), "Loading failed for user ana");
    assert_eq!(st.tick(None, None), None);
    assert_eq!(st.tick(Some(Key::Down), None), None);
    assert_eq!(st.last_selected, 1);
    assert_eq!(st.tick(Some(Key::Return), None), Some((SaveLoaderChoice::BackToProfiles, SFX::Confirm)));
    assert_eq!(st.tick(None, Some(0)), Some((SaveLoaderChoice::ResetSave, SFX::Confirm)));
}

#[test]
fn level_creator_list() {
    let mut l = LevelCreatorLevelListState::new(vec!["a".to_string(), "b".to_string(), "c".to_string()]);
    assert!(matches!(l.tick::<()>(Some(Key::Down), false, false), (LevelListAction::Nothing, GameStateEvent::Stay)));
    assert!(matches!(l.tick::<()>(Some(Key::N), true, false), (LevelListAction::AskTitle, GameStateEvent::Stay)));
    assert!(matches!(l.tick::<()>(Some(Key::N), false, false), (LevelListAction::Nothing, GameStateEvent::Stay)));
    assert!(matches!(l.tick::<()>(None, false, true), (LevelListAction::AskTitle, GameStateEvent::Stay)));
    assert!(matches!(l.tick::<()>(Some(Key::Escape), false, false), (LevelListAction::Nothing, GameStateEvent::Pop(1))));
    let mut none = LevelCreatorLevelListState::new(vec![]);
    assert!(matches!(none.tick::<()>(Some(Key::Up), false, false), (LevelListAction::Nothing, GameStateEvent::Stay)));
}

#[test]
fn uploading_screen() {
    let mut u = UploadingLevelState::new();
    assert_eq!(u.state.text(), "Starting...");
    assert!(!u.state.is_final());
    // not over: escape does nothing
    let (open, e) = u.tick::<()>(vec![UploadState::CreatingItem, UploadState::Uploading], Some(Key::Escape), true);
    assert_eq!(open, None);
    assert!(matches!(e, GameStateEvent::Stay));
    assert_eq!(u.state.text(), "Uploading...");
    let (open, e) = u.tick::<()>(vec![UploadState::Finished(99)], None, true);
    assert_eq!(open, Some(99));
    assert!(matches!(e, GameStateEvent::Stay));
    assert_eq!(u.state.text(), "Upload complete!");
    let (open, e) = u.tick::<()>(vec![], Some(Key::Escape), true);
    assert_eq!(open, None);
    assert!(matches!(e, GameStateEvent::Pop(1)));
    let failed = UploadState::Error(UploadError::FilesystemError("disk full".to_string()));
    assert!(failed.is_final());
    assert_eq!(failed.text(), "Error uploading: Error interacting with filesystem: disk full");
    assert_eq!(file_page_url(1234), "steam://url/CommunityFilePage/1234");
}

#[test]
fn validation_screen() {
    assert_eq!(validation_tick(true, false, true, false, false, None), ValidationAction::Play);
    assert_eq!(validation_tick(true, false, false, false, true, Some(Key::Return)), ValidationAction::Play);
    assert_eq!(validation_tick(false, true, true, true, false, None), ValidationAction::Stay);
    assert_eq!(validation_tick(true, true, false, false, true, Some(Key::U)), ValidationAction::Upload);
    assert_eq!(validation_tick(true, false, false, true, false, None), ValidationAction::Stay);
    assert_eq!(validation_tick(false, false, false, false, false, Some(Key::Escape)), ValidationAction::Back);
}
