//! A screen that asks for one line of text.
use vstd::prelude::*;

use crate::editor::{join_lines, BasicTextEditor};
use crate::gamestates::{GameStateEvent, Key};
use crate::math::Rect;
use crate::util::text::{trim, trimmed};

verus! {

/// A one-line editor; the text typed is handed back when the screen closes.
#[derive(Debug)]
pub struct StringReaderState {
    pub max_width: i32,
    pub editor: BasicTextEditor,
}

impl StringReaderState {
    /// The screen titled `title`, with an editor of `max_width` columns in
    /// the middle of the screen.
    pub fn new(title: String, max_width: i32) -> (r: Self)
        requires
            0 <= max_width,
        ensures
            r.max_width == max_width,
            r.editor.wf(),
            r.editor.title_spec() == title@,
            r.editor.lines() == seq![Seq::<char>::empty()],
    {
        StringReaderState { max_width, editor: BasicTextEditor::new(title, Rect::centered(max_width, 1), String::new()) }
    }

    /// A frame: escape closes the screen handing back nothing; return hands
    /// back the text without surrounding whitespace and closes, unless that
    /// text is empty.
    pub fn tick<S>(&self, key: Option<Key>) -> (r: (Option<Option<String>>, GameStateEvent<S>))
        ensures
            key == Some(Key::Escape) ==> r.0 == Some(None::<String>) && r.1 == GameStateEvent::<S>::Pop(1),
            key == Some(Key::Return) ==> {
                let t = trimmed(join_lines(self.editor.lines()));
                if t.len() == 0 {
                    r.0 is None && r.1 == GameStateEvent::<S>::Stay
                } else {
                    r.0 matches Some(Some(x)) && x@ == t && r.1 == GameStateEvent::<S>::Pop(1)
                }
            },
            key != Some(Key::Escape) && key != Some(Key::Return) ==> r.0 is None && r.1
                == GameStateEvent::<S>::Stay,
    {
        if key == Some(Key::Escape) {
            (Some(None), GameStateEvent::Pop(1))
        } else if key == Some(Key::Return) {
            let text = trim(self.editor.to_string().as_str());
            if text.as_str().is_empty() {
                (None, GameStateEvent::Stay)
            } else {
                (Some(Some(text)), GameStateEvent::Pop(1))
            }
        } else {
            (None, GameStateEvent::Stay)
        }
    }
}

} // verus!
