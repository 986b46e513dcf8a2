//! The entries of the main menu.
use vstd::prelude::*;

use crate::audio::SFX;
use crate::gamestates::Key;
use crate::util::vec_with_cursor::VecWithCursor;

verus! {

/// An entry of the main menu.
#[derive(Debug, Clone, Copy, PartialEq, Eq, Structural)]
pub enum MenuItem {
    Play,
    Settings,
    LevelCreator,
    UserCreatedLevels,
    ChangeProfile,
    Playground,
    Liquidum,
    Quit,
}

/// The text shown for an entry.
pub open spec fn menu_text(m: MenuItem) -> Seq<char> {
    match m {
        MenuItem::Play => "play"@,
        MenuItem::Settings => "settings"@,
        MenuItem::ChangeProfile => "change profile"@,
        MenuItem::Playground => "playground"@,
        MenuItem::Quit => "quit game"@,
        MenuItem::LevelCreator => "level creator"@,
        MenuItem::UserCreatedLevels => "user created levels"@,
        MenuItem::Liquidum => "our new game liquidum"@,
    }
}

impl MenuItem {
    pub fn name(&self) -> (r: &'static str)
        ensures
            r@ == menu_text(*self),
    {
        proof {
            reveal_strlit("play");
            reveal_strlit("settings");
            reveal_strlit("change profile");
            reveal_strlit("playground");
            reveal_strlit("quit game");
            reveal_strlit("level creator");
            reveal_strlit("user created levels");
            reveal_strlit("our new game liquidum");
        }
        match self {
            MenuItem::Play => "play",
            MenuItem::Settings => "settings",
            MenuItem::ChangeProfile => "change profile",
            MenuItem::Playground => "playground",
            MenuItem::Quit => "quit game",
            MenuItem::LevelCreator => "level creator",
            MenuItem::UserCreatedLevels => "user created levels",
            MenuItem::Liquidum => "our new game liquidum",
        }
    }

    /// The entries, in the order the menu shows them.
    pub fn all() -> (r: Vec<MenuItem>)
        ensures
            r@ == seq![
                MenuItem::Play,
                MenuItem::Playground,
                MenuItem::UserCreatedLevels,
                MenuItem::LevelCreator,
                MenuItem::Settings,
                MenuItem::ChangeProfile,
                MenuItem::Liquidum,
                MenuItem::Quit,
            ],
    {
        let r = vec![
            MenuItem::Play,
            MenuItem::Playground,
            MenuItem::UserCreatedLevels,
            MenuItem::LevelCreator,
            MenuItem::Settings,
            MenuItem::ChangeProfile,
            MenuItem::Liquidum,
            MenuItem::Quit,
        ];
        assert(r@ =~= seq![
            MenuItem::Play,
            MenuItem::Playground,
            MenuItem::UserCreatedLevels,
            MenuItem::LevelCreator,
            MenuItem::Settings,
            MenuItem::ChangeProfile,
            MenuItem::Liquidum,
            MenuItem::Quit,
        ]);
        r
    }
}

/// What choosing an entry does to the stack of screens.
#[derive(Debug, Clone, Copy, PartialEq, Eq, Structural)]
pub enum MenuMove {
    /// Its screen takes the place of the menu.
    Switch,
    /// Its screen goes on top of the menu.
    Push,
    /// The menu stays (quitting, or opening a web page).
    Stay,
}

/// The move of each entry: play and change profile leave the menu, quit and
/// the web page keep it, the others open on top of it.
pub open spec fn menu_move(m: MenuItem) -> MenuMove {
    match m {
        MenuItem::Play | MenuItem::ChangeProfile => MenuMove::Switch,
        MenuItem::Quit | MenuItem::Liquidum => MenuMove::Stay,
        _ => MenuMove::Push,
    }
}

impl MenuItem {
    /// The sound and the move of choosing this entry.
    pub fn on_click(&self) -> (r: (SFX, MenuMove))
        ensures
            r == (SFX::Select, menu_move(*self)),
    {
        let m = match self {
            MenuItem::Play | MenuItem::ChangeProfile => MenuMove::Switch,
            MenuItem::Quit | MenuItem::Liquidum => MenuMove::Stay,
            _ => MenuMove::Push,
        };
        (SFX::Select, m)
    }
}

/// The main menu: its entries, with a cursor on one.
pub struct MainMenuState {
    items: VecWithCursor<MenuItem>,
}

impl MainMenuState {
    /// The entries, in order.
    pub closed spec fn items(self) -> Seq<MenuItem> {
        self.items.items()
    }

    /// The entry under the cursor.
    pub closed spec fn cursor(self) -> nat {
        self.items.position()
    }

    /// The menu with every entry, the cursor on the first.
    pub fn new() -> (r: Self)
        ensures
            r.items() == seq![
                MenuItem::Play,
                MenuItem::Playground,
                MenuItem::UserCreatedLevels,
                MenuItem::LevelCreator,
                MenuItem::Settings,
                MenuItem::ChangeProfile,
                MenuItem::Liquidum,
                MenuItem::Quit,
            ],
            r.cursor() == 0,
    {
        MainMenuState { items: VecWithCursor::from(MenuItem::all()) }
    }

    /// The position of the cursor.
    pub fn position(&self) -> (r: usize)
        ensures
            r == self.cursor(),
            r < self.items().len(),
    {
        self.items.cursor()
    }

    /// A frame with `pressed`: return chooses the entry under the cursor,
    /// down and up move the cursor, wrapping around.
    pub fn tick(&mut self, pressed: Option<Key>) -> (r: Option<MenuItem>)
        ensures
            final(self).items() == old(self).items(),
            old(self).cursor() < old(self).items().len(),
            match pressed {
                Some(Key::Return) => {
                    &&& r == Some(old(self).items()[old(self).cursor() as int])
                    &&& final(self).cursor() == old(self).cursor()
                },
                Some(Key::Down) => {
                    &&& r is None
                    &&& final(self).cursor() == (old(self).cursor() as int + 1) % (
                    old(self).items().len() as int)
                },
                Some(Key::Up) => {
                    &&& r is None
                    &&& final(self).cursor() == (old(self).cursor() as int + old(
                        self,
                    ).items().len() - 1) % (old(self).items().len() as int)
                },
                _ => {
                    &&& r is None
                    &&& final(self).cursor() == old(self).cursor()
                },
            },
    {
        let _ = self.items.cursor();
        match pressed {
            Some(Key::Return) => Some(*self.items.get()),
            Some(Key::Down) => {
                self.items.cursor_increment();
                None
            },
            Some(Key::Up) => {
                self.items.cursor_decrement();
                None
            },
            _ => None,
        }
    }
}

} // verus!
