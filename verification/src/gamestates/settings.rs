//! The settings screen.
use vstd::prelude::*;

use crate::audio::{SFX, MAX_VOLUME};
use crate::gamestates::{GameStateEvent, Key};
use crate::util::vec_with_cursor::VecWithCursor;

verus! {

/// An entry of the settings screen.
#[derive(Debug, Clone, Copy, PartialEq, Eq, Structural)]
pub enum SettingsItem {
    /// The volume of the sound effects, from 0 to `MAX_VOLUME`.
    Volume,
}

/// Something the screen does to the outside world, in order.
#[derive(Debug, Clone, Copy, PartialEq, Eq, Structural)]
pub enum SettingsStep {
    /// Play sounds at this volume from now on.
    SetVolume(u8),
    /// Keep this volume in the player's configuration.
    StoreVolume(u8),
    Sound(SFX),
}

/// The entries, with a cursor on one, and the value of each setting.
pub struct SettingsState {
    items: VecWithCursor<SettingsItem>,
    volume: u8,
}

/// The volume after `key` on the volume entry: left lowers it and right
/// raises it by one, within 0 to `MAX_VOLUME`.
pub open spec fn volume_after(v: u8, key: Option<Key>) -> u8 {
    match key {
        Some(Key::Left) => if v >= 1 { (v - 1) as u8 } else { 0 },
        Some(Key::Right) => if v <= MAX_VOLUME - 1 { (v + 1) as u8 } else { MAX_VOLUME },
        _ => v,
    }
}

impl SettingsState {
    pub closed spec fn items(self) -> Seq<SettingsItem> {
        self.items.items()
    }

    pub closed spec fn cursor(self) -> nat {
        self.items.position()
    }

    /// The volume set.
    pub closed spec fn volume(self) -> u8 {
        self.volume
    }

    pub fn get_volume(&self) -> (r: u8)
        ensures
            r == self.volume(),
    {
        self.volume
    }

    /// The settings, the volume being `volume`.
    pub fn new(volume: u8) -> (r: Self)
        ensures
            r.items() == seq![SettingsItem::Volume],
            r.cursor() == 0,
            r.volume() == volume,
    {
        let items = vec![SettingsItem::Volume];
        SettingsState { items: VecWithCursor::from(items), volume }
    }

    /// A frame with `key`: the entry under the cursor takes left and right
    /// (a changed volume is applied at once, with a sound); up and down move
    /// the cursor; escape applies and stores every setting and goes back.
    pub fn tick<S>(&mut self, key: Option<Key>) -> (r: (Vec<SettingsStep>, GameStateEvent<S>))
        ensures
            final(self).items() == old(self).items(),
            ({
                let v = volume_after(old(self).volume(), key);
                let changed = if v != old(self).volume() {
                    seq![SettingsStep::SetVolume(v), SettingsStep::Sound(SFX::Confirm)]
                } else {
                    Seq::empty()
                };
                &&& final(self).volume() == v
                &&& key == Some(Key::Escape) ==> r.0@ == changed + seq![
                    SettingsStep::SetVolume(v),
                    SettingsStep::StoreVolume(v),
                    SettingsStep::Sound(SFX::Back),
                ] && r.1 == GameStateEvent::<S>::Pop(1)
                &&& key != Some(Key::Escape) ==> r.0@ == changed && r.1 == GameStateEvent::<S>::Stay
            }),
            key == Some(Key::Down) ==> final(self).cursor() == (old(self).cursor() as int + 1) % (
            old(self).items().len() as int),
            key == Some(Key::Up) ==> final(self).cursor() == (old(self).cursor() as int + old(
                self,
            ).items().len() - 1) % (old(self).items().len() as int),
            key != Some(Key::Down) && key != Some(Key::Up) ==> final(self).cursor() == old(
                self,
            ).cursor(),
    {
        let mut steps: Vec<SettingsStep> = Vec::new();
        match *self.items.get() {
            SettingsItem::Volume => {
                let prev = self.volume;
                match key {
                    Some(Key::Left) => {
                        self.volume = if self.volume >= 1 { self.volume - 1 } else { 0 };
                    },
                    Some(Key::Right) => {
                        self.volume = if self.volume <= MAX_VOLUME - 1 { self.volume + 1 } else { MAX_VOLUME };
                    },
                    _ => {},
                }
                if prev != self.volume {
                    steps.push(SettingsStep::SetVolume(self.volume));
                    steps.push(SettingsStep::Sound(SFX::Confirm));
                }
            },
        }
        match key {
            Some(Key::Up) => {
                self.items.cursor_decrement();
                (steps, GameStateEvent::Stay)
            },
            Some(Key::Down) => {
                self.items.cursor_increment();
                (steps, GameStateEvent::Stay)
            },
            Some(Key::Escape) => {
                steps.push(SettingsStep::SetVolume(self.volume));
                steps.push(SettingsStep::StoreVolume(self.volume));
                steps.push(SettingsStep::Sound(SFX::Back));
                (steps, GameStateEvent::Pop(1))
            },
            _ => (steps, GameStateEvent::Stay),
        }
    }
}

} // verus!
