//! Publishing a level on the workshop: where the upload stands.
use vstd::prelude::*;

use crate::gamestates::{GameStateEvent, Key};
use crate::util::numbers::{decimal_digits, u64_to_decimal};
use crate::util::text::push_str;

verus! {

/// Why an upload failed.
#[derive(Debug, PartialEq, Eq)]
pub enum UploadError {
    ChannelDisconnected,
    /// The workshop service failed, with this message.
    SteamError(String),
    FilesystemError(String),
    SerdeError(String),
    UnknownError,
}

pub open spec fn upload_error_text(e: UploadError) -> Seq<char> {
    match e {
        UploadError::ChannelDisconnected => "Channel got disconnected"@,
        UploadError::SteamError(m) => "Error calling Steam: "@ + m@,
        UploadError::FilesystemError(m) => "Error interacting with filesystem: "@ + m@,
        UploadError::SerdeError(m) => "Error serializing level: "@ + m@,
        UploadError::UnknownError => "Unknown error"@,
    }
}

impl UploadError {
    pub fn to_string(&self) -> (r: String)
        ensures
            r@ == upload_error_text(*self),
    {
        let mut r = String::new();
        match self {
            UploadError::ChannelDisconnected => push_str(&mut r, "Channel got disconnected"),
            UploadError::SteamError(m) => {
                push_str(&mut r, "Error calling Steam: ");
                push_str(&mut r, m.as_str());
            },
            UploadError::FilesystemError(m) => {
                push_str(&mut r, "Error interacting with filesystem: ");
                push_str(&mut r, m.as_str());
            },
            UploadError::SerdeError(m) => {
                push_str(&mut r, "Error serializing level: ");
                push_str(&mut r, m.as_str());
            },
            UploadError::UnknownError => push_str(&mut r, "Unknown error"),
        }
        r
    }
}

/// Where an upload stands.
#[derive(Debug, PartialEq, Eq)]
pub enum UploadState {
    Starting,
    CreatingItem,
    Uploading,
    /// Done; the level's published id.
    Finished(u64),
    Error(UploadError),
}

pub open spec fn upload_state_text(s: UploadState) -> Seq<char> {
    match s {
        UploadState::Starting => "Starting..."@,
        UploadState::CreatingItem => "Creating item..."@,
        UploadState::Uploading => "Uploading..."@,
        UploadState::Finished(_) => "Upload complete!"@,
        UploadState::Error(e) => "Error uploading: "@ + upload_error_text(e),
    }
}

impl UploadState {
    /// Nothing more will happen to the upload.
    pub fn is_final(&self) -> (r: bool)
        ensures
            r == (*self is Finished || *self is Error),
    {
        match self {
            UploadState::Finished(..) | UploadState::Error(..) => true,
            _ => false,
        }
    }

    /// The text shown for the state.
    pub fn text(&self) -> (r: String)
        ensures
            r@ == upload_state_text(*self),
    {
        let mut r = String::new();
        match self {
            UploadState::Starting => push_str(&mut r, "Starting..."),
            UploadState::CreatingItem => push_str(&mut r, "Creating item..."),
            UploadState::Uploading => push_str(&mut r, "Uploading..."),
            UploadState::Finished(_) => push_str(&mut r, "Upload complete!"),
            UploadState::Error(e) => {
                push_str(&mut r, "Error uploading: ");
                let t = e.to_string();
                push_str(&mut r, t.as_str());
            },
        }
        r
    }
}

/// The address of the workshop page of the level `id`.
pub fn file_page_url(id: u64) -> (r: String)
    ensures
        r@ == "steam://url/CommunityFilePage/"@ + decimal_digits(id as nat),
{
    let mut r = String::new();
    push_str(&mut r, "steam://url/CommunityFilePage/");
    let d = u64_to_decimal(id);
    push_str(&mut r, d.as_str());
    r
}

/// The screen of an upload.
pub struct UploadingLevelState {
    pub state: UploadState,
}

impl UploadingLevelState {
    pub fn new() -> (r: Self)
        ensures
            r.state == UploadState::Starting,
    {
        UploadingLevelState { state: UploadState::Starting }
    }

    /// A frame: the states reported since the last one come in, the last
    /// one winning; once the upload is over escape goes back, and once it is
    /// done the button opens the level's page, whose id is handed back.
    pub fn tick<S>(&mut self, reported: Vec<UploadState>, key: Option<Key>, open_clicked: bool) -> (r: (
        Option<u64>,
        GameStateEvent<S>,
    ))
        ensures
            reported@.len() > 0 ==> final(self).state == reported@.last(),
            reported@.len() == 0 ==> final(self).state == old(self).state,
            (final(self).state is Finished || final(self).state is Error) && key == Some(Key::Escape)
                ==> r == (None::<u64>, GameStateEvent::<S>::Pop(1)),
            !((final(self).state is Finished || final(self).state is Error) && key == Some(Key::Escape))
                ==> r.1 == GameStateEvent::<S>::Stay && r.0 == (match final(self).state {
                UploadState::Finished(id) => if open_clicked {
                    Some(id)
                } else {
                    None
                },
                _ => None,
            }),
    {
        let mut reported = reported;
        let n = reported.len();
        if n > 0 {
            let ghost want = reported@.last();
            let last = reported.pop().unwrap();
            assert(last == want);
            self.state = last;
        }
        if self.state.is_final() && key == Some(Key::Escape) {
            return (None, GameStateEvent::Pop(1));
        }
        match &self.state {
            UploadState::Finished(id) => if open_clicked {
                (Some(*id), GameStateEvent::Stay)
            } else {
                (None, GameStateEvent::Stay)
            },
            _ => (None, GameStateEvent::Stay),
        }
    }
}

} // verus!
