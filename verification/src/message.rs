//! The messages that a client sends to the export service.
use vstd::prelude::*;

verus! {

/// A command that a client asks the service to run.
#[derive(Debug, Clone)]
pub enum CommandData {
    /// Download the playlist at `url` and export it, as the job `uid`.
    StartExport { uid: String, url: String },
}

/// A message from a client.
#[derive(Debug, Clone)]
pub enum Message {
    Ping,
    Pong,
    Text { text: String },
    Command(CommandData),
}

impl Message {
    /// The job and playlist address that the message asks to export, where
    /// it is an export command; `None` for every other message.
    pub fn export_request(&self) -> (r: Option<(&String, &String)>)
        ensures
            match self {
                Message::Command(CommandData::StartExport { uid, url }) => r == Some((uid, url)),
                _ => r is None,
            },
    {
        match self {
            Message::Command(CommandData::StartExport { uid, url }) => Some((uid, url)),
            _ => None,
        }
    }
}

} // verus!
