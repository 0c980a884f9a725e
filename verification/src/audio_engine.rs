//! The errors of the audio engine and how each reads.
use vstd::prelude::*;
use crate::text::{joined, joined3, uint_to_text};

verus! {

#[verifier::external_type_specification]
#[verifier::external_body]
pub struct ExIoError(std::io::Error);

/// What can go wrong when audio is set up, decoded or played.
#[derive(Debug)]
pub enum AudioError {
    OutputError(String),
    PlayError(String),
    DecodeError(String),
    IoError(std::io::Error),
    ChannelNotFound(u32),
    SampleNotFound(String),
}

/// `io::Error`'s `Display` text. It comes from the operating system for
/// errors it reported, so nothing is stated of it.
#[verifier::external_body]
fn io_error_text(e: &std::io::Error) -> String {
    e.to_string()
}

impl AudioError {
    /// The error as a message for the user.
    pub fn message(&self) -> (r: String)
        ensures
            match self {
                AudioError::OutputError(m) => r@ == "Failed to initialize audio output: "@ + m@,
                AudioError::PlayError(m) => r@ == "Failed to play audio: "@ + m@,
                AudioError::DecodeError(m) => r@ == "Failed to decode audio file: "@ + m@,
                AudioError::IoError(_) => r@.len() >= 10 && r@.take(10) == "IO error: "@,
                AudioError::ChannelNotFound(c) => r@ == "Channel "@ + crate::text::nat_digits(*c as nat)
                    + " not found"@,
                AudioError::SampleNotFound(s) => r@ == "Sample "@ + s@ + " not found"@,
            },
    {
        match self {
            AudioError::OutputError(m) => joined("Failed to initialize audio output: ", m.as_str()),
            AudioError::PlayError(m) => joined("Failed to play audio: ", m.as_str()),
            AudioError::DecodeError(m) => joined("Failed to decode audio file: ", m.as_str()),
            AudioError::IoError(e) => {
                let r = joined("IO error: ", io_error_text(e).as_str());
                proof {
                    reveal_strlit("IO error: ");
                }
                assert(r@.take(10) =~= "IO error: "@);
                r
            },
            AudioError::ChannelNotFound(c) => joined3("Channel ", uint_to_text(*c as u64).as_str(), " not found"),
            AudioError::SampleNotFound(s) => joined3("Sample ", s.as_str(), " not found"),
        }
    }
}

impl From<std::io::Error> for AudioError {
    fn from(e: std::io::Error) -> (r: AudioError) {
        AudioError::IoError(e)
    }
}

impl vstd::std_specs::convert::FromSpecImpl<std::io::Error> for AudioError {
    open spec fn obeys_from_spec() -> bool {
        true
    }

    open spec fn from_spec(e: std::io::Error) -> AudioError {
        AudioError::IoError(e)
    }
}

} // verus!
