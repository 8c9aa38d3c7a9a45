//! What a path yields: the four fields of a track, or the reason why not.

use vstd::prelude::*;

verus! {

/// The metadata that a path spells out.
#[derive(Clone, Debug, PartialEq, Eq)]
pub struct ExtractedFields {
    /// Name of the directory two levels above the file.
    pub artist: String,
    /// Name of the directory that holds the file.
    pub album: String,
    /// The number that the file name begins with.
    pub track: u32,
    /// The file name between the track number and the extension.
    pub title: String,
}

/// `ExtractedFields` as mathematical values.
pub struct FieldsView {
    pub artist: Seq<char>,
    pub album: Seq<char>,
    pub track: u32,
    pub title: Seq<char>,
}

impl View for ExtractedFields {
    type V = FieldsView;

    open spec fn view(&self) -> FieldsView {
        FieldsView {
            artist: self.artist@,
            album: self.album@,
            track: self.track,
            title: self.title@,
        }
    }
}

/// Why a path yields no fields.
#[derive(Clone, Copy, Debug, PartialEq, Eq, Structural)]
pub enum MatchError {
    /// The path does not end in `<artist>/<album>/<track> - <title>.mp3`,
    /// or its track number does not fit in 32 bits.
    IncompatiblePath,
}

impl MatchError {
    /// The words that a report shows for this error.
    pub open spec fn message_text(self) -> Seq<char> {
        "incompatible path"@
    }

    /// The words that a report shows for this error.
    pub fn message(&self) -> (text: &'static str)
        ensures
            text@ == self.message_text(),
    {
        "incompatible path"
    }
}

} // verus!
