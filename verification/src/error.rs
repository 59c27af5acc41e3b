//! The ways in which resolving or presenting one example can fail.

use vstd::prelude::*;

verus! {

/// A failure that concerns a single example; the others are unaffected.
#[derive(Clone, Copy, Debug, PartialEq, Eq, Structural)]
pub enum GalleryError {
    /// The script is empty.
    PrematureEnd,
    /// The first line of the script is no `# <name>` comment.
    ExpectedComment,
    /// The second line of the script is not the bare comment marker.
    MissingSeparator,
    /// A line of the leading comment has text directly after the marker.
    ExpectedSpaceOrNewline,
    /// The modeline holds an item that is no known `key=value` directive.
    InvalidModeline,
    /// The `thumbnail` directive does not write an index.
    InvalidThumbnail,
    /// The checkout did not report a top-level directory and a commit.
    RevParse,
    /// The script does not lie under the top-level directory of the checkout.
    OutsideRepository,
    /// The path names no file of which a stem could be taken.
    NoFileStem,
    /// The repository address does not end in `.git`.
    NotGitAddress,
    /// The repository is hosted by a provider whose links are unknown.
    UnknownProvider,
    /// The pattern for image announcements could not be compiled.
    Pattern,
}

/// `got` is what `want` describes: the same error, or a value with that view.
pub open spec fn agrees<T: View>(
    got: Result<T, GalleryError>,
    want: Result<T::V, GalleryError>,
) -> bool {
    match want {
        Ok(v) => got is Ok && got->Ok_0@ == v,
        Err(e) => got is Err && got->Err_0 == e,
    }
}

impl GalleryError {
    /// The sentence that describes the failure.
    pub open spec fn describe(self) -> Seq<char> {
        match self {
            GalleryError::PrematureEnd => "premature end of file"@,
            GalleryError::ExpectedComment => "expected comment"@,
            GalleryError::MissingSeparator => "second line should be an empty comment"@,
            GalleryError::ExpectedSpaceOrNewline => "expected space or newline"@,
            GalleryError::InvalidModeline => "invalid modeline"@,
            GalleryError::InvalidThumbnail => "invalid thumbnail index"@,
            GalleryError::RevParse => "rev-parse yielded incorrect output"@,
            GalleryError::OutsideRepository => "script lies outside the repository"@,
            GalleryError::NoFileStem => "cannot extract file stem"@,
            GalleryError::NotGitAddress => "repository does not end with .git"@,
            GalleryError::UnknownProvider => "don't know how to form a script url"@,
            GalleryError::Pattern => "cannot compile the image pattern"@,
        }
    }

    /// The sentence that describes the failure, as a text.
    pub fn message(&self) -> (text: String)
        ensures
            text@ == self.describe(),
    {
        match self {
            GalleryError::PrematureEnd => "premature end of file".to_owned(),
            GalleryError::ExpectedComment => "expected comment".to_owned(),
            GalleryError::MissingSeparator => "second line should be an empty comment".to_owned(),
            GalleryError::ExpectedSpaceOrNewline => "expected space or newline".to_owned(),
            GalleryError::InvalidModeline => "invalid modeline".to_owned(),
            GalleryError::InvalidThumbnail => "invalid thumbnail index".to_owned(),
            GalleryError::RevParse => "rev-parse yielded incorrect output".to_owned(),
            GalleryError::OutsideRepository => "script lies outside the repository".to_owned(),
            GalleryError::NoFileStem => "cannot extract file stem".to_owned(),
            GalleryError::NotGitAddress => "repository does not end with .git".to_owned(),
            GalleryError::UnknownProvider => "don't know how to form a script url".to_owned(),
            GalleryError::Pattern => "cannot compile the image pattern".to_owned(),
        }
    }
}

} // verus!
