//! The announcement of one image in an execution log.

use vstd::prelude::*;

verus! {

/// One image that a script announced: the figure that it shows, and the file
/// that holds it.  A script may announce several files for one figure, one
/// for each time it draws the figure anew.
#[derive(Clone, Debug, PartialEq, Eq)]
pub struct LogImageEvent {
    /// The name that the script gave to the figure.
    pub name: String,
    /// The file, named after its contents.
    pub filename: String,
}

/// The mathematical content of a [`LogImageEvent`].
pub ghost struct Announcement {
    pub name: Seq<char>,
    pub filename: Seq<char>,
}

impl View for LogImageEvent {
    type V = Announcement;

    open spec fn view(&self) -> Announcement {
        Announcement { name: self.name@, filename: self.filename@ }
    }
}

/// The contents of a list of announcements.
pub open spec fn announcements(events: Seq<LogImageEvent>) -> Seq<Announcement> {
    events.map_values(|e: LogImageEvent| e@)
}

} // verus!
