//! Errors of writing an image to a disk.

use vstd::prelude::*;

verus! {

/// A failed flash, with the text shown for it.
#[derive(Debug)]
pub struct Error(pub String);

impl Error {
    /// The text shown for the error.
    pub fn message(&self) -> (res: String)
        ensures
            res@ == self.0@,
    {
        self.0.clone()
    }
}

/// How opening the target device for writing went.
pub enum OpenOutcome {
    Opened,
    PermissionDenied,
    Failed(String),
}

/// How the image gets written.
pub enum FlashRoute {
    /// Straight to the opened device.
    Direct,
    /// Through the platform's elevated helper.
    Elevated,
    /// Not at all.
    Fail(Error),
}

/// The way to write the image, from how opening the device went: directly
/// where it opened, elevated where permission was denied, else the error.
pub fn flash_route(open: OpenOutcome) -> (res: FlashRoute)
    ensures
        match open {
            OpenOutcome::Opened => res is Direct,
            OpenOutcome::PermissionDenied => res is Elevated,
            OpenOutcome::Failed(m) => res matches FlashRoute::Fail(e) && e.0@ == m@,
        },
{
    match open {
        OpenOutcome::Opened => FlashRoute::Direct,
        OpenOutcome::PermissionDenied => FlashRoute::Elevated,
        OpenOutcome::Failed(m) => FlashRoute::Fail(Error(m)),
    }
}

} // verus!
