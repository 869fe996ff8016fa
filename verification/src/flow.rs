//! What the dialog does when the user asks for an image to be created: the
//! decisions between the steps that the interface and the disk service carry
//! out, from the check for an existing file to closing the dialog.
use vstd::prelude::*;
use crate::device::is_optical_device;
use crate::text::has_prefix;

verus! {

/// The answer given in a confirmation dialog.
#[derive(Debug, Clone, Copy, PartialEq, Eq)]
pub enum ConfirmationResponse {
    /// The user backed out.
    Cancel,
    /// The user confirmed the proposed action.
    Confirm,
}

/// Where the creation of an image stands.
#[derive(Debug, Clone, Copy, PartialEq, Eq)]
pub enum CreationState {
    /// Nothing was requested yet.
    Idle,
    /// The target file exists; waiting for the user to allow replacing it.
    ConfirmingOverwrite,
    /// Waiting for the path of the source device.
    ResolvingSource,
    /// Waiting for the source device to be made unused (unmounted).
    ReleasingDevice,
    /// Waiting for the image file to be created.
    OpeningImage,
    /// The device is being copied into the image.
    Copying,
    /// Some data could not be read; waiting for the user to decide whether
    /// the image is deleted.
    ConfirmingDeletion,
    /// The image is being deleted.
    RemovingImage,
    /// Nothing more happens.
    Done,
}

/// What happened since the last step.
#[derive(Debug, PartialEq, Eq)]
pub enum CreationEvent {
    /// The user asked for the image; `target_exists` tells whether a file of
    /// that name is already there.
    CreateRequested { target_exists: bool },
    /// The user answered the question whether the file may be replaced.
    OverwriteAnswered(ConfirmationResponse),
    /// The path of the source device, `None` when it could not be had.
    SourceResolved(Option<String>),
    /// The source device is no longer in use.
    DeviceReleased,
    /// The image file was created (`true`) or could not be (`false`).
    ImageOpened(bool),
    /// The copy is complete; `unreadable_bytes` of the image are zeros that
    /// stand for data the device did not deliver.
    CopySucceeded { unreadable_bytes: u64, device_size: u64 },
    /// The copy failed.
    CopyFailed,
    /// The user answered the question whether the image is deleted.
    DeletionAnswered(ConfirmationResponse),
    /// The attempt to delete the image is over (a failure is only logged).
    ImageRemoved,
}

/// What is to be done next.
#[derive(Debug, Clone, Copy, PartialEq, Eq)]
pub enum CreationAction {
    /// Ask whether the existing file may be replaced.
    AskOverwrite,
    /// Find the path of the source device.
    ResolveSource,
    /// Make the source device unused (unmount what it holds).
    ReleaseDevice,
    /// Create the image file.
    OpenImage,
    /// Tell the user that the image file could not be created, then close the dialog.
    ReportOpenErrorAndClose,
    /// Copy the device into the image.
    StartCopy,
    /// Tell the user that the copy failed, then close the dialog.
    ReportCopyErrorAndClose,
    /// Tell the user how much data could not be read and offer to delete the image.
    AskDeletion { unreadable_bytes: u64, device_size: u64 },
    /// Delete the image file.
    RemoveImage,
    /// Close the dialog.
    Close,
    /// Nothing more; the dialog stays open so that another name can be chosen
    /// (the user declined to replace an existing file).
    KeepOpen,
}

/// The next state and action, or `None` when the event is not one that the
/// state waits for.
pub open spec fn transition(s: CreationState, e: CreationEvent) -> Option<(CreationState, CreationAction)> {
    match (s, e) {
        (CreationState::Idle, CreationEvent::CreateRequested { target_exists }) => if target_exists {
            Some((CreationState::ConfirmingOverwrite, CreationAction::AskOverwrite))
        } else {
            Some((CreationState::ResolvingSource, CreationAction::ResolveSource))
        },
        (CreationState::ConfirmingOverwrite, CreationEvent::OverwriteAnswered(r)) => match r {
            ConfirmationResponse::Cancel => Some((CreationState::Done, CreationAction::KeepOpen)),
            ConfirmationResponse::Confirm => Some((CreationState::ResolvingSource, CreationAction::ResolveSource)),
        },
        (CreationState::ResolvingSource, CreationEvent::SourceResolved(device)) => match device {
            None => Some((CreationState::Done, CreationAction::Close)),
            Some(d) => if has_prefix(d@, "/dev/sr"@) {
                Some((CreationState::OpeningImage, CreationAction::OpenImage))
            } else {
                Some((CreationState::ReleasingDevice, CreationAction::ReleaseDevice))
            },
        },
        (CreationState::ReleasingDevice, CreationEvent::DeviceReleased) => Some(
            (CreationState::OpeningImage, CreationAction::OpenImage),
        ),
        (CreationState::OpeningImage, CreationEvent::ImageOpened(opened)) => if opened {
            Some((CreationState::Copying, CreationAction::StartCopy))
        } else {
            Some((CreationState::Done, CreationAction::ReportOpenErrorAndClose))
        },
        (CreationState::Copying, CreationEvent::CopyFailed) => Some(
            (CreationState::Done, CreationAction::ReportCopyErrorAndClose),
        ),
        (CreationState::Copying, CreationEvent::CopySucceeded { unreadable_bytes, device_size }) => if unreadable_bytes > 0 {
            Some((CreationState::ConfirmingDeletion, CreationAction::AskDeletion { unreadable_bytes, device_size }))
        } else {
            Some((CreationState::Done, CreationAction::Close))
        },
        (CreationState::ConfirmingDeletion, CreationEvent::DeletionAnswered(r)) => match r {
            ConfirmationResponse::Cancel => Some((CreationState::Done, CreationAction::Close)),
            ConfirmationResponse::Confirm => Some((CreationState::RemovingImage, CreationAction::RemoveImage)),
        },
        (CreationState::RemovingImage, CreationEvent::ImageRemoved) => Some(
            (CreationState::Done, CreationAction::Close),
        ),
        _ => None,
    }
}

/// The image file is deleted only when the user, told that some data could
/// not be read, confirmed its deletion.
pub proof fn lemma_removal_needs_confirmation(s: CreationState, e: CreationEvent)
    requires
        transition(s, e) matches Some((_, a)) && a == CreationAction::RemoveImage,
    ensures
        s == CreationState::ConfirmingDeletion,
        e == CreationEvent::DeletionAnswered(ConfirmationResponse::Confirm),
{
}

/// The work on an image starts only on a request for a name that no file
/// has, or once the user allowed the existing file to be replaced.
pub proof fn lemma_overwrite_needs_confirmation(s: CreationState, e: CreationEvent)
    requires
        transition(s, e) matches Some((_, a)) && a == CreationAction::ResolveSource,
    ensures
        (s == CreationState::Idle && e == CreationEvent::CreateRequested { target_exists: false })
            || (s == CreationState::ConfirmingOverwrite && e == CreationEvent::OverwriteAnswered(
            ConfirmationResponse::Confirm,
        )),
{
}

/// Only a device that is not an optical drive is made unused before the copy.
pub proof fn lemma_optical_drive_not_released(s: CreationState, e: CreationEvent)
    requires
        transition(s, e) matches Some((_, a)) && a == CreationAction::ReleaseDevice,
    ensures
        s == CreationState::ResolvingSource,
        e matches CreationEvent::SourceResolved(Some(d)) && !has_prefix(d@, "/dev/sr"@),
{
}

/// The copy starts only once the image file was created.
pub proof fn lemma_copy_needs_open_image(s: CreationState, e: CreationEvent)
    requires
        transition(s, e) matches Some((_, a)) && a == CreationAction::StartCopy,
    ensures
        s == CreationState::OpeningImage,
        e == CreationEvent::ImageOpened(true),
{
}

/// Any unreadable data, however little, leads to the question whether the
/// image is deleted, told how much could not be read and of how much; a copy
/// without unreadable data closes the dialog without asking.
pub proof fn lemma_unreadable_data_is_reported(unreadable_bytes: u64, device_size: u64)
    ensures
        unreadable_bytes > 0 ==> transition(
            CreationState::Copying,
            CreationEvent::CopySucceeded { unreadable_bytes, device_size },
        ) == Some((
            CreationState::ConfirmingDeletion,
            CreationAction::AskDeletion { unreadable_bytes, device_size },
        )),
        unreadable_bytes == 0 ==> transition(
            CreationState::Copying,
            CreationEvent::CopySucceeded { unreadable_bytes, device_size },
        ) == Some((CreationState::Done, CreationAction::Close)),
{
}

/// The action closes the dialog.
pub open spec fn closes_dialog(a: CreationAction) -> bool {
    ||| a == CreationAction::Close
    ||| a == CreationAction::ReportOpenErrorAndClose
    ||| a == CreationAction::ReportCopyErrorAndClose
}

/// Once the work on the image has begun (the source was asked for), every
/// way in which it ends closes the dialog: the values it was set up with
/// have been used up.
pub proof fn lemma_creation_ends_closed(s: CreationState, e: CreationEvent)
    requires
        transition(s, e) matches Some((t, _)) && t == CreationState::Done,
        s != CreationState::Idle,
        s != CreationState::ConfirmingOverwrite,
    ensures
        closes_dialog(transition(s, e).unwrap().1),
{
}

/// The dialog stays open only when the user declined to replace an
/// existing file, before any work on the image began.
pub proof fn lemma_kept_open_only_on_declined_overwrite(s: CreationState, e: CreationEvent)
    requires
        transition(s, e) matches Some((_, a)) && a == CreationAction::KeepOpen,
    ensures
        s == CreationState::ConfirmingOverwrite,
        e == CreationEvent::OverwriteAnswered(ConfirmationResponse::Cancel),
{
}

/// Once done, a creation takes no further event.
pub proof fn lemma_done_is_final(e: CreationEvent)
    ensures
        transition(CreationState::Done, e) is None,
{
}

/// The states and actions that a sequence of events leads to from `start`;
/// events that a state does not wait for are passed over.
pub open spec fn run(start: CreationState, events: Seq<CreationEvent>) -> (CreationState, Seq<CreationAction>)
    decreases events.len(),
{
    if events.len() == 0 {
        (start, Seq::empty())
    } else {
        let (s, actions) = run(start, events.drop_last());
        match transition(s, events.last()) {
            Some((t, a)) => (t, actions.push(a)),
            None => (s, actions),
        }
    }
}

/// Every deletion of an image is preceded by the question about it.
pub open spec fn asked_before_removal(actions: Seq<CreationAction>) -> bool {
    forall|i: int|
        0 <= i < actions.len() && #[trigger] actions[i] == CreationAction::RemoveImage ==> exists|j: int|
            0 <= j < i && (#[trigger] actions[j] matches CreationAction::AskDeletion { .. })
}

proof fn lemma_run_asks(events: Seq<CreationEvent>)
    ensures
        asked_before_removal(run(CreationState::Idle, events).1),
        ({
            let (s, actions) = run(CreationState::Idle, events);
            (s == CreationState::ConfirmingDeletion || s == CreationState::RemovingImage) ==> exists|j: int|
                0 <= j < actions.len() && (#[trigger] actions[j] matches CreationAction::AskDeletion { .. })
        }),
    decreases events.len(),
{
    if events.len() > 0 {
        lemma_run_asks(events.drop_last());
        let (s, actions) = run(CreationState::Idle, events.drop_last());
        match transition(s, events.last()) {
            Some((t, a)) => {
                let next = actions.push(a);
                assert forall|i: int|
                    0 <= i < next.len() && #[trigger] next[i] == CreationAction::RemoveImage implies exists|j: int|
                    0 <= j < i && (#[trigger] next[j] matches CreationAction::AskDeletion { .. }) by {
                    if i < actions.len() {
                        assert(next[i] == actions[i]);
                        let j = choose|j: int| 0 <= j < i && (#[trigger] actions[j] matches CreationAction::AskDeletion { .. });
                        assert(next[j] == actions[j]);
                    } else {
                        let j = choose|j: int| 0 <= j < actions.len() && (#[trigger] actions[j] matches CreationAction::AskDeletion { .. });
                        assert(next[j] == actions[j]);
                    }
                }
                if t == CreationState::ConfirmingDeletion {
                    assert(next[next.len() - 1] matches CreationAction::AskDeletion { .. });
                } else if t == CreationState::RemovingImage {
                    let j = choose|j: int| 0 <= j < actions.len() && (#[trigger] actions[j] matches CreationAction::AskDeletion { .. });
                    assert(next[j] == actions[j]);
                }
            },
            None => {},
        }
    }
}

/// In every course of events from the start, the image is deleted only after
/// the user was told how much data could not be read and asked about it.
pub proof fn lemma_removal_follows_question(events: Seq<CreationEvent>)
    ensures
        asked_before_removal(run(CreationState::Idle, events).1),
{
    lemma_run_asks(events);
}

/// The creation of an image, one step at a time.
pub struct ImageCreation {
    state: CreationState,
}

impl View for ImageCreation {
    type V = CreationState;

    closed spec fn view(&self) -> CreationState {
        self.state
    }
}

impl ImageCreation {
    /// A creation that waits for the user's request.
    pub fn new() -> (c: ImageCreation)
        ensures
            c@ == CreationState::Idle,
    {
        ImageCreation { state: CreationState::Idle }
    }

    /// Where the creation stands.
    pub fn state(&self) -> (s: CreationState)
        ensures
            s == self@,
    {
        self.state
    }

    /// Takes `event` and returns what is to be done next; an event that the
    /// current state does not wait for changes nothing and gives `None`.
    pub fn handle(&mut self, event: &CreationEvent) -> (action: Option<CreationAction>)
        ensures
            match transition(old(self)@, *event) {
                Some((s, a)) => final(self)@ == s && action == Some(a),
                None => final(self)@ == old(self)@ && action is None,
            },
    {
        let next: Option<(CreationState, CreationAction)> = match (self.state, event) {
            (CreationState::Idle, CreationEvent::CreateRequested { target_exists }) => if *target_exists {
                Some((CreationState::ConfirmingOverwrite, CreationAction::AskOverwrite))
            } else {
                Some((CreationState::ResolvingSource, CreationAction::ResolveSource))
            },
            (CreationState::ConfirmingOverwrite, CreationEvent::OverwriteAnswered(r)) => match r {
                ConfirmationResponse::Cancel => Some((CreationState::Done, CreationAction::KeepOpen)),
                ConfirmationResponse::Confirm => Some(
                    (CreationState::ResolvingSource, CreationAction::ResolveSource),
                ),
            },
            (CreationState::ResolvingSource, CreationEvent::SourceResolved(device)) => match device {
                None => Some((CreationState::Done, CreationAction::Close)),
                Some(d) => if is_optical_device(d.as_str()) {
                    Some((CreationState::OpeningImage, CreationAction::OpenImage))
                } else {
                    Some((CreationState::ReleasingDevice, CreationAction::ReleaseDevice))
                },
            },
            (CreationState::ReleasingDevice, CreationEvent::DeviceReleased) => Some(
                (CreationState::OpeningImage, CreationAction::OpenImage),
            ),
            (CreationState::OpeningImage, CreationEvent::ImageOpened(opened)) => if *opened {
                Some((CreationState::Copying, CreationAction::StartCopy))
            } else {
                Some((CreationState::Done, CreationAction::ReportOpenErrorAndClose))
            },
            (CreationState::Copying, CreationEvent::CopyFailed) => Some(
                (CreationState::Done, CreationAction::ReportCopyErrorAndClose),
            ),
            (CreationState::Copying, CreationEvent::CopySucceeded { unreadable_bytes, device_size }) => if *unreadable_bytes > 0 {
                Some((
                    CreationState::ConfirmingDeletion,
                    CreationAction::AskDeletion { unreadable_bytes: *unreadable_bytes, device_size: *device_size },
                ))
            } else {
                Some((CreationState::Done, CreationAction::Close))
            },
            (CreationState::ConfirmingDeletion, CreationEvent::DeletionAnswered(r)) => match r {
                ConfirmationResponse::Cancel => Some((CreationState::Done, CreationAction::Close)),
                ConfirmationResponse::Confirm => Some(
                    (CreationState::RemovingImage, CreationAction::RemoveImage),
                ),
            },
            (CreationState::RemovingImage, CreationEvent::ImageRemoved) => Some(
                (CreationState::Done, CreationAction::Close),
            ),
            _ => None,
        };
        match next {
            Some((s, a)) => {
                self.state = s;
                Some(a)
            },
            None => None,
        }
    }
}

} // verus!
