use disk_image::flow::{ConfirmationResponse, CreationAction, CreationEvent, CreationState, ImageCreation};

fn feed(c: &mut ImageCreation, e: CreationEvent) -> Option<CreationAction> {
    c.handle(&e)
}

#[test]
fn new_file_clean_copy_closes() {
    let mut c = ImageCreation::new();
    assert_eq!(feed(&mut c, CreationEvent::CreateRequested { target_exists: false }), Some(CreationAction::ResolveSource));
    assert_eq!(feed(&mut c, CreationEvent::SourceResolved(Some("/dev/sdb".to_string()))), Some(CreationAction::ReleaseDevice));
    assert_eq!(feed(&mut c, CreationEvent::DeviceReleased), Some(CreationAction::OpenImage));
    assert_eq!(feed(&mut c, CreationEvent::ImageOpened(true)), Some(CreationAction::StartCopy));
    assert_eq!(
        feed(&mut c, CreationEvent::CopySucceeded { unreadable_bytes: 0, device_size: 100 }),
        Some(CreationAction::Close)
    );
    assert_eq!(c.state(), CreationState::Done);
}

#[test]
fn existing_file_cancelled() {
    let mut c = ImageCreation::new();
    assert_eq!(feed(&mut c, CreationEvent::CreateRequested { target_exists: true }), Some(CreationAction::AskOverwrite));
    assert_eq!(feed(&mut c, CreationEvent::OverwriteAnswered(ConfirmationResponse::Cancel)), Some(CreationAction::KeepOpen));
    assert_eq!(c.state(), CreationState::Done);
}

#[test]
fn existing_file_replaced() {
    let mut c = ImageCreation::new();
    feed(&mut c, CreationEvent::CreateRequested { target_exists: true });
    assert_eq!(feed(&mut c, CreationEvent::OverwriteAnswered(ConfirmationResponse::Confirm)), Some(CreationAction::ResolveSource));
}

#[test]
fn optical_drive_is_not_released() {
    let mut c = ImageCreation::new();
    feed(&mut c, CreationEvent::CreateRequested { target_exists: false });
    assert_eq!(feed(&mut c, CreationEvent::SourceResolved(Some("/dev/sr0".to_string()))), Some(CreationAction::OpenImage));
}

#[test]
fn unreadable_source_closes() {
    let mut c = ImageCreation::new();
    feed(&mut c, CreationEvent::CreateRequested { target_exists: false });
    assert_eq!(feed(&mut c, CreationEvent::SourceResolved(None)), Some(CreationAction::Close));
}

#[test]
fn open_error_is_reported_and_closes() {
    let mut c = ImageCreation::new();
    feed(&mut c, CreationEvent::CreateRequested { target_exists: false });
    feed(&mut c, CreationEvent::SourceResolved(Some("/dev/sr0".to_string())));
    assert_eq!(feed(&mut c, CreationEvent::ImageOpened(false)), Some(CreationAction::ReportOpenErrorAndClose));
    assert_eq!(c.state(), CreationState::Done);
}

#[test]
fn copy_error_closes() {
    let mut c = ImageCreation::new();
    feed(&mut c, CreationEvent::CreateRequested { target_exists: false });
    feed(&mut c, CreationEvent::SourceResolved(Some("/dev/sr0".to_string())));
    feed(&mut c, CreationEvent::ImageOpened(true));
    assert_eq!(feed(&mut c, CreationEvent::CopyFailed), Some(CreationAction::ReportCopyErrorAndClose));
}

fn after_copy_with_unreadable_data() -> ImageCreation {
    let mut c = ImageCreation::new();
    feed(&mut c, CreationEvent::CreateRequested { target_exists: false });
    feed(&mut c, CreationEvent::SourceResolved(Some("/dev/sr0".to_string())));
    feed(&mut c, CreationEvent::ImageOpened(true));
    assert_eq!(
        feed(&mut c, CreationEvent::CopySucceeded { unreadable_bytes: 5, device_size: 100 }),
        Some(CreationAction::AskDeletion { unreadable_bytes: 5, device_size: 100 })
    );
    c
}

#[test]
fn unreadable_data_image_deleted_on_confirm() {
    let mut c = after_copy_with_unreadable_data();
    assert_eq!(feed(&mut c, CreationEvent::DeletionAnswered(ConfirmationResponse::Confirm)), Some(CreationAction::RemoveImage));
    assert_eq!(feed(&mut c, CreationEvent::ImageRemoved), Some(CreationAction::Close));
}

#[test]
fn unreadable_data_image_kept_on_cancel_and_closes() {
    let mut c = after_copy_with_unreadable_data();
    assert_eq!(feed(&mut c, CreationEvent::DeletionAnswered(ConfirmationResponse::Cancel)), Some(CreationAction::Close));
    assert_eq!(c.state(), CreationState::Done);
}

#[test]
fn unexpected_event_is_ignored() {
    let mut c = ImageCreation::new();
    assert_eq!(feed(&mut c, CreationEvent::ImageRemoved), None);
    assert_eq!(c.state(), CreationState::Idle);
    feed(&mut c, CreationEvent::CreateRequested { target_exists: false });
    feed(&mut c, CreationEvent::SourceResolved(None));
    assert_eq!(feed(&mut c, CreationEvent::CreateRequested { target_exists: false }), None);
}
