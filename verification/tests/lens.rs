use inferlets::lens::{lens_forwards, EventKind};

#[test]
fn lens_holds_back_content_and_terminal_frames() {
    assert!(!lens_forwards(EventKind::ContentDelta));
    assert!(!lens_forwards(EventKind::Finish));
    assert!(!lens_forwards(EventKind::Usage));
    assert!(lens_forwards(EventKind::Other));
}
