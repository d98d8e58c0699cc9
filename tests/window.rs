use ocplist::window::{RangeError, SeekTarget, Window};

#[test]
fn window_rejects_access_past_end() {
    let w = Window::new(100, 110);
    assert_eq!(w.len(), 10);
    assert_eq!(w.span(11), Err(RangeError::OutOfRange));
    assert_eq!(w.span(10), Ok(100));
}

#[test]
fn window_write_ending_at_end_allowed() {
    let mut w = Window::new(512, 1024);
    assert_eq!(w.seek(SeekTarget::Start(500)), Ok(500));
    assert_eq!(w.span(12), Ok(1012));
    assert_eq!(w.span(13), Err(RangeError::OutOfRange));
    w.advance(12);
    assert_eq!(w.pos, 512);
    assert_eq!(w.span(0), Ok(1024));
    assert_eq!(w.span(1), Err(RangeError::OutOfRange));
}

#[test]
fn window_seek_bounds() {
    let mut w = Window::new(10, 20);
    assert_eq!(w.seek(SeekTarget::End(0)), Ok(10));
    assert_eq!(w.seek(SeekTarget::End(1)), Err(RangeError::OutOfRange));
    assert_eq!(w.pos, 10);
    assert_eq!(w.seek(SeekTarget::Current(-4)), Ok(6));
    assert_eq!(w.seek(SeekTarget::Current(-7)), Err(RangeError::OutOfRange));
    assert_eq!(w.seek(SeekTarget::Start(11)), Err(RangeError::OutOfRange));
    assert_eq!(w.seek(SeekTarget::Start(0)), Ok(0));
    assert_eq!(w.span(3), Ok(10));
}

#[test]
fn empty_window() {
    let w = Window::new(7, 7);
    assert_eq!(w.span(0), Ok(7));
    assert_eq!(w.span(1), Err(RangeError::OutOfRange));
}
