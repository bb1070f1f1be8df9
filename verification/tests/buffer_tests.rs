use engine::buffer::{Buffer, BufferView};

#[test]
fn buffer_test_as_slice() {
    let buffer = Buffer::new(None, None, vec![0, 1, 2, 3]);

    assert_eq!(buffer.as_slice(), &[0, 1, 2, 3]);
}

#[test]
fn buffer_test_deref() {
    let buffer = Buffer::new(None, None, vec![0, 1, 2, 3]);

    assert_eq!(&buffer.as_slice()[..], &[0, 1, 2, 3]);
}

#[test]
fn buffer_test_index() {
    let buffer = Buffer::new(None, None, vec![0, 1, 2, 3]);

    assert_eq!(&buffer.as_slice()[..], &[0, 1, 2, 3]);
    assert_eq!(&buffer.as_slice()[1..3], &[1, 2]);
    assert_eq!(&buffer.as_slice()[..2], &[0, 1]);
    assert_eq!(&buffer.as_slice()[2..], &[2, 3]);
}

#[test]
fn buffer_view_test_as_slice() {
    let buffer = Buffer::new(None, None, vec![0, 1, 2, 3]);
    let view = BufferView::new(None, buffer, 1, 2);

    assert_eq!(view.as_slice(), &[1, 2]);
}

#[test]
fn buffer_view_test_deref() {
    let buffer = Buffer::new(None, None, vec![0, 1, 2, 3]);
    let view = BufferView::new(None, buffer, 1, 2);

    assert_eq!(&view.as_slice()[..], &[1, 2]);
}

#[test]
fn buffer_view_test_index() {
    let buffer = Buffer::new(None, None, vec![0, 1, 2, 3]);
    let view = BufferView::new(None, buffer, 1, 2);

    assert_eq!(&view.as_slice()[..], &[1, 2]);
    assert_eq!(&view.as_slice()[1..2], &[2]);
    assert_eq!(&view.as_slice()[..1], &[1]);
    assert_eq!(&view.as_slice()[1..], &[2]);
}

#[test]
fn buffer_view_get_is_strict() {
    let buffer = Buffer::new(None, None, vec![0, 1, 2, 3]);
    let view = BufferView::new(None, buffer, 1, 2);

    assert_eq!(view.get(0), Some(1));
    assert_eq!(view.get(1), Some(2));
    // The per-access bound is the strict half-open form: the window length
    // itself is already out of range.
    assert_eq!(view.get(2), None);
}

#[test]
fn buffer_view_subslice_bounds() {
    let buffer = Buffer::new(None, None, vec![9, 8, 7, 6, 5]);
    let view = BufferView::new(None, buffer, 1, 3);

    assert_eq!(view.subslice(0, 3).unwrap(), &[8, 7, 6]);
    assert_eq!(view.subslice(1, 2).unwrap(), &[7]);
    assert!(view.subslice(2, 4).is_none());
}
