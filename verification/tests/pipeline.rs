use photo_pipeline::decode::decode_pixels;
use ratatui_image::thread::ThreadProtocol;
use ratatui_image::ResizeEncodeRender;
use photo_pipeline::driver::Action;
use photo_pipeline::driver::App;
use photo_pipeline::driver::Intent;
use photo_pipeline::listing::list_images;
use photo_pipeline::protocol::Poll;
use photo_pipeline::protocol::ProtocolState;
use photo_pipeline::protocol::Status;
use photo_pipeline::ErrorKind;

fn paths(names: &[&str]) -> Vec<Vec<u8>> {
    names.iter().map(|n| n.as_bytes().to_vec()).collect()
}

#[test]
fn listing_keeps_images_in_order() {
    let out = list_images(paths(&["a.png", "b.jpg", "c.txt"]));
    assert_eq!(out, paths(&["a.png", "b.jpg"]));
}

#[test]
fn listing_sorts_lexicographically() {
    let out = list_images(paths(&["zed.png", "alpha.jpeg", "mid.jpg"]));
    assert_eq!(out, paths(&["alpha.jpeg", "mid.jpg", "zed.png"]));
}

#[test]
fn listing_extension_edge_cases() {
    // a hidden file's leading dot is no extension; case matters; a trailing
    // dot gives an empty extension; only the last dot counts
    let out = list_images(paths(&[
        ".png",
        "upper.PNG",
        "dot.",
        "archive.tar.gz",
        "dir.d/plain",
        "dir.d/pic.png",
        "double.jpg.txt",
        "ok.jpeg",
    ]));
    assert_eq!(out, paths(&["dir.d/pic.png", "ok.jpeg"]));
}

#[test]
fn listing_keeps_duplicates() {
    let out = list_images(paths(&["b.jpg", "a.png", "b.jpg"]));
    assert_eq!(out, paths(&["a.png", "b.jpg", "b.jpg"]));
}

#[test]
fn navigation_round_trip() {
    let mut app = App::new();
    app.list_dir_into_text(paths(&["a.png", "b.jpg", "c.png"]));
    assert_eq!(app.current_photo, 0);
    app.advance();
    assert_eq!(app.current_photo, 1);
    app.retreat();
    assert_eq!(app.current_photo, 0);
    app.advance();
    app.advance();
    assert_eq!(app.current_photo, 2);
    app.retreat();
    app.advance();
    assert_eq!(app.current_photo, 2);
}

#[test]
fn navigation_clamps_at_boundaries() {
    let mut app = App::new();
    app.list_dir_into_text(paths(&["a.png", "b.jpg"]));
    // retreat at the first photo stays put
    app.retreat();
    assert_eq!(app.current_photo, 0);
    assert!(app.go_down_image().is_none());
    assert_eq!(app.current_photo, 0);
    // advance at the last photo stays put
    app.advance();
    assert_eq!(app.current_photo, 1);
    app.advance();
    assert_eq!(app.current_photo, 1);
    assert!(app.go_up_image().is_none());
    assert_eq!(app.current_photo, 1);
}

#[test]
fn navigation_on_empty_list_is_safe() {
    let mut app = App::new();
    app.advance();
    app.retreat();
    assert!(app.go_up_image().is_none());
    assert!(app.go_down_image().is_none());
    assert_eq!(app.current_photo, 0);
}

#[test]
fn go_up_image_returns_next_path() {
    let mut app = App::new();
    app.list_dir_into_text(paths(&["a.png", "b.jpg", "c.png"]));
    let p = app.go_up_image().expect("a next photo exists");
    assert_eq!(p, b"b.jpg".to_vec());
    assert_eq!(app.current_photo, 1);
    let q = app.go_down_image().expect("a previous photo exists");
    assert_eq!(q, b"a.png".to_vec());
    assert_eq!(app.current_photo, 0);
}

#[test]
fn counters_saturate() {
    let mut app = App::new();
    app.decrement_counter();
    assert_eq!(app.counter, 0);
    app.increment_counter();
    app.double_counter();
    assert_eq!(app.counter, 3);
    for _ in 0..300 {
        app.increment_counter();
    }
    assert_eq!(app.counter, 255);
    app.double_counter();
    assert_eq!(app.counter, 255);
}

#[test]
fn list_dir_into_text_fills_both_lists_and_counter() {
    let mut app = App::new();
    app.list_dir_into_text(paths(&["b.jpg", "a.png", "c.txt"]));
    assert_eq!(app.dir_list, paths(&["a.png", "b.jpg"]));
    assert_eq!(app.list_of_here, paths(&["a.png", "b.jpg"]));
    assert_eq!(app.counter, 2);
}

#[test]
fn rescan_clamps_index_into_new_list() {
    let mut app = App::new();
    app.list_dir_into_text(paths(&["a.png", "b.jpg", "c.png"]));
    app.advance();
    app.advance();
    assert_eq!(app.current_photo, 2);
    app.list_dir_into_text(paths(&["a.png"]));
    assert_eq!(app.current_photo, 0);
    app.list_dir_into_text(paths(&[]));
    assert_eq!(app.current_photo, 0);
}

#[test]
fn one_by_one_reads_current_and_counts() {
    let mut app = App::new();
    app.list_dir_into_text(paths(&["a.png", "b.jpg"]));
    app.advance();
    let p = app.one_by_one();
    assert_eq!(p, b"b.jpg".to_vec());
    assert_eq!(app.photo_count, 2);
}

#[test]
fn quit_stops_running() {
    let mut app = App::new();
    assert!(app.running);
    app.quit();
    assert!(!app.running);
}

#[test]
fn label_follows_last_initiated_load() {
    let mut app = App::new();
    app.list_dir_into_text(paths(&["a.png", "b.jpg"]));
    app.advance();
    let _ = app.load_new_image_thread(&vec![1, 2, 3]);
    assert_eq!(app.display_label(), b"b.jpg".to_vec());
    assert_eq!(app.filename, b"b.jpg".to_vec());
}

fn tiny_png(width: u32, height: u32) -> Vec<u8> {
    let img = image::RgbaImage::from_pixel(width, height, image::Rgba([10, 20, 30, 255]));
    let mut bytes: Vec<u8> = Vec::new();
    let mut cursor = std::io::Cursor::new(&mut bytes);
    image::DynamicImage::ImageRgba8(img)
        .write_to(&mut cursor, image::ImageFormat::Png)
        .expect("encoding a small image succeeds");
    bytes
}

#[test]
fn decode_pixels_reads_dimensions_and_buffer() {
    let bytes = tiny_png(2, 3);
    let pb = decode_pixels(&bytes).expect("a valid png decodes");
    assert_eq!(pb.width, 2);
    assert_eq!(pb.height, 3);
    assert_eq!(pb.data.len(), 2 * 3 * 4);
    assert_eq!(&pb.data[0..4], &[10, 20, 30, 255]);
}

#[test]
fn decode_pixels_rejects_garbage() {
    let r = decode_pixels(&vec![0, 1, 2, 3, 4, 5]);
    assert_eq!(r.err(), Some(ErrorKind::DecodeError));
}

#[test]
fn decode_pixels_rejects_truncated_data() {
    let mut bytes = tiny_png(4, 4);
    bytes.truncate(bytes.len() / 2);
    let r = decode_pixels(&bytes);
    assert!(r.is_err());
}

#[test]
fn decode_failure_keeps_state() {
    let mut app = App::new();
    app.list_dir_into_text(paths(&["a.png", "b.jpg"]));
    let mut state: ProtocolState<Vec<u8>> = ProtocolState::new(b"placeholder".to_vec());
    let r = app.load_new_image_thread(&vec![9, 9, 9]);
    assert!(r.is_err());
    state.record_error(ErrorKind::DecodeError);
    // the previously displayed frame is bit-for-bit unchanged
    assert_eq!(state.current_frame(), &b"placeholder".to_vec());
    assert_eq!(state.status, Status::Errored(ErrorKind::DecodeError));
}

#[test]
fn matching_response_becomes_displayed() {
    let mut state: ProtocolState<Vec<u8>> = ProtocolState::new(b"initial".to_vec());
    let seq = state.replace();
    assert_eq!(state.status, Status::Pending);
    // the previous frame stays visible while the resize is outstanding
    assert_eq!(state.current_frame(), &b"initial".to_vec());
    state.try_absorb(Poll::Empty);
    assert_eq!(state.current_frame(), &b"initial".to_vec());
    state.try_absorb(Poll::Ready(seq, Ok(b"resized".to_vec())));
    assert_eq!(state.current_frame(), &b"resized".to_vec());
    assert_eq!(state.status, Status::Displaying);
    assert_eq!(state.pending, None);
}

#[test]
fn failed_resize_keeps_previous_frame() {
    let mut state: ProtocolState<Vec<u8>> = ProtocolState::new(b"kept".to_vec());
    let seq = state.replace();
    state.try_absorb(Poll::Ready(seq, Err(ErrorKind::ResizeError)));
    assert_eq!(state.current_frame(), &b"kept".to_vec());
    assert_eq!(state.status, Status::Errored(ErrorKind::ResizeError));
    assert_eq!(state.pending, None);
}

#[test]
fn stale_response_is_ignored_in_either_drain_order() {
    // two rapid requests; the first is superseded, so after draining all
    // responses the displayed frame is the second request's result
    let mut a: ProtocolState<Vec<u8>> = ProtocolState::new(b"start".to_vec());
    let q1 = a.replace();
    let q2 = a.replace();
    a.try_absorb(Poll::Ready(q1, Ok(b"first".to_vec())));
    assert_eq!(a.current_frame(), &b"start".to_vec());
    a.try_absorb(Poll::Ready(q2, Ok(b"second".to_vec())));
    assert_eq!(a.current_frame(), &b"second".to_vec());

    let mut b: ProtocolState<Vec<u8>> = ProtocolState::new(b"start".to_vec());
    let q1 = b.replace();
    let q2 = b.replace();
    b.try_absorb(Poll::Ready(q2, Ok(b"second".to_vec())));
    b.try_absorb(Poll::Ready(q1, Ok(b"first".to_vec())));
    assert_eq!(b.current_frame(), &b"second".to_vec());
}

#[test]
fn dead_pipeline_stays_safe() {
    // the relay and pool are gone: polling reports the closure, further
    // requests are accepted, and polling an empty inbox stays a no-op
    let mut state: ProtocolState<Vec<u8>> = ProtocolState::new(b"last".to_vec());
    state.try_absorb(Poll::Disconnected);
    assert!(!state.pipeline_ok);
    assert_eq!(state.status, Status::Errored(ErrorKind::ChannelClosed));
    assert_eq!(state.current_frame(), &b"last".to_vec());
    let _seq = state.replace();
    assert_eq!(state.current_frame(), &b"last".to_vec());
    state.note_channel_closed();
    state.try_absorb(Poll::Empty);
    assert_eq!(state.current_frame(), &b"last".to_vec());
    assert!(!state.pipeline_ok);
}

#[test]
fn responses_apply_only_while_pending() {
    let mut state: ProtocolState<Vec<u8>> = ProtocolState::new(b"one".to_vec());
    let seq = state.replace();
    state.try_absorb(Poll::Ready(seq, Ok(b"two".to_vec())));
    // the same response delivered again finds nothing pending and is ignored
    state.try_absorb(Poll::Ready(seq, Ok(b"three".to_vec())));
    assert_eq!(state.current_frame(), &b"two".to_vec());
}

#[test]
fn intents_drive_the_state_machine() {
    let mut app = App::new();
    app.list_dir_into_text(paths(&["a.png", "b.jpg"]));
    assert!(matches!(app.handle_intent(Intent::RefreshList), Action::Rescan));
    match app.handle_intent(Intent::Next) {
        Action::Load(p) => assert_eq!(p, b"b.jpg".to_vec()),
        _ => panic!("a next photo exists"),
    }
    // clamped: no further photo, so nothing to load
    assert!(matches!(app.handle_intent(Intent::Next), Action::Stay));
    assert_eq!(app.current_photo, 1);
    match app.handle_intent(Intent::Prev) {
        Action::Load(p) => assert_eq!(p, b"a.png".to_vec()),
        _ => panic!("a previous photo exists"),
    }
    assert!(matches!(app.handle_intent(Intent::Prev), Action::Stay));
    app.handle_intent(Intent::Increment);
    app.handle_intent(Intent::Double);
    assert_eq!(app.counter, 5);
    app.handle_intent(Intent::Decrement);
    assert_eq!(app.counter, 4);
    app.handle_intent(Intent::Quit);
    assert!(!app.running);
}

#[test]
fn relay_step_completes_a_real_request() {
    // mint a genuine resize request without a terminal: the halfblocks
    // picker, a small image, and the widget's own request channel
    let picker = ratatui_image::picker::Picker::halfblocks();
    let img = image::DynamicImage::ImageRgba8(image::RgbaImage::from_pixel(
        32,
        32,
        image::Rgba([1, 2, 3, 255]),
    ));
    let protocol = picker.new_resize_protocol(img);
    let (tx, rx) = std::sync::mpsc::channel();
    let mut widget = ThreadProtocol::new(tx, Some(protocol));
    widget.resize_encode(
        &ratatui_image::Resize::default(),
        ratatui::layout::Size {
            width: 4,
            height: 2,
        },
    );
    let request = rx.try_recv().expect("the widget sent a resize request");

    // the target above is nonzero in both dimensions, so the request meets
    // relay_step's encodable-request assumption
    let response = photo_pipeline::relay::relay_step(request).expect("the resize completes");
    // the response carries the request's tag, so the widget accepts it
    assert!(widget.update_resized_protocol(response));
}
