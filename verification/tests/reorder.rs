use selector4nix::reorder::{PopOutcome, PushOutcome, ReorderBuffer};

fn chunk(s: &str) -> Vec<u8> {
    s.as_bytes().to_vec()
}

#[test]
fn emits_chunks_in_offset_order() {
    let mut buffer = ReorderBuffer::new(10, 1024);
    assert_eq!(buffer.push(5, chunk("56789")), PushOutcome::Accepted);
    assert_eq!(buffer.push(0, chunk("01234")), PushOutcome::Accepted);
    buffer.mark_complete();

    assert_eq!(buffer.pop_next(), PopOutcome::Chunk(chunk("01234")));
    assert_eq!(buffer.pop_next(), PopOutcome::Chunk(chunk("56789")));
    assert_eq!(buffer.pop_next(), PopOutcome::Finished);
}

#[test]
fn reports_error_when_marked_complete_with_missing_bytes() {
    let mut buffer = ReorderBuffer::new(10, 1024);
    assert_eq!(buffer.push(0, chunk("01234")), PushOutcome::Accepted);
    buffer.mark_complete();

    assert_eq!(buffer.pop_next(), PopOutcome::Chunk(chunk("01234")));
    match buffer.pop_next() {
        PopOutcome::Failed(err) => {
            assert!(err.contains("ended before all bytes were received"))
        }
        other => panic!("unexpected outcome {:?}", other),
    }
}

#[test]
fn propagates_failures() {
    let mut buffer = ReorderBuffer::new(10, 1024);
    buffer.fail("worker failed".to_string());

    match buffer.pop_next() {
        PopOutcome::Failed(err) => assert!(err.contains("worker failed")),
        other => panic!("unexpected outcome {:?}", other),
    }
}

#[test]
fn streams_leading_bytes_before_trailing_chunk_arrives() {
    let mut buffer = ReorderBuffer::new(10, 1024);

    // Only the leading chunk is available; the tail has not been fetched.
    assert_eq!(buffer.push(0, chunk("01234")), PushOutcome::Accepted);

    // The client receives the leading segment immediately, mid-download.
    assert_eq!(buffer.pop_next(), PopOutcome::Chunk(chunk("01234")));
    assert_eq!(buffer.pop_next(), PopOutcome::Wait);

    // The trailing chunk arrives later and is then emitted in order.
    assert_eq!(buffer.push(5, chunk("56789")), PushOutcome::Accepted);
    buffer.mark_complete();

    assert_eq!(buffer.pop_next(), PopOutcome::Chunk(chunk("56789")));
    assert_eq!(buffer.pop_next(), PopOutcome::Finished);
}

#[test]
fn leading_chunk_larger_than_window_is_admitted() {
    // Window is only 4 bytes, yet the in-order leading chunk must always be
    // admitted so it can stream to the client without blocking.
    let mut buffer = ReorderBuffer::new(10, 4);
    assert_eq!(
        buffer.push(0, chunk("0123456789")),
        PushOutcome::Accepted,
        "leading chunk must not block on a small window"
    );

    assert_eq!(buffer.pop_next(), PopOutcome::Chunk(chunk("0123456789")));
    assert_eq!(buffer.pop_next(), PopOutcome::Finished);
}

#[test]
fn far_ahead_chunk_is_admitted_after_cursor_advances() {
    // Window of 5 bytes. The trailing chunk at offset 5 starts outside the
    // window and must wait until the cursor advances past the leading chunk.
    let mut buffer = ReorderBuffer::new(10, 5);
    assert_eq!(buffer.push(0, chunk("01234")), PushOutcome::Accepted);
    assert_eq!(buffer.push(5, chunk("56789")), PushOutcome::MustWait);

    // Draining the leading chunk advances the cursor to 5, opening the
    // window for the trailing chunk.
    assert_eq!(buffer.pop_next(), PopOutcome::Chunk(chunk("01234")));
    assert_eq!(buffer.cursor(), 5);
    assert_eq!(
        buffer.push(5, chunk("56789")),
        PushOutcome::Accepted,
        "trailing push should be admitted once the window opens"
    );

    buffer.mark_complete();
    assert_eq!(buffer.pop_next(), PopOutcome::Chunk(chunk("56789")));
    assert_eq!(buffer.pop_next(), PopOutcome::Finished);
}

#[test]
fn empty_chunks_are_dropped_and_completion_admits_everything() {
    let mut buffer = ReorderBuffer::new(10, 1);
    assert_eq!(buffer.push(9, Vec::new()), PushOutcome::Accepted);
    assert_eq!(buffer.push(9, chunk("9")), PushOutcome::MustWait);
    assert!(!buffer.is_admitted(9));
    buffer.mark_complete();
    assert!(buffer.is_admitted(9));
    assert_eq!(buffer.push(9, chunk("9")), PushOutcome::Accepted);
}

#[test]
fn delivered_bytes_are_always_the_file_prefix() {
    let file = chunk("abcdefghijklmnop");
    let mut buffer = ReorderBuffer::new(16, 8);
    let mut delivered: Vec<u8> = Vec::new();
    assert_eq!(buffer.push(12, file[12..16].to_vec()), PushOutcome::MustWait);
    let pushes = [(4u64, 8usize), (0, 4), (12, 16), (8, 12)];
    for (start, end) in pushes {
        let data = file[start as usize..end].to_vec();
        assert_eq!(buffer.push(start, data), PushOutcome::Accepted);
        while let PopOutcome::Chunk(c) = buffer.pop_next() {
            delivered.extend(c);
            assert_eq!(delivered.as_slice(), &file[..buffer.cursor() as usize]);
        }
        assert_eq!(delivered.as_slice(), &file[..buffer.cursor() as usize]);
    }
    assert_eq!(delivered, file);
    assert_eq!(buffer.pop_next(), PopOutcome::Finished);
    assert_eq!(buffer.pop_next(), PopOutcome::Finished);
}
