use gemlite::registry::{
    next_stream_id, rotation_pointer, start_stream, stream_registry, StreamEntry, StreamRegistry,
    FIRST_STREAM_ID, NO_STREAM,
};
use gemlite::stream::{stream_next_inner, PollEvent};

#[test]
fn handles_count_up_from_one() {
    let mut counter = FIRST_STREAM_ID;
    assert_eq!(next_stream_id(&mut counter), 1);
    assert_eq!(next_stream_id(&mut counter), 2);
    assert_eq!(next_stream_id(&mut counter), 3);
}

#[test]
fn handles_begin_again_after_the_largest() {
    let mut counter = u64::MAX;
    assert_eq!(next_stream_id(&mut counter), u64::MAX);
    assert_eq!(next_stream_id(&mut counter), 0);
    assert_eq!(next_stream_id(&mut counter), 1);
}

#[test]
fn rotation_begins_at_the_first_key() {
    assert_eq!(rotation_pointer(), 0);
}

#[test]
fn started_streams_are_found() {
    let mut streams = stream_registry();
    let mut counter = FIRST_STREAM_ID;
    let first = start_stream(Some(&mut streams), next_stream_id(&mut counter), "a");
    let second = start_stream(Some(&mut streams), next_stream_id(&mut counter), "b");
    assert_eq!((first, second), (1, 2));
    assert_eq!(streams.look_up(1), Ok(&StreamEntry { channel: "a", cancel: false }));
    assert_eq!(streams.look_up(2), Ok(&StreamEntry { channel: "b", cancel: false }));
    assert_eq!(streams.look_up(3), Err(PollEvent::UnknownHandle));
}

#[test]
fn stream_is_not_started_without_the_others() {
    let missing: Option<&mut StreamRegistry<&str>> = None;
    assert_eq!(start_stream(missing, 7, "a"), NO_STREAM);
    assert_eq!(NO_STREAM, 0);
}

#[test]
fn closed_streams_are_given_up_and_unknown() {
    let mut streams = stream_registry();
    start_stream(Some(&mut streams), 1, "a");
    start_stream(Some(&mut streams), 2, "b");
    assert_eq!(streams.close(1), Some(StreamEntry { channel: "a", cancel: true }));
    assert_eq!(streams.look_up(1), Err(PollEvent::UnknownHandle));
    assert_eq!(streams.close(1), None);
    assert_eq!(streams.close(9), None);
    assert_eq!(streams.look_up(2), Ok(&StreamEntry { channel: "b", cancel: false }));
    let told = stream_next_inner(streams.look_up(1).unwrap_err());
    assert!(told.contains("\"status\":\"UNKNOWN_HANDLE\""));
}
