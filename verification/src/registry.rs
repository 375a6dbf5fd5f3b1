//! The open streams, by the handles that their callers hold.

use std::collections::HashMap;
use vstd::prelude::*;

use crate::stream::{keyless_message, message_tree, poll_tree, PollEvent, PollEventView};

verus! {

broadcast use vstd::std_specs::hash::group_hash_axioms;

/// The first handle that is given out.
pub const FIRST_STREAM_ID: u64 = 1;

/// What a caller gets in place of a handle where no stream could be started.
pub const NO_STREAM: u64 = 0;

/// A stream: what its messages come over, and whether its caller has given it up.
#[derive(Debug, PartialEq, Eq)]
pub struct StreamEntry<C> {
    pub channel: C,
    pub cancel: bool,
}

/// The open streams, each under its handle.
pub struct StreamRegistry<C> {
    entries: HashMap<u64, StreamEntry<C>>,
}

impl<C> View for StreamRegistry<C> {
    type V = Map<u64, StreamEntry<C>>;

    closed spec fn view(&self) -> Map<u64, StreamEntry<C>> {
        self.entries@
    }
}

/// No stream is open.
pub fn stream_registry<C>() -> (registry: StreamRegistry<C>)
    ensures
        registry@ == Map::<u64, StreamEntry<C>>::empty(),
{
    StreamRegistry { entries: HashMap::new() }
}

/// A stream that was just started.
pub open spec fn new_entry<C>(channel: C) -> StreamEntry<C> {
    StreamEntry { channel, cancel: false }
}

/// A stream that its caller has given up.
pub open spec fn given_up<C>(entry: StreamEntry<C>) -> StreamEntry<C> {
    StreamEntry { channel: entry.channel, cancel: true }
}

/// The streams after one was started, and what its caller gets. `writable`: whether the streams
/// can be had.
pub open spec fn started<C>(
    streams: Map<u64, StreamEntry<C>>,
    handle: u64,
    channel: C,
    writable: bool,
) -> (Map<u64, StreamEntry<C>>, u64) {
    if writable {
        (streams.insert(handle, new_entry(channel)), handle)
    } else {
        (streams, NO_STREAM)
    }
}

/// The streams after one was closed, and that stream, if it was open.
pub open spec fn closed<C>(streams: Map<u64, StreamEntry<C>>, handle: u64) -> (
    Map<u64, StreamEntry<C>>,
    Option<StreamEntry<C>>,
) {
    (
        streams.remove(handle),
        if streams.contains_key(handle) {
            Some(given_up(streams[handle]))
        } else {
            None
        },
    )
}

/// What a caller finds with a handle, where this is what the stream's own messages come to.
pub open spec fn polled<C>(
    streams: Map<u64, StreamEntry<C>>,
    handle: u64,
    received: PollEventView,
) -> PollEventView {
    if streams.contains_key(handle) {
        received
    } else {
        PollEventView::UnknownHandle
    }
}

/// Starts a stream under a new handle, where the streams can be had, and returns what its caller
/// gets.
pub fn start_stream<C>(registry: Option<&mut StreamRegistry<C>>, handle: u64, channel: C) -> (id:
    u64)
    ensures
        match registry {
            Some(streams) => (final(streams)@, id) == started(streams@, handle, channel, true),
            None => id == NO_STREAM,
        },
{
    match registry {
        Some(streams) => {
            streams.entries.insert(handle, StreamEntry { channel, cancel: false });
            handle
        },
        None => NO_STREAM,
    }
}

impl<C> StreamRegistry<C> {
    /// The stream with this handle, or that there is none.
    pub fn look_up(&self, handle: u64) -> (entry: Result<&StreamEntry<C>, PollEvent>)
        ensures
            match entry {
                Ok(found) => self@.contains_pair(handle, *found),
                Err(event) => !self@.contains_key(handle) && event@ is UnknownHandle,
            },
    {
        match self.entries.get(&handle) {
            Some(entry) => Ok(entry),
            None => Err(PollEvent::UnknownHandle),
        }
    }

    /// Closes the stream with this handle, if it is open, and hands it out as given up.
    pub fn close(&mut self, handle: u64) -> (entry: Option<StreamEntry<C>>)
        ensures
            (final(self)@, entry) == closed(old(self)@, handle),
    {
        match self.entries.remove(&handle) {
            Some(entry) => Some(StreamEntry { channel: entry.channel, cancel: true }),
            None => None,
        }
    }
}

/// The number after this one; after the largest comes 0.
pub open spec fn counted_on(counter: u64) -> u64 {
    if counter == u64::MAX {
        0
    } else {
        (counter + 1) as u64
    }
}

/// The handle for a new stream.
pub fn next_stream_id(counter: &mut u64) -> (id: u64)
    ensures
        id == *old(counter),
        *final(counter) == counted_on(*old(counter)),
{
    let id = *counter;
    *counter = if id == u64::MAX {
        0
    } else {
        id + 1
    };
    id
}

/// Where the rotation stands before any call has moved it: at the first key.
pub fn rotation_pointer() -> (pointer: usize)
    ensures
        pointer == 0,
{
    0
}

/// The handle that the stream after `n` others gets.
pub open spec fn stream_id(n: nat) -> u64
    decreases n,
{
    if n == 0 {
        FIRST_STREAM_ID
    } else {
        counted_on(stream_id((n - 1) as nat))
    }
}

/// The handles count up from 1, so that no two streams have the same one, and none has 0,
/// until they run out.
pub proof fn law_handles_count_up(n: nat)
    requires
        n < u64::MAX,
    ensures
        stream_id(n) == n + 1,
        counted_on(u64::MAX) == 0,
    decreases n,
{
    if n > 0 {
        law_handles_count_up((n - 1) as nat);
    }
}

/// The start of a stream after `n` others: it fails, which its caller sees by the 0, if and only
/// if the streams cannot be had, and then changes nothing. Else the handle is none of those that
/// were given out before, the stream is found under it and not given up, and every other one is
/// as it was.
pub proof fn law_started_stream_is_found<C>(
    streams: Map<u64, StreamEntry<C>>,
    n: nat,
    channel: C,
    writable: bool,
)
    requires
        n < u64::MAX,
    ensures
        ({
            let (after, id) = started(streams, stream_id(n), channel, writable);
            &&& id == 0 <==> !writable
            &&& !writable ==> after == streams
            &&& writable ==> {
                &&& forall|i: nat| i < n ==> id != #[trigger] stream_id(i)
                &&& id == stream_id(n)
                &&& after.contains_key(id)
                &&& after[id].channel == channel
                &&& !after[id].cancel
                &&& forall|other: u64| other != id ==> #[trigger] after.get(other) == streams.get(
                    other,
                )
            }
        }),
{
    law_handles_count_up(n);
    assert forall|i: nat| i < n implies stream_id(n) != #[trigger] stream_id(i) by {
        law_handles_count_up(i);
    }
}

/// Closing a stream, whether it is open, closed already or was never started: afterwards it is
/// not open, and was given up if it had been; every other one is as it was. Closing it again
/// changes nothing, and whoever asks it for a message is told that the handle is not known.
pub proof fn law_closed_stream_is_unknown<C>(
    streams: Map<u64, StreamEntry<C>>,
    handle: u64,
    received: PollEventView,
)
    ensures
        ({
            let (after, entry) = closed(streams, handle);
            &&& !after.contains_key(handle)
            &&& entry is Some <==> streams.contains_key(handle)
            &&& entry matches Some(stream) ==> stream.cancel && stream.channel
                == streams[handle].channel
            &&& forall|other: u64| other != handle ==> #[trigger] after.get(other) == streams.get(
                other,
            )
            &&& closed(after, handle) == (after, None::<StreamEntry<C>>)
            &&& poll_tree(polled(after, handle, received)) == message_tree(
                keyless_message("UNKNOWN_HANDLE"@, "stream handle not found (already closed?)"@),
            )
        }),
{
    assert(streams.remove(handle).remove(handle) =~= streams.remove(handle));
}

/// As long as a stream is not closed, whatever other streams are started and closed, its caller
/// finds what its messages come to.
pub proof fn law_open_stream_stays<C>(
    streams: Map<u64, StreamEntry<C>>,
    handle: u64,
    other: u64,
    channel: C,
    received: PollEventView,
)
    requires
        streams.contains_key(handle),
        other != handle,
    ensures
        polled(streams, handle, received) == received,
        closed(streams, other).0.contains_pair(handle, streams[handle]),
        started(streams, other, channel, true).0.contains_pair(handle, streams[handle]),
{
}

/// A caller finds what the messages of an open stream come to, whatever that is, and of any other
/// handle that it is not known.
pub proof fn law_only_open_streams_are_heard<C>(
    streams: Map<u64, StreamEntry<C>>,
    handle: u64,
    received: PollEventView,
)
    ensures
        streams.contains_key(handle) ==> polled(streams, handle, received) == received,
        !streams.contains_key(handle) ==> polled(streams, handle, received)
            == PollEventView::UnknownHandle,
{
}

} // verus!
