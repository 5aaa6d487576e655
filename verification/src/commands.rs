//! The command layer: everything the front end can invoke.
//!
//! Counter commands mutate the store and hand back, in one bundle, the new
//! count, the derived surface text, and the change notification for the
//! front-end channel; the hosting process pushes the text to each surface
//! and publishes the notification, both outside the store's critical
//! section. Codec commands construct and parse messages carried as base64
//! text, with a string error naming which of the two layers rejected the
//! input.

use vstd::prelude::*;
use vstd::string::StringExecFns;

use crate::codec::{
    event_valid, message_valid, spec_decode_event, spec_decode_message, spec_encode_event,
    spec_encode_message, EventCommon, EventCommonV, MessageSend, MessageSendV,
};
use crate::counter::{spec_increment, UnreadCount};
use crate::surface::{surface_text, surface_text_for, SurfaceText};
use crate::transport::{b64_decode, b64_encode, b64_of};

verus! {

/// A best-effort change notification for the front end: the fixed channel
/// name and the new count as payload. Delivery failure is the publisher's
/// concern, never the caller's.
pub struct Notification {
    pub channel: String,
    pub payload: u32,
}

/// True when the notification carries `count` on the unread-count channel.
pub open spec fn notification_for(n: &Notification, count: u32) -> bool {
    &&& n.channel@ == "unread-count-changed"@
    &&& n.payload == count
}

/// Builds the change notification for a count.
pub fn unread_changed_notification(count: u32) -> (r: Notification)
    ensures
        notification_for(&r, count),
{
    Notification { channel: String::from_str("unread-count-changed"), payload: count }
}

/// Everything a successful counter mutation hands back: the new count, the
/// surface text derived from it, and the notification to publish.
pub struct CountUpdate {
    pub count: u32,
    pub surfaces: SurfaceText,
    pub notification: Notification,
}

/// True when the bundle is consistent: it reports `count` and carries the
/// text and notification derived from it.
pub open spec fn count_update_for(u: &CountUpdate, count: u32) -> bool {
    &&& u.count == count
    &&& surface_text_for(&u.surfaces, count)
    &&& notification_for(&u.notification, count)
}

/// Builds the full update bundle for a count.
fn count_update(count: u32) -> (r: CountUpdate)
    ensures
        count_update_for(&r, count),
{
    CountUpdate {
        count,
        surfaces: surface_text(count),
        notification: unread_changed_notification(count),
    }
}

/// Adds one to the unread count (saturating at the maximum) and returns the
/// new count with the surface text and notification derived from it.
pub fn increment_unread(counter: &mut UnreadCount) -> (r: CountUpdate)
    ensures
        final(counter).spec_count() == spec_increment(old(counter).spec_count()),
        count_update_for(&r, final(counter).spec_count()),
{
    let new_count = counter.increment();
    count_update(new_count)
}

/// Reads the current unread count.
pub fn get_unread_count(counter: &UnreadCount) -> (r: u32)
    ensures
        r == counter.spec_count(),
{
    counter.get()
}

/// Resets the unread count to zero and returns zero with the surface text
/// and notification derived from it.
pub fn clear_unread(counter: &mut UnreadCount) -> (r: CountUpdate)
    ensures
        final(counter).spec_count() == 0,
        count_update_for(&r, 0),
{
    let new_count = counter.clear();
    count_update(new_count)
}

/// Builds an event envelope and encodes it as base64 text.
pub fn create_event_message(event_type: i32, data: String) -> (r: Result<String, String>)
    ensures
        r is Ok,
        r matches Ok(s) ==> s@ == b64_of(
            spec_encode_event(EventCommonV { event_type: event_type as int, data: data@ }),
        ),
{
    let event = EventCommon { event_type, data };
    let bytes = event.to_bytes();
    Ok(b64_encode(bytes.as_slice()))
}

/// True when `s` begins with the prefix `p`.
pub open spec fn text_starts_with(s: Seq<char>, p: Seq<char>) -> bool {
    s.len() >= p.len() && s.subrange(0, p.len() as int) == p
}

/// Parses base64 text back into an event envelope. Succeeds exactly on the
/// base64 encoding of a well-formed event — and then on the one event whose
/// encoding the text carries, so parsing inverts [`create_event_message`].
/// The error's prefix says whether the base64 layer or the message schema
/// rejected the input; the underlying detail follows it.
pub fn parse_event_message(data: String) -> (r: Result<EventCommon, String>)
    ensures
        r matches Ok(m) ==> data@ == b64_of(spec_encode_event(m@)),
        r matches Ok(m) ==> forall|v: EventCommonV|
            event_valid(v) && data@ == b64_of(#[trigger] spec_encode_event(v)) ==> v == m@,
        r is Ok <==> exists|b: Seq<u8>|
            data@ == b64_of(b) && #[trigger] spec_decode_event(b) is Some,
        !(exists|b: Seq<u8>| #[trigger] b64_of(b) == data@) ==> (r matches Err(e)
            && text_starts_with(e@, "Base64 decode error: "@)),
        (exists|b: Seq<u8>| #[trigger] b64_of(b) == data@ && spec_decode_event(b) is None) ==> (
        r matches Err(e) && text_starts_with(e@, "Protobuf decode error: "@)),
{
    let bytes = match b64_decode(data.as_str()) {
        Ok(v) => v,
        Err(detail) => {
            let mut e = String::from_str("Base64 decode error: ");
            e.append(detail.as_str());
            proof {
                assert(e@.subrange(0, "Base64 decode error: "@.len() as int) =~= "Base64 decode error: "@);
            }
            return Err(e);
        },
    };
    match EventCommon::from_bytes(bytes.as_slice()) {
        Ok(m) => {
            proof {
                assert forall|v: EventCommonV|
                    event_valid(v) && data@ == b64_of(#[trigger] spec_encode_event(v)) implies v
                    == m@ by {
                    crate::codec::lemma_event_round_trip(v);
                    crate::codec::lemma_event_round_trip(m@);
                };
            }
            Ok(m)
        },
        Err(err) => {
            let detail = err.describe();
            let mut e = String::from_str("Protobuf decode error: ");
            e.append(detail.as_str());
            proof {
                assert(e@.subrange(0, "Protobuf decode error: "@.len() as int) =~= "Protobuf decode error: "@);
                assert(forall|b: Seq<u8>| #[trigger] b64_of(b) == data@ ==> b == bytes@);
            }
            Err(e)
        },
    }
}

/// The view of an optional metadata string: absent metadata defaults to the
/// empty string.
pub open spec fn opt_meta_view(meta: Option<String>) -> Seq<char> {
    match meta {
        Some(m) => m@,
        None => Seq::<char>::empty(),
    }
}

/// Builds an outbound chat message and encodes it as base64 text. Absent
/// metadata defaults to the empty string.
pub fn create_message_send(
    msg_type: i32,
    content: String,
    to_id: u64,
    is_room: bool,
    meta: Option<String>,
) -> (r: Result<String, String>)
    ensures
        r is Ok,
        r matches Ok(s) ==> s@ == b64_of(
            spec_encode_message(
                MessageSendV {
                    msg_type: msg_type as int,
                    content: content@,
                    to_id: to_id as nat,
                    is_room,
                    meta: opt_meta_view(meta),
                },
            ),
        ),
{
    let meta_s = match meta {
        Some(m) => m,
        None => String::new(),
    };
    let message = MessageSend { msg_type, content, to_id, is_room, meta: meta_s };
    let bytes = message.to_bytes();
    Ok(b64_encode(bytes.as_slice()))
}

/// Parses base64 text back into an outbound chat message. Succeeds exactly
/// on the base64 encoding of a well-formed message — and then on the one
/// message whose encoding the text carries, so parsing inverts
/// [`create_message_send`]. The error's prefix says whether the base64 layer
/// or the message schema rejected the input; the underlying detail follows
/// it.
pub fn parse_message_send(data: String) -> (r: Result<MessageSend, String>)
    ensures
        r matches Ok(m) ==> data@ == b64_of(spec_encode_message(m@)),
        r matches Ok(m) ==> forall|v: MessageSendV|
            message_valid(v) && data@ == b64_of(#[trigger] spec_encode_message(v)) ==> v == m@,
        r is Ok <==> exists|b: Seq<u8>|
            data@ == b64_of(b) && #[trigger] spec_decode_message(b) is Some,
        !(exists|b: Seq<u8>| #[trigger] b64_of(b) == data@) ==> (r matches Err(e)
            && text_starts_with(e@, "Base64 decode error: "@)),
        (exists|b: Seq<u8>| #[trigger] b64_of(b) == data@ && spec_decode_message(b) is None) ==> (
        r matches Err(e) && text_starts_with(e@, "Protobuf decode error: "@)),
{
    let bytes = match b64_decode(data.as_str()) {
        Ok(v) => v,
        Err(detail) => {
            let mut e = String::from_str("Base64 decode error: ");
            e.append(detail.as_str());
            proof {
                assert(e@.subrange(0, "Base64 decode error: "@.len() as int) =~= "Base64 decode error: "@);
            }
            return Err(e);
        },
    };
    match MessageSend::from_bytes(bytes.as_slice()) {
        Ok(m) => {
            proof {
                assert forall|v: MessageSendV|
                    message_valid(v) && data@ == b64_of(#[trigger] spec_encode_message(v)) implies
                    v == m@ by {
                    crate::codec::lemma_message_round_trip(v);
                    crate::codec::lemma_message_round_trip(m@);
                };
            }
            Ok(m)
        },
        Err(err) => {
            let detail = err.describe();
            let mut e = String::from_str("Protobuf decode error: ");
            e.append(detail.as_str());
            proof {
                assert(e@.subrange(0, "Protobuf decode error: "@.len() as int) =~= "Protobuf decode error: "@);
                assert(forall|b: Seq<u8>| #[trigger] b64_of(b) == data@ ==> b == bytes@);
            }
            Err(e)
        },
    }
}

/// The greeting command: a fixed sentence around the caller's name.
pub fn greet(name: &str) -> (r: String)
    ensures
        r@ == "Hello, "@ + name@ + "! You've been greeted from Rust!"@,
{
    let mut s = String::from_str("Hello, ");
    s.append(name);
    s.append("! You've been greeted from Rust!");
    s
}

/// What the hosting process should do after one tray-menu choice.
pub enum MenuOutcome {
    /// Show the main window and give it focus.
    ShowWindow,
    /// The counter changed: push the bundled text and notification.
    Updated(CountUpdate),
    /// Exit the application.
    Quit,
    /// An identifier this menu does not know; do nothing.
    Ignored,
}

/// Decides one tray-menu event: the show item shows the window, the
/// increment and clear items mutate the counter and hand back the update
/// bundle, the quit item exits, and anything else is ignored.
pub fn handle_menu_choice(counter: &mut UnreadCount, id: &String) -> (r: MenuOutcome)
    ensures
        id@ == "show"@ ==> r is ShowWindow,
        id@ == "increment"@ ==> {
            &&& final(counter).spec_count() == spec_increment(old(counter).spec_count())
            &&& r matches MenuOutcome::Updated(u) && count_update_for(
                &u,
                final(counter).spec_count(),
            )
        },
        id@ == "clear"@ ==> {
            &&& final(counter).spec_count() == 0
            &&& r matches MenuOutcome::Updated(u) && count_update_for(&u, 0)
        },
        id@ == "quit"@ ==> r is Quit,
        id@ != "show"@ && id@ != "increment"@ && id@ != "clear"@ && id@ != "quit"@ ==> {
            &&& r is Ignored
            &&& final(counter).spec_count() == old(counter).spec_count()
        },
        id@ == "show"@ || id@ == "quit"@ ==> final(counter).spec_count() == old(
            counter,
        ).spec_count(),
{
    proof {
        reveal_strlit("show");
        reveal_strlit("increment");
        reveal_strlit("clear");
        reveal_strlit("quit");
        assert("show"@.len() == 4 && "increment"@.len() == 9 && "clear"@.len() == 5 && "quit"@.len()
            == 4);
        assert("show"@[0] == 's' && "quit"@[0] == 'q');
    }
    if *id == String::from_str("show") {
        MenuOutcome::ShowWindow
    } else if *id == String::from_str("increment") {
        MenuOutcome::Updated(increment_unread(counter))
    } else if *id == String::from_str("clear") {
        MenuOutcome::Updated(clear_unread(counter))
    } else if *id == String::from_str("quit") {
        MenuOutcome::Quit
    } else {
        MenuOutcome::Ignored
    }
}

} // verus!
