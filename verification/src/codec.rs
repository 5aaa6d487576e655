//! The message codec: three message shapes encoded on the wire format of
//! [`crate::wire`].
//!
//! A field holding its default value (zero, false, the empty string) is
//! omitted on encode, and a decoder finding a field's tag absent takes the
//! default — so every value has exactly one (canonical) encoding, and the
//! all-default message encodes to the empty byte run. The decoders accept
//! exactly the canonical encodings. The round trip (`lemma_event_round_trip`
//! and its siblings), decoder soundness (`lemma_event_decode_sound` and
//! siblings: a successful decode means the input is exactly the encoding of
//! the result, so corrupted input can never yield a wrong-but-valid
//! message), encoder injectivity, and the truncation property
//! (`lemma_event_truncated_decode_differs` and siblings: a proper prefix of
//! an encoding never decodes to the encoded message) are proved for every
//! valid message value.

use vstd::prelude::*;
use vstd::string::StringExecFns;
use vstd::utf8::{decode_utf8, encode_utf8, valid_utf8};

use crate::text::{dec_str, push_decimal};
use crate::wire::{
    opt_bytes_field, opt_varint_field, parse_opt_bytes_field, parse_opt_varint_field,
    push_opt_bytes_field, push_opt_varint_field, read_opt_bytes_field, read_opt_varint_field,
    tag_absent,
};

verus! {

broadcast use vstd::utf8::encode_utf8_valid_utf8, vstd::utf8::encode_utf8_decode_utf8;

/// The unsigned value that stands for the signed 32-bit integer `t` on the
/// wire: non-negative values stand for themselves, negative values are
/// carried as their 64-bit two's-complement image.
pub open spec fn s32_image(t: int) -> nat
    recommends
        i32::MIN <= t <= i32::MAX,
{
    if t >= 0 {
        t as nat
    } else {
        (t + 0x1_0000_0000_0000_0000) as nat
    }
}

/// True for exactly the values that are the wire image of some signed
/// 32-bit integer.
pub open spec fn is_s32_image(v: nat) -> bool {
    v < 0x8000_0000 || (0xFFFF_FFFF_8000_0000 <= v < 0x1_0000_0000_0000_0000)
}

/// The signed 32-bit integer whose wire image is `v`.
pub open spec fn s32_value(v: nat) -> int
    recommends
        is_s32_image(v),
{
    if v < 0x8000_0000 {
        v as int
    } else {
        v - 0x1_0000_0000_0000_0000
    }
}

/// Computes the wire image of a signed 32-bit integer.
fn s32_to_image(t: i32) -> (r: u64)
    ensures
        r as nat == s32_image(t as int),
        is_s32_image(r as nat),
        s32_value(r as nat) == t as int,
{
    if t >= 0 {
        t as u64
    } else {
        ((t as i64) + 0x1_0000_0000) as u64 + 0xFFFF_FFFF_0000_0000u64
    }
}

/// Recovers a signed 32-bit integer from its wire image, rejecting values
/// that are the image of none.
fn image_to_s32(v: u64) -> (r: Option<i32>)
    ensures
        r matches Some(t) ==> is_s32_image(v as nat) && t as int == s32_value(v as nat),
        r is None ==> !is_s32_image(v as nat),
{
    if v < 0x8000_0000 {
        Some(v as i32)
    } else if v >= 0xFFFF_FFFF_8000_0000 {
        Some((((v - 0xFFFF_FFFF_0000_0000) as i64) - 0x1_0000_0000) as i32)
    } else {
        None
    }
}

/// Relies on `String::from_utf8`: it returns the string whose character
/// sequence the bytes encode when they are valid UTF-8, and an error exactly
/// when they are not.
#[verifier::external_body]
fn string_from_utf8(bytes: Vec<u8>) -> (r: Option<String>)
    ensures
        r matches Some(s) ==> valid_utf8(bytes@) && s@ == decode_utf8(bytes@),
        r is None ==> !valid_utf8(bytes@),
{
    match String::from_utf8(bytes) {
        Ok(s) => Some(s),
        Err(_) => None,
    }
}

/// Why a decode failed, with the byte offset at which the decoder gave up.
#[derive(Debug, Clone, Copy, PartialEq, Eq, Structural)]
pub enum DecodeError {
    /// An integer field is malformed at the offset: the input ended early,
    /// or the value's encoding is non-minimal or too large.
    InvalidVarint { offset: usize },
    /// A byte-run field is malformed at the offset, or its length prefix
    /// runs past the end of the input.
    Truncated { offset: usize },
    /// An integer value lies outside the range its field allows.
    OutOfRange { offset: usize },
    /// A string field holds bytes that are not valid UTF-8.
    InvalidUtf8 { offset: usize },
    /// Well-formed fields were followed by leftover bytes.
    TrailingBytes { offset: usize },
}

/// The text of a decode error: what went wrong and the byte offset.
pub open spec fn spec_decode_error_text(e: DecodeError) -> Seq<char> {
    match e {
        DecodeError::InvalidVarint { offset } => "invalid integer field at offset "@ + dec_str(
            offset as nat,
        ),
        DecodeError::Truncated { offset } => "truncated byte run at offset "@ + dec_str(
            offset as nat,
        ),
        DecodeError::OutOfRange { offset } => "value out of range at offset "@ + dec_str(
            offset as nat,
        ),
        DecodeError::InvalidUtf8 { offset } => "invalid text bytes at offset "@ + dec_str(
            offset as nat,
        ),
        DecodeError::TrailingBytes { offset } => "unexpected trailing bytes at offset "@ + dec_str(
            offset as nat,
        ),
    }
}

impl DecodeError {
    /// Renders the error for diagnostics: what went wrong, and at which
    /// byte offset.
    pub fn describe(&self) -> (r: String)
        ensures
            r@ == spec_decode_error_text(*self),
    {
        match *self {
            DecodeError::InvalidVarint { offset } => {
                let mut s = String::from_str("invalid integer field at offset ");
                push_decimal(&mut s, offset as u64);
                s
            },
            DecodeError::Truncated { offset } => {
                let mut s = String::from_str("truncated byte run at offset ");
                push_decimal(&mut s, offset as u64);
                s
            },
            DecodeError::OutOfRange { offset } => {
                let mut s = String::from_str("value out of range at offset ");
                push_decimal(&mut s, offset as u64);
                s
            },
            DecodeError::InvalidUtf8 { offset } => {
                let mut s = String::from_str("invalid text bytes at offset ");
                push_decimal(&mut s, offset as u64);
                s
            },
            DecodeError::TrailingBytes { offset } => {
                let mut s = String::from_str("unexpected trailing bytes at offset ");
                push_decimal(&mut s, offset as u64);
                s
            },
        }
    }
}

/// A generic event envelope: a type discriminant and an opaque payload
/// string that the codec does not interpret.
#[derive(Debug, Clone)]
pub struct EventCommon {
    pub event_type: i32,
    pub data: String,
}

/// The mathematical value of an [`EventCommon`].
pub ghost struct EventCommonV {
    pub event_type: int,
    pub data: Seq<char>,
}

impl View for EventCommon {
    type V = EventCommonV;

    open spec fn view(&self) -> EventCommonV {
        EventCommonV { event_type: self.event_type as int, data: self.data@ }
    }
}

/// True when the value fits the schema: the type discriminant is a signed
/// 32-bit integer. Every in-memory [`EventCommon`] satisfies it.
pub open spec fn event_valid(v: EventCommonV) -> bool {
    i32::MIN <= v.event_type <= i32::MAX
}

/// The encoding of an event: the type in field 1, the payload in field 2,
/// each omitted when it holds its default.
pub open spec fn spec_encode_event(v: EventCommonV) -> Seq<u8> {
    opt_varint_field(0x08, s32_image(v.event_type)) + opt_bytes_field(0x12, encode_utf8(v.data))
}

/// The decoding of an event: both fields in order, each omittable, a type
/// value in range, payload bytes that are valid UTF-8, and nothing after
/// them.
pub open spec fn spec_decode_event(s: Seq<u8>) -> Option<EventCommonV> {
    match parse_opt_varint_field(s, 0x08) {
        Some((tv, s1)) => if is_s32_image(tv) {
            match parse_opt_bytes_field(s1, 0x12) {
                Some((d, s2)) => if s2.len() == 0 && valid_utf8(d) {
                    Some(EventCommonV { event_type: s32_value(tv), data: decode_utf8(d) })
                } else {
                    None
                },
                None => None,
            }
        } else {
            None
        },
        None => None,
    }
}

/// Round trip: decoding the encoding of any valid event value yields back
/// exactly that value.
pub proof fn lemma_event_round_trip(v: EventCommonV)
    requires
        event_valid(v),
    ensures
        spec_decode_event(spec_encode_event(v)) == Some(v),
{
    let img = s32_image(v.event_type);
    let db = encode_utf8(v.data);
    let f2 = opt_bytes_field(0x12, db);
    let s = spec_encode_event(v);
    crate::wire::lemma_opt_bytes_field_keeps_tag_absent(0x08, 0x12, db, Seq::<u8>::empty());
    assert(f2 =~= opt_bytes_field(0x12, db) + Seq::<u8>::empty());
    crate::wire::lemma_parse_opt_varint_field_complete(0x08, img, f2);
    assert(s =~= opt_varint_field(0x08, img) + f2);
    crate::wire::lemma_parse_opt_bytes_field_complete(0x12, db, Seq::<u8>::empty());
    assert(is_s32_image(img) && s32_value(img) == v.event_type);
}

/// Soundness: a successful decode means the input is exactly the canonical
/// encoding of the value returned, so no corrupted input decodes to a wrong
/// value.
pub proof fn lemma_event_decode_sound(s: Seq<u8>)
    ensures
        spec_decode_event(s) matches Some(v) ==> {
            &&& event_valid(v)
            &&& s == spec_encode_event(v)
        },
{
    match spec_decode_event(s) {
        Some(v) => {
            crate::wire::lemma_parse_opt_varint_field_sound(s, 0x08);
            let (tv, s1) = parse_opt_varint_field(s, 0x08).unwrap();
            crate::wire::lemma_parse_opt_bytes_field_sound(s1, 0x12);
            let (d, s2) = parse_opt_bytes_field(s1, 0x12).unwrap();
            vstd::utf8::decode_utf8_encode_utf8(d);
            assert(s32_image(s32_value(tv)) == tv);
            assert(s2 =~= Seq::<u8>::empty());
            assert(s1 =~= opt_bytes_field(0x12, d));
            assert(s =~= opt_varint_field(0x08, tv) + s1);
        },
        None => {},
    }
}

/// Injectivity: two valid event values with the same encoding are the same
/// value, so a decoded message determines its input bytes outright.
pub proof fn lemma_event_encode_injective(v1: EventCommonV, v2: EventCommonV)
    requires
        event_valid(v1),
        event_valid(v2),
        spec_encode_event(v1) == spec_encode_event(v2),
    ensures
        v1 == v2,
{
    lemma_event_round_trip(v1);
    lemma_event_round_trip(v2);
}

/// Truncation never passes for the original: a proper prefix of an encoding
/// either fails to decode or decodes to a shorter message whose own exact
/// encoding the prefix is — never to the encoded message itself. (A prefix
/// that ends on a field boundary is itself a canonical encoding, since
/// fields holding their defaults are omitted.)
pub proof fn lemma_event_truncated_decode_differs(v: EventCommonV, k: int)
    requires
        event_valid(v),
        0 <= k < spec_encode_event(v).len(),
    ensures
        spec_decode_event(spec_encode_event(v).take(k)) matches Some(v2) ==> v2 != v,
{
    let s = spec_encode_event(v);
    let p = s.take(k);
    lemma_event_decode_sound(p);
    match spec_decode_event(p) {
        Some(v2) => {
            if v2 == v {
                assert(p.len() == s.len());
            }
        },
        None => {},
    }
}

impl EventCommon {
    /// Encodes the event: field 1 carries the type, field 2 the payload,
    /// each omitted when it holds its default value.
    pub fn to_bytes(&self) -> (r: Vec<u8>)
        ensures
            r@ == spec_encode_event(self@),
    {
        let mut out: Vec<u8> = Vec::new();
        push_opt_varint_field(&mut out, 0x08, s32_to_image(self.event_type));
        push_opt_bytes_field(&mut out, 0x12, self.data.as_str().as_bytes());
        assert(out@ =~= spec_encode_event(self@));
        out
    }

    /// Decodes an event, accepting exactly the byte sequences that
    /// [`Self::to_bytes`] produces — an absent field yields its default —
    /// and reporting where anything else goes wrong.
    pub fn from_bytes(data: &[u8]) -> (r: Result<EventCommon, DecodeError>)
        ensures
            r matches Ok(m) ==> spec_decode_event(data@) == Some(m@) && data@ == spec_encode_event(
                m@,
            ),
            r is Err <==> spec_decode_event(data@) is None,
    {
        proof {
            assert(data@.skip(0) =~= data@);
        }
        let (tv, i1) = match read_opt_varint_field(data, 0, 0x08) {
            Some(p) => p,
            None => {
                return Err(DecodeError::InvalidVarint { offset: 0 });
            },
        };
        let t = match image_to_s32(tv) {
            Some(t) => t,
            None => {
                return Err(DecodeError::OutOfRange { offset: 0 });
            },
        };
        let (d, i2) = match read_opt_bytes_field(data, i1, 0x12) {
            Some(p) => p,
            None => {
                return Err(DecodeError::Truncated { offset: i1 });
            },
        };
        if i2 != data.len() {
            return Err(DecodeError::TrailingBytes { offset: i2 });
        }
        assert(data@.skip(i2 as int).len() == 0);
        let s = match string_from_utf8(d) {
            Some(s) => s,
            None => {
                return Err(DecodeError::InvalidUtf8 { offset: i1 });
            },
        };
        let m = EventCommon { event_type: t, data: s };
        proof {
            lemma_event_decode_sound(data@);
        }
        Ok(m)
    }
}

/// An outbound chat message: type, body, addressee, room flag, and metadata.
/// `meta` defaults to the empty string where the sender supplies none.
#[derive(Debug, Clone)]
pub struct MessageSend {
    pub msg_type: i32,
    pub content: String,
    pub to_id: u64,
    pub is_room: bool,
    pub meta: String,
}

/// The mathematical value of a [`MessageSend`].
pub ghost struct MessageSendV {
    pub msg_type: int,
    pub content: Seq<char>,
    pub to_id: nat,
    pub is_room: bool,
    pub meta: Seq<char>,
}

impl View for MessageSend {
    type V = MessageSendV;

    open spec fn view(&self) -> MessageSendV {
        MessageSendV {
            msg_type: self.msg_type as int,
            content: self.content@,
            to_id: self.to_id as nat,
            is_room: self.is_room,
            meta: self.meta@,
        }
    }
}

/// True when the value fits the schema: a signed 32-bit type and an unsigned
/// 64-bit addressee. Every in-memory [`MessageSend`] satisfies it.
pub open spec fn message_valid(v: MessageSendV) -> bool {
    &&& i32::MIN <= v.msg_type <= i32::MAX
    &&& v.to_id <= u64::MAX
}

/// The wire value of a boolean field: one for true, zero for false.
pub open spec fn bool_image(b: bool) -> nat {
    if b {
        1
    } else {
        0
    }
}

/// The encoding of an outbound message: its five fields in field order, each
/// omitted when it holds its default value.
pub open spec fn spec_encode_message(v: MessageSendV) -> Seq<u8> {
    opt_varint_field(0x08, s32_image(v.msg_type)) + opt_bytes_field(0x12, encode_utf8(v.content))
        + opt_varint_field(0x18, v.to_id) + opt_varint_field(0x20, bool_image(v.is_room))
        + opt_bytes_field(0x2a, encode_utf8(v.meta))
}

/// The decoding of an outbound message: all five fields in order, each
/// omittable, each value in its field's range, string bytes valid UTF-8,
/// nothing after them.
pub open spec fn spec_decode_message(s: Seq<u8>) -> Option<MessageSendV> {
    match parse_opt_varint_field(s, 0x08) {
        Some((tv, s1)) => if is_s32_image(tv) {
            match parse_opt_bytes_field(s1, 0x12) {
                Some((c, s2)) => if valid_utf8(c) {
                    match parse_opt_varint_field(s2, 0x18) {
                        Some((to, s3)) => if to <= u64::MAX {
                            match parse_opt_varint_field(s3, 0x20) {
                                Some((room, s4)) => if room <= 1 {
                                    match parse_opt_bytes_field(s4, 0x2a) {
                                        Some((m, s5)) => if s5.len() == 0 && valid_utf8(m) {
                                            Some(
                                                MessageSendV {
                                                    msg_type: s32_value(tv),
                                                    content: decode_utf8(c),
                                                    to_id: to,
                                                    is_room: room == 1,
                                                    meta: decode_utf8(m),
                                                },
                                            )
                                        } else {
                                            None
                                        },
                                        None => None,
                                    }
                                } else {
                                    None
                                },
                                None => None,
                            }
                        } else {
                            None
                        },
                        None => None,
                    }
                } else {
                    None
                },
                None => None,
            }
        } else {
            None
        },
        None => None,
    }
}

/// Round trip: decoding the encoding of any valid outbound-message value
/// yields back exactly that value.
#[verifier::rlimit(60)]
pub proof fn lemma_message_round_trip(v: MessageSendV)
    requires
        message_valid(v),
    ensures
        spec_decode_message(spec_encode_message(v)) == Some(v),
{
    let img = s32_image(v.msg_type);
    let cb = encode_utf8(v.content);
    let mb = encode_utf8(v.meta);
    let room = bool_image(v.is_room);
    let empty = Seq::<u8>::empty();
    let t5 = opt_bytes_field(0x2a, mb);
    let t4 = opt_varint_field(0x20, room) + t5;
    let t3 = opt_varint_field(0x18, v.to_id) + t4;
    let t2 = opt_bytes_field(0x12, cb) + t3;
    let s = spec_encode_message(v);
    assert(s =~= opt_varint_field(0x08, img) + t2);
    assert(t5 =~= opt_bytes_field(0x2a, mb) + empty);

    crate::wire::lemma_opt_bytes_field_keeps_tag_absent(0x20, 0x2a, mb, empty);
    crate::wire::lemma_parse_opt_varint_field_complete(0x20, room, t5);

    crate::wire::lemma_opt_bytes_field_keeps_tag_absent(0x18, 0x2a, mb, empty);
    crate::wire::lemma_opt_varint_field_keeps_tag_absent(0x18, 0x20, room, t5);
    crate::wire::lemma_parse_opt_varint_field_complete(0x18, v.to_id, t4);

    crate::wire::lemma_opt_bytes_field_keeps_tag_absent(0x12, 0x2a, mb, empty);
    crate::wire::lemma_opt_varint_field_keeps_tag_absent(0x12, 0x20, room, t5);
    crate::wire::lemma_opt_varint_field_keeps_tag_absent(0x12, 0x18, v.to_id, t4);
    crate::wire::lemma_parse_opt_bytes_field_complete(0x12, cb, t3);

    crate::wire::lemma_opt_bytes_field_keeps_tag_absent(0x08, 0x2a, mb, empty);
    crate::wire::lemma_opt_varint_field_keeps_tag_absent(0x08, 0x20, room, t5);
    crate::wire::lemma_opt_varint_field_keeps_tag_absent(0x08, 0x18, v.to_id, t4);
    crate::wire::lemma_opt_bytes_field_keeps_tag_absent(0x08, 0x12, cb, t3);
    crate::wire::lemma_parse_opt_varint_field_complete(0x08, img, t2);

    crate::wire::lemma_parse_opt_bytes_field_complete(0x2a, mb, empty);
    assert(is_s32_image(img) && s32_value(img) == v.msg_type);
    assert((room == 1) == v.is_room);
}

/// Soundness: a successful decode means the input is exactly the canonical
/// encoding of the value returned, so no corrupted input decodes to a wrong
/// value.
#[verifier::rlimit(60)]
pub proof fn lemma_message_decode_sound(s: Seq<u8>)
    ensures
        spec_decode_message(s) matches Some(v) ==> {
            &&& message_valid(v)
            &&& s == spec_encode_message(v)
        },
{
    match spec_decode_message(s) {
        Some(v) => {
            crate::wire::lemma_parse_opt_varint_field_sound(s, 0x08);
            let (tv, s1) = parse_opt_varint_field(s, 0x08).unwrap();
            crate::wire::lemma_parse_opt_bytes_field_sound(s1, 0x12);
            let (c, s2) = parse_opt_bytes_field(s1, 0x12).unwrap();
            crate::wire::lemma_parse_opt_varint_field_sound(s2, 0x18);
            let (to, s3) = parse_opt_varint_field(s2, 0x18).unwrap();
            crate::wire::lemma_parse_opt_varint_field_sound(s3, 0x20);
            let (room, s4) = parse_opt_varint_field(s3, 0x20).unwrap();
            crate::wire::lemma_parse_opt_bytes_field_sound(s4, 0x2a);
            let (m, s5) = parse_opt_bytes_field(s4, 0x2a).unwrap();
            vstd::utf8::decode_utf8_encode_utf8(c);
            vstd::utf8::decode_utf8_encode_utf8(m);
            assert(s32_image(s32_value(tv)) == tv);
            assert(bool_image(room == 1) == room);
            assert(s5 =~= Seq::<u8>::empty());
            assert(s4 =~= opt_bytes_field(0x2a, m));
            assert(s =~= spec_encode_message(v));
        },
        None => {},
    }
}

/// Injectivity: two valid outbound-message values with the same encoding are
/// the same value.
pub proof fn lemma_message_encode_injective(v1: MessageSendV, v2: MessageSendV)
    requires
        message_valid(v1),
        message_valid(v2),
        spec_encode_message(v1) == spec_encode_message(v2),
    ensures
        v1 == v2,
{
    lemma_message_round_trip(v1);
    lemma_message_round_trip(v2);
}

/// Truncation never passes for the original: a proper prefix of an encoding
/// either fails to decode or decodes to a shorter message whose own exact
/// encoding the prefix is — never to the encoded message itself.
pub proof fn lemma_message_truncated_decode_differs(v: MessageSendV, k: int)
    requires
        message_valid(v),
        0 <= k < spec_encode_message(v).len(),
    ensures
        spec_decode_message(spec_encode_message(v).take(k)) matches Some(v2) ==> v2 != v,
{
    let s = spec_encode_message(v);
    let p = s.take(k);
    lemma_message_decode_sound(p);
    match spec_decode_message(p) {
        Some(v2) => {
            if v2 == v {
                assert(p.len() == s.len());
            }
        },
        None => {},
    }
}

impl MessageSend {
    /// Encodes the message: its five fields in field order, each omitted
    /// when it holds its default value.
    pub fn to_bytes(&self) -> (r: Vec<u8>)
        ensures
            r@ == spec_encode_message(self@),
    {
        let mut out: Vec<u8> = Vec::new();
        push_opt_varint_field(&mut out, 0x08, s32_to_image(self.msg_type));
        push_opt_bytes_field(&mut out, 0x12, self.content.as_str().as_bytes());
        push_opt_varint_field(&mut out, 0x18, self.to_id);
        push_opt_varint_field(&mut out, 0x20, if self.is_room { 1 } else { 0 });
        push_opt_bytes_field(&mut out, 0x2a, self.meta.as_str().as_bytes());
        assert(out@ =~= spec_encode_message(self@));
        out
    }

    /// Decodes an outbound message, accepting exactly the byte sequences
    /// that [`Self::to_bytes`] produces — an absent field yields its default
    /// — and reporting where anything else goes wrong.
    pub fn from_bytes(data: &[u8]) -> (r: Result<MessageSend, DecodeError>)
        ensures
            r matches Ok(m) ==> spec_decode_message(data@) == Some(m@) && data@
                == spec_encode_message(m@),
            r is Err <==> spec_decode_message(data@) is None,
    {
        proof {
            assert(data@.skip(0) =~= data@);
        }
        let (tv, i1) = match read_opt_varint_field(data, 0, 0x08) {
            Some(p) => p,
            None => {
                return Err(DecodeError::InvalidVarint { offset: 0 });
            },
        };
        let t = match image_to_s32(tv) {
            Some(t) => t,
            None => {
                return Err(DecodeError::OutOfRange { offset: 0 });
            },
        };
        let (c, i2) = match read_opt_bytes_field(data, i1, 0x12) {
            Some(p) => p,
            None => {
                return Err(DecodeError::Truncated { offset: i1 });
            },
        };
        let (to_id, i3) = match read_opt_varint_field(data, i2, 0x18) {
            Some(p) => p,
            None => {
                return Err(DecodeError::InvalidVarint { offset: i2 });
            },
        };
        let (room, i4) = match read_opt_varint_field(data, i3, 0x20) {
            Some(p) => p,
            None => {
                return Err(DecodeError::InvalidVarint { offset: i3 });
            },
        };
        if room > 1 {
            return Err(DecodeError::OutOfRange { offset: i3 });
        }
        let (m, i5) = match read_opt_bytes_field(data, i4, 0x2a) {
            Some(p) => p,
            None => {
                return Err(DecodeError::Truncated { offset: i4 });
            },
        };
        if i5 != data.len() {
            return Err(DecodeError::TrailingBytes { offset: i5 });
        }
        assert(data@.skip(i5 as int).len() == 0);
        let content = match string_from_utf8(c) {
            Some(s) => s,
            None => {
                return Err(DecodeError::InvalidUtf8 { offset: i1 });
            },
        };
        let meta = match string_from_utf8(m) {
            Some(s) => s,
            None => {
                return Err(DecodeError::InvalidUtf8 { offset: i4 });
            },
        };
        let msg = MessageSend { msg_type: t, content, to_id, is_room: room == 1, meta };
        proof {
            lemma_message_decode_sound(data@);
        }
        Ok(msg)
    }
}

/// The acknowledgement counterpart to [`MessageSend`]: the acknowledged
/// type, the message identifier, and whether the send succeeded.
#[derive(Debug, Clone, Copy, PartialEq, Eq, Structural)]
pub struct MessageSendAck {
    pub ack_type: i32,
    pub msg_id: u64,
    pub ok: bool,
}

/// The mathematical value of a [`MessageSendAck`].
pub ghost struct MessageSendAckV {
    pub ack_type: int,
    pub msg_id: nat,
    pub ok: bool,
}

impl View for MessageSendAck {
    type V = MessageSendAckV;

    open spec fn view(&self) -> MessageSendAckV {
        MessageSendAckV { ack_type: self.ack_type as int, msg_id: self.msg_id as nat, ok: self.ok }
    }
}

/// True when the value fits the schema: a signed 32-bit type and an unsigned
/// 64-bit identifier. Every in-memory [`MessageSendAck`] satisfies it.
pub open spec fn ack_valid(v: MessageSendAckV) -> bool {
    &&& i32::MIN <= v.ack_type <= i32::MAX
    &&& v.msg_id <= u64::MAX
}

/// The encoding of an acknowledgement: its three fields in field order, each
/// omitted when it holds its default value.
pub open spec fn spec_encode_ack(v: MessageSendAckV) -> Seq<u8> {
    opt_varint_field(0x08, s32_image(v.ack_type)) + opt_varint_field(0x10, v.msg_id)
        + opt_varint_field(0x18, bool_image(v.ok))
}

/// The decoding of an acknowledgement: all three fields in order, each
/// omittable, each value in its field's range, and nothing after them.
pub open spec fn spec_decode_ack(s: Seq<u8>) -> Option<MessageSendAckV> {
    match parse_opt_varint_field(s, 0x08) {
        Some((tv, s1)) => if is_s32_image(tv) {
            match parse_opt_varint_field(s1, 0x10) {
                Some((id, s2)) => if id <= u64::MAX {
                    match parse_opt_varint_field(s2, 0x18) {
                        Some((ok, s3)) => if ok <= 1 && s3.len() == 0 {
                            Some(
                                MessageSendAckV {
                                    ack_type: s32_value(tv),
                                    msg_id: id,
                                    ok: ok == 1,
                                },
                            )
                        } else {
                            None
                        },
                        None => None,
                    }
                } else {
                    None
                },
                None => None,
            }
        } else {
            None
        },
        None => None,
    }
}

/// Round trip: decoding the encoding of any valid acknowledgement value
/// yields back exactly that value.
pub proof fn lemma_ack_round_trip(v: MessageSendAckV)
    requires
        ack_valid(v),
    ensures
        spec_decode_ack(spec_encode_ack(v)) == Some(v),
{
    let img = s32_image(v.ack_type);
    let ok = bool_image(v.ok);
    let empty = Seq::<u8>::empty();
    let t3 = opt_varint_field(0x18, ok);
    let t2 = opt_varint_field(0x10, v.msg_id) + t3;
    let s = spec_encode_ack(v);
    assert(s =~= opt_varint_field(0x08, img) + t2);
    assert(t3 =~= opt_varint_field(0x18, ok) + empty);

    crate::wire::lemma_opt_varint_field_keeps_tag_absent(0x10, 0x18, ok, empty);
    crate::wire::lemma_parse_opt_varint_field_complete(0x10, v.msg_id, t3);

    crate::wire::lemma_opt_varint_field_keeps_tag_absent(0x08, 0x18, ok, empty);
    crate::wire::lemma_opt_varint_field_keeps_tag_absent(0x08, 0x10, v.msg_id, t3);
    crate::wire::lemma_parse_opt_varint_field_complete(0x08, img, t2);

    crate::wire::lemma_parse_opt_varint_field_complete(0x18, ok, empty);
    assert(is_s32_image(img) && s32_value(img) == v.ack_type);
    assert((ok == 1) == v.ok);
}

/// Soundness: a successful decode means the input is exactly the canonical
/// encoding of the value returned, so no corrupted input decodes to a wrong
/// value.
pub proof fn lemma_ack_decode_sound(s: Seq<u8>)
    ensures
        spec_decode_ack(s) matches Some(v) ==> {
            &&& ack_valid(v)
            &&& s == spec_encode_ack(v)
        },
{
    match spec_decode_ack(s) {
        Some(v) => {
            crate::wire::lemma_parse_opt_varint_field_sound(s, 0x08);
            let (tv, s1) = parse_opt_varint_field(s, 0x08).unwrap();
            crate::wire::lemma_parse_opt_varint_field_sound(s1, 0x10);
            let (id, s2) = parse_opt_varint_field(s1, 0x10).unwrap();
            crate::wire::lemma_parse_opt_varint_field_sound(s2, 0x18);
            let (ok, s3) = parse_opt_varint_field(s2, 0x18).unwrap();
            assert(s32_image(s32_value(tv)) == tv);
            assert(bool_image(ok == 1) == ok);
            assert(s3 =~= Seq::<u8>::empty());
            assert(s2 =~= opt_varint_field(0x18, ok));
            assert(s =~= spec_encode_ack(v));
        },
        None => {},
    }
}

/// Injectivity: two valid acknowledgement values with the same encoding are
/// the same value.
pub proof fn lemma_ack_encode_injective(v1: MessageSendAckV, v2: MessageSendAckV)
    requires
        ack_valid(v1),
        ack_valid(v2),
        spec_encode_ack(v1) == spec_encode_ack(v2),
    ensures
        v1 == v2,
{
    lemma_ack_round_trip(v1);
    lemma_ack_round_trip(v2);
}

/// Truncation never passes for the original: a proper prefix of an encoding
/// either fails to decode or decodes to a shorter message whose own exact
/// encoding the prefix is — never to the encoded message itself.
pub proof fn lemma_ack_truncated_decode_differs(v: MessageSendAckV, k: int)
    requires
        ack_valid(v),
        0 <= k < spec_encode_ack(v).len(),
    ensures
        spec_decode_ack(spec_encode_ack(v).take(k)) matches Some(v2) ==> v2 != v,
{
    let s = spec_encode_ack(v);
    let p = s.take(k);
    lemma_ack_decode_sound(p);
    match spec_decode_ack(p) {
        Some(v2) => {
            if v2 == v {
                assert(p.len() == s.len());
            }
        },
        None => {},
    }
}

impl MessageSendAck {
    /// Encodes the acknowledgement: its three fields in field order, each
    /// omitted when it holds its default value.
    pub fn to_bytes(&self) -> (r: Vec<u8>)
        ensures
            r@ == spec_encode_ack(self@),
    {
        let mut out: Vec<u8> = Vec::new();
        push_opt_varint_field(&mut out, 0x08, s32_to_image(self.ack_type));
        push_opt_varint_field(&mut out, 0x10, self.msg_id);
        push_opt_varint_field(&mut out, 0x18, if self.ok { 1 } else { 0 });
        assert(out@ =~= spec_encode_ack(self@));
        out
    }

    /// Decodes an acknowledgement, accepting exactly the byte sequences that
    /// [`Self::to_bytes`] produces — an absent field yields its default —
    /// and reporting where anything else goes wrong.
    pub fn from_bytes(data: &[u8]) -> (r: Result<MessageSendAck, DecodeError>)
        ensures
            r matches Ok(m) ==> spec_decode_ack(data@) == Some(m@) && data@ == spec_encode_ack(m@),
            r is Err <==> spec_decode_ack(data@) is None,
    {
        proof {
            assert(data@.skip(0) =~= data@);
        }
        let (tv, i1) = match read_opt_varint_field(data, 0, 0x08) {
            Some(p) => p,
            None => {
                return Err(DecodeError::InvalidVarint { offset: 0 });
            },
        };
        let t = match image_to_s32(tv) {
            Some(t) => t,
            None => {
                return Err(DecodeError::OutOfRange { offset: 0 });
            },
        };
        let (id, i2) = match read_opt_varint_field(data, i1, 0x10) {
            Some(p) => p,
            None => {
                return Err(DecodeError::InvalidVarint { offset: i1 });
            },
        };
        let (ok, i3) = match read_opt_varint_field(data, i2, 0x18) {
            Some(p) => p,
            None => {
                return Err(DecodeError::InvalidVarint { offset: i2 });
            },
        };
        if ok > 1 {
            return Err(DecodeError::OutOfRange { offset: i2 });
        }
        if i3 != data.len() {
            return Err(DecodeError::TrailingBytes { offset: i3 });
        }
        assert(data@.skip(i3 as int).len() == 0);
        let ack = MessageSendAck { ack_type: t, msg_id: id, ok: ok == 1 };
        proof {
            lemma_ack_decode_sound(data@);
        }
        Ok(ack)
    }
}

} // verus!
