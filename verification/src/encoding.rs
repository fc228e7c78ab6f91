//! How a control message is written down in bytes and read back: every
//! message is a sequence of numbered fields, a field that holds the default
//! of its type is left out, and a payload is a field of the enclosing
//! message that holds the payload's own bytes.

use crate::error::DecodeError;
use crate::proto::{
    AuthResult, AuthResultView, ClientAuth, ClientAuthView, ControlMessage, ControlMessageView,
    OpenTunnelRequest, OpenTunnelRequestView, Payload, PayloadView, TunnelOk, TunnelOkView,
};
use crate::text::{decode_text, utf8_text};
use crate::wire::{
    fields_bytes, fields_view, is_writable, lemma_fields_roundtrip, parse_fields, read_fields,
    write_bytes_field, write_varint_field, FieldValue, RawField, RawValue,
};
use vstd::prelude::*;
use vstd::utf8::{encode_utf8, encode_utf8_decode_utf8, encode_utf8_valid_utf8};

verus! {

/// The 64-bit number that stands on the wire for a 32-bit integer: the
/// integer itself, a negative one counted down from `2^64`.
pub open spec fn i32_to_wire(m: i32) -> u64 {
    if m >= 0 {
        m as u64
    } else {
        (m + 0x1_0000_0000_0000_0000) as u64
    }
}

/// The 32-bit integer that a 64-bit number on the wire stands for: its low
/// 32 bits, read as a signed number.
pub open spec fn wire_to_i32(v: u64) -> i32 {
    let low = v % 0x1_0000_0000;
    if low < 0x8000_0000 {
        low as i32
    } else {
        (low - 0x1_0000_0000) as i32
    }
}

/// A 32-bit integer is read back from the number that stands for it.
pub proof fn lemma_i32_roundtrip(m: i32)
    ensures
        wire_to_i32(i32_to_wire(m)) == m,
{
}

/// The number that stands on the wire for `m`.
pub fn encode_i32(m: i32) -> (v: u64)
    ensures
        v == i32_to_wire(m),
{
    if m >= 0 {
        m as u64
    } else {
        let magnitude: u64 = (-(m as i64)) as u64;
        u64::MAX - magnitude + 1
    }
}

/// The integer that `v` stands for on the wire.
pub fn decode_i32(v: u64) -> (m: i32)
    ensures
        m == wire_to_i32(v),
{
    let low: u64 = v % 0x1_0000_0000;
    if low < 0x8000_0000 {
        low as i32
    } else {
        (low as i64 - 0x1_0000_0000) as i32
    }
}

/// The text that a field value holds: the value must be a byte string, and
/// the bytes must be UTF-8.
pub open spec fn text_of(value: RawValue) -> Result<Seq<char>, DecodeError> {
    match value {
        RawValue::Bytes(b) => match utf8_text(b) {
            Some(s) => Ok(s),
            None => Err(DecodeError::InvalidUtf8),
        },
        _ => Err(DecodeError::WrongWireType),
    }
}

/// The number that a field value holds: the value must be an integer.
pub open spec fn number_of(value: RawValue) -> Result<u64, DecodeError> {
    match value {
        RawValue::Varint(v) => Ok(v),
        _ => Err(DecodeError::WrongWireType),
    }
}

/// The bytes that a field value holds: the value must be a byte string.
pub open spec fn bytes_of(value: RawValue) -> Result<Seq<u8>, DecodeError> {
    match value {
        RawValue::Bytes(b) => Ok(b),
        _ => Err(DecodeError::WrongWireType),
    }
}

/// Takes the fields in turn, each changing what the fields before it made;
/// the first field that cannot be taken ends it with its error.
pub open spec fn fold_fields<T>(
    fields: Seq<RawField>,
    acc: T,
    take: spec_fn(T, RawField) -> Result<T, DecodeError>,
) -> Result<T, DecodeError>
    decreases fields.len(),
{
    if fields.len() == 0 {
        Ok(acc)
    } else {
        match take(acc, fields[0]) {
            Ok(next) => fold_fields(fields.drop_first(), next, take),
            Err(e) => Err(e),
        }
    }
}

/// A field with a text in it.
pub open spec fn text_field(number: u64, text: Seq<char>) -> RawField {
    RawField { number, value: RawValue::Bytes(encode_utf8(text)) }
}

/// The field for a text, left out if the text is empty.
pub open spec fn text_fields(number: u64, text: Seq<char>) -> Seq<RawField> {
    if text.len() == 0 {
        Seq::empty()
    } else {
        seq![text_field(number, text)]
    }
}

/// The field for a number, left out if the number is zero.
pub open spec fn number_fields(number: u64, v: u64) -> Seq<RawField> {
    if v == 0 {
        Seq::empty()
    } else {
        seq![RawField { number, value: RawValue::Varint(v) }]
    }
}

/// The number that stands on the wire for a truth value.
pub open spec fn bool_to_wire(b: bool) -> u64 {
    if b {
        1
    } else {
        0
    }
}

impl ClientAuthView {
    /// A `ClientAuth` whose fields all hold their defaults.
    pub open spec fn empty() -> ClientAuthView {
        ClientAuthView { mode: 0, tunnel_token: Seq::empty() }
    }

    /// This value with the field `f` taken in: field 1 is the mode, field 2
    /// the token, any other field is passed over.
    pub open spec fn take(self, f: RawField) -> Result<ClientAuthView, DecodeError> {
        if f.number == 1 {
            match number_of(f.value) {
                Ok(v) => Ok(ClientAuthView { mode: wire_to_i32(v), ..self }),
                Err(e) => Err(e),
            }
        } else if f.number == 2 {
            match text_of(f.value) {
                Ok(s) => Ok(ClientAuthView { tunnel_token: s, ..self }),
                Err(e) => Err(e),
            }
        } else {
            Ok(self)
        }
    }

    /// The fields that write this value down.
    pub open spec fn fields(self) -> Seq<RawField> {
        number_fields(1, i32_to_wire(self.mode)) + text_fields(2, self.tunnel_token)
    }

    /// The bytes that write this value down.
    pub open spec fn bytes(self) -> Seq<u8> {
        fields_bytes(self.fields())
    }

    /// `take` as a function of two arguments.
    pub open spec fn taker() -> spec_fn(ClientAuthView, RawField) -> Result<ClientAuthView, DecodeError> {
        |acc: ClientAuthView, f: RawField| acc.take(f)
    }

    /// The value that `bytes` write down.
    pub open spec fn parse(bytes: Seq<u8>) -> Result<ClientAuthView, DecodeError> {
        match parse_fields(bytes) {
            Ok(fields) => fold_fields(
                fields,
                Self::empty(),
                Self::taker(),
            ),
            Err(e) => Err(e),
        }
    }

    /// Whether the texts of this value are short enough to be written down.
    pub open spec fn fits(self) -> bool {
        encode_utf8(self.tunnel_token).len() <= u64::MAX
    }
}

impl AuthResultView {
    /// An `AuthResult` whose fields all hold their defaults.
    pub open spec fn empty() -> AuthResultView {
        AuthResultView { success: false, message: Seq::empty(), tunnel_id: Seq::empty() }
    }

    /// This value with the field `f` taken in: field 1 is the success flag,
    /// field 2 the message, field 3 the tunnel id.
    pub open spec fn take(self, f: RawField) -> Result<AuthResultView, DecodeError> {
        if f.number == 1 {
            match number_of(f.value) {
                Ok(v) => Ok(AuthResultView { success: v != 0, ..self }),
                Err(e) => Err(e),
            }
        } else if f.number == 2 {
            match text_of(f.value) {
                Ok(s) => Ok(AuthResultView { message: s, ..self }),
                Err(e) => Err(e),
            }
        } else if f.number == 3 {
            match text_of(f.value) {
                Ok(s) => Ok(AuthResultView { tunnel_id: s, ..self }),
                Err(e) => Err(e),
            }
        } else {
            Ok(self)
        }
    }

    /// The fields that write this value down.
    pub open spec fn fields(self) -> Seq<RawField> {
        number_fields(1, bool_to_wire(self.success)) + text_fields(2, self.message) + text_fields(
            3,
            self.tunnel_id,
        )
    }

    /// The bytes that write this value down.
    pub open spec fn bytes(self) -> Seq<u8> {
        fields_bytes(self.fields())
    }

    /// `take` as a function of two arguments.
    pub open spec fn taker() -> spec_fn(AuthResultView, RawField) -> Result<AuthResultView, DecodeError> {
        |acc: AuthResultView, f: RawField| acc.take(f)
    }

    /// The value that `bytes` write down.
    pub open spec fn parse(bytes: Seq<u8>) -> Result<AuthResultView, DecodeError> {
        match parse_fields(bytes) {
            Ok(fields) => fold_fields(
                fields,
                Self::empty(),
                Self::taker(),
            ),
            Err(e) => Err(e),
        }
    }

    /// Whether the texts of this value are short enough to be written down.
    pub open spec fn fits(self) -> bool {
        encode_utf8(self.message).len() <= u64::MAX && encode_utf8(self.tunnel_id).len()
            <= u64::MAX
    }
}

impl OpenTunnelRequestView {
    /// An `OpenTunnelRequest` whose fields all hold their defaults.
    pub open spec fn empty() -> OpenTunnelRequestView {
        OpenTunnelRequestView { tunnel_id: Seq::empty(), connection_id: Seq::empty() }
    }

    /// This value with the field `f` taken in: field 1 is the tunnel id,
    /// field 2 the connection id.
    pub open spec fn take(self, f: RawField) -> Result<OpenTunnelRequestView, DecodeError> {
        if f.number == 1 {
            match text_of(f.value) {
                Ok(s) => Ok(OpenTunnelRequestView { tunnel_id: s, ..self }),
                Err(e) => Err(e),
            }
        } else if f.number == 2 {
            match text_of(f.value) {
                Ok(s) => Ok(OpenTunnelRequestView { connection_id: s, ..self }),
                Err(e) => Err(e),
            }
        } else {
            Ok(self)
        }
    }

    /// The fields that write this value down.
    pub open spec fn fields(self) -> Seq<RawField> {
        text_fields(1, self.tunnel_id) + text_fields(2, self.connection_id)
    }

    /// The bytes that write this value down.
    pub open spec fn bytes(self) -> Seq<u8> {
        fields_bytes(self.fields())
    }

    /// `take` as a function of two arguments.
    pub open spec fn taker() -> spec_fn(OpenTunnelRequestView, RawField) -> Result<OpenTunnelRequestView, DecodeError> {
        |acc: OpenTunnelRequestView, f: RawField| acc.take(f)
    }

    /// The value that `bytes` write down.
    pub open spec fn parse(bytes: Seq<u8>) -> Result<OpenTunnelRequestView, DecodeError> {
        match parse_fields(bytes) {
            Ok(fields) => fold_fields(
                fields,
                Self::empty(),
                Self::taker(),
            ),
            Err(e) => Err(e),
        }
    }

    /// Whether the texts of this value are short enough to be written down.
    pub open spec fn fits(self) -> bool {
        encode_utf8(self.tunnel_id).len() <= u64::MAX && encode_utf8(self.connection_id).len()
            <= u64::MAX
    }
}

impl TunnelOkView {
    /// A `TunnelOk` whose field holds its default.
    pub open spec fn empty() -> TunnelOkView {
        TunnelOkView { connection_id: Seq::empty() }
    }

    /// This value with the field `f` taken in: field 1 is the connection id.
    pub open spec fn take(self, f: RawField) -> Result<TunnelOkView, DecodeError> {
        if f.number == 1 {
            match text_of(f.value) {
                Ok(s) => Ok(TunnelOkView { connection_id: s }),
                Err(e) => Err(e),
            }
        } else {
            Ok(self)
        }
    }

    /// The fields that write this value down.
    pub open spec fn fields(self) -> Seq<RawField> {
        text_fields(1, self.connection_id)
    }

    /// The bytes that write this value down.
    pub open spec fn bytes(self) -> Seq<u8> {
        fields_bytes(self.fields())
    }

    /// `take` as a function of two arguments.
    pub open spec fn taker() -> spec_fn(TunnelOkView, RawField) -> Result<TunnelOkView, DecodeError> {
        |acc: TunnelOkView, f: RawField| acc.take(f)
    }

    /// The value that `bytes` write down.
    pub open spec fn parse(bytes: Seq<u8>) -> Result<TunnelOkView, DecodeError> {
        match parse_fields(bytes) {
            Ok(fields) => fold_fields(
                fields,
                Self::empty(),
                Self::taker(),
            ),
            Err(e) => Err(e),
        }
    }

    /// Whether the text of this value is short enough to be written down.
    pub open spec fn fits(self) -> bool {
        encode_utf8(self.connection_id).len() <= u64::MAX
    }
}

impl PayloadView {
    /// The number of the field that carries this payload.
    pub open spec fn number(self) -> u64 {
        match self {
            PayloadView::Auth(_) => 1,
            PayloadView::AuthResult(_) => 2,
            PayloadView::OpenTunnelRequest(_) => 3,
            PayloadView::TunnelOk(_) => 4,
        }
    }

    /// The bytes that write this payload down.
    pub open spec fn bytes(self) -> Seq<u8> {
        match self {
            PayloadView::Auth(m) => m.bytes(),
            PayloadView::AuthResult(m) => m.bytes(),
            PayloadView::OpenTunnelRequest(m) => m.bytes(),
            PayloadView::TunnelOk(m) => m.bytes(),
        }
    }

    /// The payload that the field with this number carries in `bytes`.
    pub open spec fn parse(number: u64, bytes: Seq<u8>) -> Result<PayloadView, DecodeError> {
        if number == 1 {
            match ClientAuthView::parse(bytes) {
                Ok(m) => Ok(PayloadView::Auth(m)),
                Err(e) => Err(e),
            }
        } else if number == 2 {
            match AuthResultView::parse(bytes) {
                Ok(m) => Ok(PayloadView::AuthResult(m)),
                Err(e) => Err(e),
            }
        } else if number == 3 {
            match OpenTunnelRequestView::parse(bytes) {
                Ok(m) => Ok(PayloadView::OpenTunnelRequest(m)),
                Err(e) => Err(e),
            }
        } else {
            match TunnelOkView::parse(bytes) {
                Ok(m) => Ok(PayloadView::TunnelOk(m)),
                Err(e) => Err(e),
            }
        }
    }

    /// Whether this payload is short enough to be written down.
    pub open spec fn fits(self) -> bool {
        &&& self.bytes().len() <= u64::MAX
        &&& match self {
            PayloadView::Auth(m) => m.fits(),
            PayloadView::AuthResult(m) => m.fits(),
            PayloadView::OpenTunnelRequest(m) => m.fits(),
            PayloadView::TunnelOk(m) => m.fits(),
        }
    }
}

impl ControlMessageView {
    /// A message without a payload.
    pub open spec fn empty() -> ControlMessageView {
        ControlMessageView { payload: None }
    }

    /// This message with the field `f` taken in: the fields 1 to 4 each
    /// carry one kind of payload, and the last of them is the payload of
    /// the message.
    pub open spec fn take(self, f: RawField) -> Result<ControlMessageView, DecodeError> {
        if 1 <= f.number <= 4 {
            match bytes_of(f.value) {
                Ok(b) => match PayloadView::parse(f.number, b) {
                    Ok(p) => Ok(ControlMessageView { payload: Some(p) }),
                    Err(e) => Err(e),
                },
                Err(e) => Err(e),
            }
        } else {
            Ok(self)
        }
    }

    /// The fields that write this message down.
    pub open spec fn fields(self) -> Seq<RawField> {
        match self.payload {
            Some(p) => seq![RawField { number: p.number(), value: RawValue::Bytes(p.bytes()) }],
            None => Seq::empty(),
        }
    }

    /// The bytes that write this message down.
    pub open spec fn bytes(self) -> Seq<u8> {
        fields_bytes(self.fields())
    }

    /// `take` as a function of two arguments.
    pub open spec fn taker() -> spec_fn(ControlMessageView, RawField) -> Result<
        ControlMessageView,
        DecodeError,
    > {
        |acc: ControlMessageView, f: RawField| acc.take(f)
    }

    /// The message that `bytes` write down.
    pub open spec fn parse(bytes: Seq<u8>) -> Result<ControlMessageView, DecodeError> {
        match parse_fields(bytes) {
            Ok(fields) => fold_fields(
                fields,
                Self::empty(),
                Self::taker(),
            ),
            Err(e) => Err(e),
        }
    }

    /// Whether this message is short enough to be written down: no text and
    /// no payload is longer than a 64-bit length can say.
    pub open spec fn fits(self) -> bool {
        match self.payload {
            Some(p) => p.fits(),
            None => true,
        }
    }
}

/// Taking the fields of two sequences in turn is taking the first sequence
/// and then, with what that made, the second.
pub proof fn lemma_fold_concat<T>(
    a: Seq<RawField>,
    b: Seq<RawField>,
    acc: T,
    take: spec_fn(T, RawField) -> Result<T, DecodeError>,
)
    ensures
        fold_fields(a + b, acc, take) == match fold_fields(a, acc, take) {
            Ok(mid) => fold_fields(b, mid, take),
            Err(e) => Err(e),
        },
    decreases a.len(),
{
    if a.len() > 0 {
        assert((a + b).drop_first() =~= a.drop_first() + b);
        match take(acc, a[0]) {
            Ok(next) => {
                lemma_fold_concat(a.drop_first(), b, next, take);
            },
            Err(_) => {},
        }
    }
}

/// Taking one field is what `take` makes of it.
pub proof fn lemma_fold_one<T>(
    f: RawField,
    acc: T,
    take: spec_fn(T, RawField) -> Result<T, DecodeError>,
)
    ensures
        fold_fields(seq![f], acc, take) == take(acc, f),
        fold_fields(Seq::<RawField>::empty(), acc, take) == Ok::<T, DecodeError>(acc),
{
    reveal_with_fuel(fold_fields, 3);
}

/// A text is read back from the field that holds it.
pub proof fn lemma_text_roundtrip(text: Seq<char>)
    ensures
        text_of(RawValue::Bytes(encode_utf8(text))) == Ok::<Seq<char>, DecodeError>(text),
{
    encode_utf8_valid_utf8(text);
    encode_utf8_decode_utf8(text);
}

/// The bytes of a sequence of fields read back as the fields.
proof fn lemma_parse_fields_of(fields: Seq<RawField>)
    requires
        forall|i: int| 0 <= i < fields.len() ==> is_writable(#[trigger] fields[i]),
    ensures
        parse_fields(fields_bytes(fields)) == Ok::<Seq<RawField>, DecodeError>(fields),
{
    lemma_fields_roundtrip(Seq::empty(), fields);
}

/// A `ClientAuth` is read back from its bytes.
pub proof fn lemma_client_auth_roundtrip(m: ClientAuthView)
    requires
        m.fits(),
    ensures
        ClientAuthView::parse(m.bytes()) == Ok::<ClientAuthView, DecodeError>(m),
{
    let take = ClientAuthView::taker();
    let f1 = number_fields(1, i32_to_wire(m.mode));
    let f2 = text_fields(2, m.tunnel_token);
    lemma_parse_fields_of(m.fields());
    lemma_text_roundtrip(m.tunnel_token);
    let start = ClientAuthView::empty();
    lemma_fold_concat(f1, f2, start, take);
    let mid = ClientAuthView { mode: m.mode, ..start };
    if f1.len() > 0 {
        lemma_fold_one(f1[0], start, take);
    }
    if f2.len() > 0 {
        lemma_fold_one(f2[0], mid, take);
    }
}

/// An `AuthResult` is read back from its bytes.
pub proof fn lemma_auth_result_roundtrip(m: AuthResultView)
    requires
        m.fits(),
    ensures
        AuthResultView::parse(m.bytes()) == Ok::<AuthResultView, DecodeError>(m),
{
    let take = AuthResultView::taker();
    let f1 = number_fields(1, bool_to_wire(m.success));
    let f2 = text_fields(2, m.message);
    let f3 = text_fields(3, m.tunnel_id);
    lemma_parse_fields_of(m.fields());
    lemma_text_roundtrip(m.message);
    lemma_text_roundtrip(m.tunnel_id);
    let start = AuthResultView::empty();
    let filler = text_field(9, Seq::empty());
    lemma_fold_concat(f1 + f2, f3, start, take);
    lemma_fold_concat(f1, f2, start, take);
    let mid1 = AuthResultView { success: m.success, ..start };
    if f1.len() > 0 {
        lemma_fold_one(f1[0], start, take);
    } else {
        lemma_fold_one(filler, start, take);
    }
    let mid2 = AuthResultView { message: m.message, ..mid1 };
    if f2.len() > 0 {
        lemma_fold_one(f2[0], mid1, take);
    }
    if f3.len() > 0 {
        lemma_fold_one(f3[0], mid2, take);
    }
}

/// An `OpenTunnelRequest` is read back from its bytes.
pub proof fn lemma_open_tunnel_request_roundtrip(m: OpenTunnelRequestView)
    requires
        m.fits(),
    ensures
        OpenTunnelRequestView::parse(m.bytes()) == Ok::<OpenTunnelRequestView, DecodeError>(m),
{
    let take = OpenTunnelRequestView::taker();
    let f1 = text_fields(1, m.tunnel_id);
    let f2 = text_fields(2, m.connection_id);
    lemma_parse_fields_of(m.fields());
    lemma_text_roundtrip(m.tunnel_id);
    lemma_text_roundtrip(m.connection_id);
    let start = OpenTunnelRequestView::empty();
    lemma_fold_concat(f1, f2, start, take);
    let mid = OpenTunnelRequestView { tunnel_id: m.tunnel_id, ..start };
    if f1.len() > 0 {
        lemma_fold_one(f1[0], start, take);
    }
    if f2.len() > 0 {
        lemma_fold_one(f2[0], mid, take);
    }
}

/// A `TunnelOk` is read back from its bytes.
pub proof fn lemma_tunnel_ok_roundtrip(m: TunnelOkView)
    requires
        m.fits(),
    ensures
        TunnelOkView::parse(m.bytes()) == Ok::<TunnelOkView, DecodeError>(m),
{
    let take = TunnelOkView::taker();
    let f1 = text_fields(1, m.connection_id);
    lemma_parse_fields_of(m.fields());
    lemma_text_roundtrip(m.connection_id);
    let start = TunnelOkView::empty();
    if f1.len() > 0 {
        lemma_fold_one(f1[0], start, take);
    }
}

/// Encoding then decoding any control message yields the message.
pub proof fn lemma_message_roundtrip(m: ControlMessageView)
    requires
        m.fits(),
    ensures
        ControlMessageView::parse(m.bytes()) == Ok::<ControlMessageView, DecodeError>(m),
{
    let take = ControlMessageView::taker();
    let start = ControlMessageView::empty();
    lemma_parse_fields_of(m.fields());
    match m.payload {
        Some(p) => {
            let f = RawField { number: p.number(), value: RawValue::Bytes(p.bytes()) };
            lemma_fold_one(f, start, take);
            match p {
                PayloadView::Auth(inner) => {
                    lemma_client_auth_roundtrip(inner);
                },
                PayloadView::AuthResult(inner) => {
                    lemma_auth_result_roundtrip(inner);
                },
                PayloadView::OpenTunnelRequest(inner) => {
                    lemma_open_tunnel_request_roundtrip(inner);
                },
                PayloadView::TunnelOk(inner) => {
                    lemma_tunnel_ok_roundtrip(inner);
                },
            }
        },
        None => {},
    }
}

/// Reads a field value as a text.
fn expect_text(value: &FieldValue) -> (res: Result<String, DecodeError>)
    ensures
        match res {
            Ok(s) => text_of(value@) == Ok::<Seq<char>, DecodeError>(s@),
            Err(e) => text_of(value@) == Err::<Seq<char>, DecodeError>(e),
        },
{
    match value {
        FieldValue::Bytes(b) => match decode_text(b.as_slice()) {
            Some(s) => Ok(s),
            None => Err(DecodeError::InvalidUtf8),
        },
        _ => Err(DecodeError::WrongWireType),
    }
}

/// Reads a field value as a number.
fn expect_number(value: &FieldValue) -> (res: Result<u64, DecodeError>)
    ensures
        res == number_of(value@),
{
    match value {
        FieldValue::Varint(v) => Ok(*v),
        _ => Err(DecodeError::WrongWireType),
    }
}

/// Appends the field for a text, unless the text is empty.
fn write_text(out: &mut Vec<u8>, number: u64, text: &str)
    requires
        1 <= number <= 4,
    ensures
        final(out)@ == old(out)@ + fields_bytes(text_fields(number, text@)),
        encode_utf8(text@).len() <= u64::MAX,
{
    let bytes = text.as_bytes();
    let byte_len = bytes.len();
    proof {
        assert(encode_utf8(text@).len() == byte_len);
        reveal_with_fuel(fields_bytes, 2);
    }
    if !text.is_empty() {
        write_bytes_field(out, number, bytes);
    }
}

/// Appends the field for a number, unless the number is zero.
fn write_number(out: &mut Vec<u8>, number: u64, v: u64)
    requires
        1 <= number <= 4,
    ensures
        final(out)@ == old(out)@ + fields_bytes(number_fields(number, v)),
{
    proof {
        reveal_with_fuel(fields_bytes, 2);
    }
    if v != 0 {
        write_varint_field(out, number, v);
    }
}

/// The bytes of two sequences of fields, one behind the other, are the
/// bytes of the one sequence that they make.
pub proof fn lemma_fields_bytes_concat(a: Seq<RawField>, b: Seq<RawField>)
    ensures
        fields_bytes(a + b) == fields_bytes(a) + fields_bytes(b),
    decreases a.len(),
{
    if a.len() > 0 {
        assert((a + b).drop_first() =~= a.drop_first() + b);
        lemma_fields_bytes_concat(a.drop_first(), b);
    }
}

impl ClientAuth {
    /// The bytes that write this message down.
    pub fn encode(&self) -> (out: Vec<u8>)
        ensures
            out@ == self@.bytes(),
            self@.fits(),
    {
        let mut out: Vec<u8> = Vec::new();
        write_number(&mut out, 1, encode_i32(self.mode));
        write_text(&mut out, 2, self.tunnel_token.as_str());
        proof {
            lemma_fields_bytes_concat(
                number_fields(1, i32_to_wire(self.mode)),
                text_fields(2, self.tunnel_token@),
            );
        }
        out
    }

    /// Reads the message that `bytes` write down.
    pub fn decode(bytes: &[u8]) -> (res: Result<ClientAuth, DecodeError>)
        ensures
            match res {
                Ok(m) => ClientAuthView::parse(bytes@) == Ok::<ClientAuthView, DecodeError>(m@),
                Err(e) => ClientAuthView::parse(bytes@) == Err::<ClientAuthView, DecodeError>(e),
            },
    {
        let fields = match read_fields(bytes) {
            Ok(fields) => fields,
            Err(e) => {
                return Err(e);
            },
        };
        let ghost all = fields_view(fields@);
        let ghost take = ClientAuthView::taker();
        let mut msg = ClientAuth { mode: 0, tunnel_token: String::new() };
        let mut i: usize = 0;
        proof {
            assert(all.skip(0) =~= all);
        }
        while i < fields.len()
            invariant
                i <= fields@.len(),
                all == fields_view(fields@),
                take == ClientAuthView::taker(),
                ClientAuthView::parse(bytes@) == fold_fields(all, ClientAuthView::empty(), take),
                fold_fields(all, ClientAuthView::empty(), take) == fold_fields(
                    all.skip(i as int),
                    msg@,
                    take,
                ),
            decreases fields@.len() - i,
        {
            let field = &fields[i];
            proof {
                assert(all.skip(i as int).drop_first() =~= all.skip(i + 1));
            }
            if field.number == 1 {
                match expect_number(&field.value) {
                    Ok(v) => {
                        msg.mode = decode_i32(v);
                    },
                    Err(e) => {
                        return Err(e);
                    },
                }
            } else if field.number == 2 {
                match expect_text(&field.value) {
                    Ok(s) => {
                        msg.tunnel_token = s;
                    },
                    Err(e) => {
                        return Err(e);
                    },
                }
            }
            i = i + 1;
        }
        Ok(msg)
    }
}

impl AuthResult {
    /// The bytes that write this message down.
    pub fn encode(&self) -> (out: Vec<u8>)
        ensures
            out@ == self@.bytes(),
            self@.fits(),
    {
        let mut out: Vec<u8> = Vec::new();
        let flag: u64 = if self.success {
            1
        } else {
            0
        };
        write_number(&mut out, 1, flag);
        write_text(&mut out, 2, self.message.as_str());
        write_text(&mut out, 3, self.tunnel_id.as_str());
        proof {
            let f1 = number_fields(1, bool_to_wire(self.success));
            let f2 = text_fields(2, self.message@);
            let f3 = text_fields(3, self.tunnel_id@);
            lemma_fields_bytes_concat(f1, f2);
            lemma_fields_bytes_concat(f1 + f2, f3);
        }
        out
    }

    /// Reads the message that `bytes` write down.
    pub fn decode(bytes: &[u8]) -> (res: Result<AuthResult, DecodeError>)
        ensures
            match res {
                Ok(m) => AuthResultView::parse(bytes@) == Ok::<AuthResultView, DecodeError>(m@),
                Err(e) => AuthResultView::parse(bytes@) == Err::<AuthResultView, DecodeError>(e),
            },
    {
        let fields = match read_fields(bytes) {
            Ok(fields) => fields,
            Err(e) => {
                return Err(e);
            },
        };
        let ghost all = fields_view(fields@);
        let ghost take = AuthResultView::taker();
        let mut msg = AuthResult { success: false, message: String::new(), tunnel_id: String::new() };
        let mut i: usize = 0;
        proof {
            assert(all.skip(0) =~= all);
        }
        while i < fields.len()
            invariant
                i <= fields@.len(),
                all == fields_view(fields@),
                take == AuthResultView::taker(),
                AuthResultView::parse(bytes@) == fold_fields(all, AuthResultView::empty(), take),
                fold_fields(all, AuthResultView::empty(), take) == fold_fields(
                    all.skip(i as int),
                    msg@,
                    take,
                ),
            decreases fields@.len() - i,
        {
            let field = &fields[i];
            proof {
                assert(all.skip(i as int).drop_first() =~= all.skip(i + 1));
            }
            if field.number == 1 {
                match expect_number(&field.value) {
                    Ok(v) => {
                        msg.success = v != 0;
                    },
                    Err(e) => {
                        return Err(e);
                    },
                }
            } else if field.number == 2 {
                match expect_text(&field.value) {
                    Ok(s) => {
                        msg.message = s;
                    },
                    Err(e) => {
                        return Err(e);
                    },
                }
            } else if field.number == 3 {
                match expect_text(&field.value) {
                    Ok(s) => {
                        msg.tunnel_id = s;
                    },
                    Err(e) => {
                        return Err(e);
                    },
                }
            }
            i = i + 1;
        }
        Ok(msg)
    }
}

impl OpenTunnelRequest {
    /// The bytes that write this message down.
    pub fn encode(&self) -> (out: Vec<u8>)
        ensures
            out@ == self@.bytes(),
            self@.fits(),
    {
        let mut out: Vec<u8> = Vec::new();
        write_text(&mut out, 1, self.tunnel_id.as_str());
        write_text(&mut out, 2, self.connection_id.as_str());
        proof {
            lemma_fields_bytes_concat(
                text_fields(1, self.tunnel_id@),
                text_fields(2, self.connection_id@),
            );
        }
        out
    }

    /// Reads the message that `bytes` write down.
    pub fn decode(bytes: &[u8]) -> (res: Result<OpenTunnelRequest, DecodeError>)
        ensures
            match res {
                Ok(m) => OpenTunnelRequestView::parse(bytes@) == Ok::<
                    OpenTunnelRequestView,
                    DecodeError,
                >(m@),
                Err(e) => OpenTunnelRequestView::parse(bytes@) == Err::<
                    OpenTunnelRequestView,
                    DecodeError,
                >(e),
            },
    {
        let fields = match read_fields(bytes) {
            Ok(fields) => fields,
            Err(e) => {
                return Err(e);
            },
        };
        let ghost all = fields_view(fields@);
        let ghost take = OpenTunnelRequestView::taker();
        let mut msg = OpenTunnelRequest { tunnel_id: String::new(), connection_id: String::new() };
        let mut i: usize = 0;
        proof {
            assert(all.skip(0) =~= all);
        }
        while i < fields.len()
            invariant
                i <= fields@.len(),
                all == fields_view(fields@),
                take == OpenTunnelRequestView::taker(),
                OpenTunnelRequestView::parse(bytes@) == fold_fields(all, OpenTunnelRequestView::empty(), take),
                fold_fields(all, OpenTunnelRequestView::empty(), take) == fold_fields(
                    all.skip(i as int),
                    msg@,
                    take,
                ),
            decreases fields@.len() - i,
        {
            let field = &fields[i];
            proof {
                assert(all.skip(i as int).drop_first() =~= all.skip(i + 1));
            }
            if field.number == 1 {
                match expect_text(&field.value) {
                    Ok(s) => {
                        msg.tunnel_id = s;
                    },
                    Err(e) => {
                        return Err(e);
                    },
                }
            } else if field.number == 2 {
                match expect_text(&field.value) {
                    Ok(s) => {
                        msg.connection_id = s;
                    },
                    Err(e) => {
                        return Err(e);
                    },
                }
            }
            i = i + 1;
        }
        Ok(msg)
    }
}

impl TunnelOk {
    /// The bytes that write this message down.
    pub fn encode(&self) -> (out: Vec<u8>)
        ensures
            out@ == self@.bytes(),
            self@.fits(),
    {
        let mut out: Vec<u8> = Vec::new();
        write_text(&mut out, 1, self.connection_id.as_str());
        out
    }

    /// Reads the message that `bytes` write down.
    pub fn decode(bytes: &[u8]) -> (res: Result<TunnelOk, DecodeError>)
        ensures
            match res {
                Ok(m) => TunnelOkView::parse(bytes@) == Ok::<TunnelOkView, DecodeError>(m@),
                Err(e) => TunnelOkView::parse(bytes@) == Err::<TunnelOkView, DecodeError>(e),
            },
    {
        let fields = match read_fields(bytes) {
            Ok(fields) => fields,
            Err(e) => {
                return Err(e);
            },
        };
        let ghost all = fields_view(fields@);
        let ghost take = TunnelOkView::taker();
        let mut msg = TunnelOk { connection_id: String::new() };
        let mut i: usize = 0;
        proof {
            assert(all.skip(0) =~= all);
        }
        while i < fields.len()
            invariant
                i <= fields@.len(),
                all == fields_view(fields@),
                take == TunnelOkView::taker(),
                TunnelOkView::parse(bytes@) == fold_fields(all, TunnelOkView::empty(), take),
                fold_fields(all, TunnelOkView::empty(), take) == fold_fields(
                    all.skip(i as int),
                    msg@,
                    take,
                ),
            decreases fields@.len() - i,
        {
            let field = &fields[i];
            proof {
                assert(all.skip(i as int).drop_first() =~= all.skip(i + 1));
            }
            if field.number == 1 {
                match expect_text(&field.value) {
                    Ok(s) => {
                        msg.connection_id = s;
                    },
                    Err(e) => {
                        return Err(e);
                    },
                }
            }
            i = i + 1;
        }
        Ok(msg)
    }
}

impl Payload {
    /// The number of the field that carries this payload.
    pub fn field_number(&self) -> (n: u64)
        ensures
            n == self@.number(),
            1 <= n <= 4,
    {
        match self {
            Payload::Auth(_) => 1,
            Payload::AuthResult(_) => 2,
            Payload::OpenTunnelRequest(_) => 3,
            Payload::TunnelOk(_) => 4,
        }
    }

    /// The bytes that write this payload down.
    pub fn encode(&self) -> (out: Vec<u8>)
        ensures
            out@ == self@.bytes(),
            self@.fits(),
    {
        let out = match self {
            Payload::Auth(m) => m.encode(),
            Payload::AuthResult(m) => m.encode(),
            Payload::OpenTunnelRequest(m) => m.encode(),
            Payload::TunnelOk(m) => m.encode(),
        };
        let byte_len = out.len();
        assert(self@.bytes().len() == byte_len);
        out
    }

    /// Reads the payload that the field `number` carries in `bytes`: a
    /// `ClientAuth` in field 1, an `AuthResult` in field 2, an
    /// `OpenTunnelRequest` in field 3, a `TunnelOk` otherwise.
    pub fn decode(number: u64, bytes: &[u8]) -> (res: Result<Payload, DecodeError>)
        ensures
            match res {
                Ok(p) => PayloadView::parse(number, bytes@) == Ok::<PayloadView, DecodeError>(p@),
                Err(e) => PayloadView::parse(number, bytes@) == Err::<PayloadView, DecodeError>(e),
            },
    {
        if number == 1 {
            match ClientAuth::decode(bytes) {
                Ok(m) => Ok(Payload::Auth(m)),
                Err(e) => Err(e),
            }
        } else if number == 2 {
            match AuthResult::decode(bytes) {
                Ok(m) => Ok(Payload::AuthResult(m)),
                Err(e) => Err(e),
            }
        } else if number == 3 {
            match OpenTunnelRequest::decode(bytes) {
                Ok(m) => Ok(Payload::OpenTunnelRequest(m)),
                Err(e) => Err(e),
            }
        } else {
            match TunnelOk::decode(bytes) {
                Ok(m) => Ok(Payload::TunnelOk(m)),
                Err(e) => Err(e),
            }
        }
    }
}

impl ControlMessage {
    /// The bytes that write this message down.
    pub fn encode(&self) -> (out: Vec<u8>)
        ensures
            out@ == self@.bytes(),
            self@.fits(),
    {
        let mut out: Vec<u8> = Vec::new();
        proof {
            reveal_with_fuel(fields_bytes, 2);
        }
        match &self.payload {
            Some(p) => {
                let body = p.encode();
                write_bytes_field(&mut out, p.field_number(), body.as_slice());
            },
            None => {},
        }
        out
    }

    /// Reads the message that `bytes` write down.
    pub fn decode(bytes: &[u8]) -> (res: Result<ControlMessage, DecodeError>)
        ensures
            match res {
                Ok(m) => ControlMessageView::parse(bytes@) == Ok::<
                    ControlMessageView,
                    DecodeError,
                >(m@),
                Err(e) => ControlMessageView::parse(bytes@) == Err::<
                    ControlMessageView,
                    DecodeError,
                >(e),
            },
    {
        let fields = match read_fields(bytes) {
            Ok(fields) => fields,
            Err(e) => {
                return Err(e);
            },
        };
        let ghost all = fields_view(fields@);
        let ghost take = ControlMessageView::taker();
        let mut msg = ControlMessage { payload: None };
        let mut i: usize = 0;
        proof {
            assert(all.skip(0) =~= all);
        }
        while i < fields.len()
            invariant
                i <= fields@.len(),
                all == fields_view(fields@),
                take == ControlMessageView::taker(),
                ControlMessageView::parse(bytes@) == fold_fields(all, ControlMessageView::empty(), take),
                fold_fields(all, ControlMessageView::empty(), take) == fold_fields(
                    all.skip(i as int),
                    msg@,
                    take,
                ),
            decreases fields@.len() - i,
        {
            let field = &fields[i];
            proof {
                assert(all.skip(i as int).drop_first() =~= all.skip(i + 1));
            }
            if 1 <= field.number && field.number <= 4 {
                match &field.value {
                    FieldValue::Bytes(b) => match Payload::decode(field.number, b.as_slice()) {
                        Ok(p) => {
                            msg.payload = Some(p);
                        },
                        Err(e) => {
                            return Err(e);
                        },
                    },
                    _ => {
                        return Err(DecodeError::WrongWireType);
                    },
                }
            }
            i = i + 1;
        }
        Ok(msg)
    }
}

} // verus!
