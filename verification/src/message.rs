//! Writing STUN messages with `stun_proto`.
//!
//! The functions here are the only ones that hand a message to `stun_proto`.
//! What they claim of it is stated over the bytes that the message holds and
//! over the types of the attributes that have been written into it.
use stun_proto::types::attribute::{AttributeType, RawAttribute, Username};
use stun_proto::types::message::{
    IntegrityAlgorithm, Message, MessageIntegrityCredentials, MessageWrite, MessageWriteExt,
    MessageWriteVec, ShortTermCredentials, StunWriteError, BINDING,
};
use vstd::prelude::*;

verus! {

/// A message that is being written.
#[verifier::external_type_specification]
#[verifier::external_body]
pub struct ExMessageWriteVec(MessageWriteVec);

/// Why `stun_proto` refuses to write.
#[verifier::external_type_specification]
#[verifier::external_body]
pub struct ExStunWriteError(StunWriteError);

/// The bytes that a message holds so far.
pub uninterp spec fn message_bytes(msg: MessageWriteVec) -> Seq<u8>;

/// The types of the attributes that have been written into a message, in
/// order.
pub uninterp spec fn message_attributes(msg: MessageWriteVec) -> Seq<u16>;

/// The value of a MESSAGE-INTEGRITY attribute: what signing `covered` with
/// short-term credentials that have this password gives.
pub uninterp spec fn integrity_value(password: Seq<char>, covered: Seq<u8>) -> Seq<u8>;

/// The value of a FINGERPRINT attribute that covers the given bytes.
pub uninterp spec fn fingerprint_value(covered: Seq<u8>) -> Seq<u8>;

/// Type of the USERNAME attribute.
pub const USERNAME: u16 = 0x0006;

/// Type of the MESSAGE-INTEGRITY attribute.
pub const MESSAGE_INTEGRITY: u16 = 0x0008;

/// Type of the MESSAGE-INTEGRITY-SHA256 attribute.
pub const MESSAGE_INTEGRITY_SHA256: u16 = 0x001c;

/// Type of the FINGERPRINT attribute.
pub const FINGERPRINT: u16 = 0x8028;

/// Number of bytes in the header of a message.
pub const HEADER_LENGTH: usize = 20;

/// The greatest number of bytes in a USERNAME.
pub const MAX_USERNAME_LENGTH: usize = 513;

/// The low sixteen bits of a number in network order.
pub open spec fn be16(n: int) -> Seq<u8> {
    seq![((n / 256) % 256) as u8, (n % 256) as u8]
}

/// A number of thirty-two bits in network order.
pub open spec fn be32(n: u32) -> Seq<u8> {
    seq![
        (n / 0x100_0000) as u8,
        ((n / 0x1_0000) % 256) as u8,
        ((n / 0x100) % 256) as u8,
        (n % 256) as u8,
    ]
}

/// A number of sixty-four bits in network order.
pub open spec fn be64(n: u64) -> Seq<u8> {
    be32((n / 0x1_0000_0000) as u32) + be32((n % 0x1_0000_0000) as u32)
}

/// The number of bytes that fill a value up to a multiple of four.
pub open spec fn padding(len: int) -> nat {
    ((4 - len % 4) % 4) as nat
}

/// An attribute as it stands in a message: type, length, value and padding.
pub open spec fn attribute(atype: u16, value: Seq<u8>) -> Seq<u8> {
    be16(atype as int) + be16(value.len() as int) + value + Seq::new(
        padding(value.len() as int),
        |i: int| 0u8,
    )
}

/// A message whose length field has been set to say that `body` bytes follow
/// its header.
pub open spec fn with_length(message: Seq<u8>, body: int) -> Seq<u8> {
    message.take(2) + be16(body) + message.skip(4)
}

/// Whether the length field says how many bytes follow the header, and these
/// form whole words of four bytes.
pub open spec fn framed(message: Seq<u8>) -> bool {
    &&& message.len() >= HEADER_LENGTH
    &&& message.len() % 4 == 0
    &&& message[2] == be16(message.len() - HEADER_LENGTH)[0]
    &&& message[3] == be16(message.len() - HEADER_LENGTH)[1]
}

/// A message with an attribute written at its end.
pub open spec fn with_attribute(message: Seq<u8>, atype: u16, value: Seq<u8>) -> Seq<u8> {
    let written = attribute(atype, value);
    with_length(message, message.len() + written.len() - HEADER_LENGTH) + written
}

/// A message with a MESSAGE-INTEGRITY attribute of twenty bytes at its end.
pub open spec fn with_integrity(message: Seq<u8>, password: Seq<char>) -> Seq<u8> {
    let covered = with_length(message, message.len() + 24 - HEADER_LENGTH);
    covered + attribute(MESSAGE_INTEGRITY, integrity_value(password, covered))
}

/// A message with a FINGERPRINT attribute of four bytes at its end.
pub open spec fn with_fingerprint(message: Seq<u8>) -> Seq<u8> {
    let covered = with_length(message, message.len() + 8 - HEADER_LENGTH);
    covered + attribute(FINGERPRINT, fingerprint_value(covered))
}

/// The header of a Binding request without attributes: message type, length
/// zero, magic cookie and transaction id.
pub open spec fn request_header(transaction: Seq<u8>) -> Seq<u8> {
    seq![0u8, 1u8, 0u8, 0u8, 0x21u8, 0x12u8, 0xa4u8, 0x42u8] + transaction
}

/// Whether a message starts as a Binding request does: with its type and, in
/// the right place, the magic cookie.
pub open spec fn is_binding_request(message: Seq<u8>) -> bool {
    &&& message.len() >= HEADER_LENGTH
    &&& message[0] == 0 && message[1] == 1
    &&& message[4] == 0x21 && message[5] == 0x12 && message[6] == 0xa4 && message[7] == 0x42
}

/// An attribute takes up whole words of four bytes.
pub proof fn lemma_attribute_length(atype: u16, value: Seq<u8>)
    ensures
        attribute(atype, value).len() == 4 + value.len() + padding(value.len() as int),
        attribute(atype, value).len() % 4 == 0,
{
}

/// Setting the length field and writing at the end changes nothing else.
pub proof fn lemma_with_length(message: Seq<u8>, body: int, tail: Seq<u8>)
    requires
        message.len() >= HEADER_LENGTH,
    ensures
        (with_length(message, body) + tail).len() == message.len() + tail.len(),
        (with_length(message, body) + tail)[2] == be16(body)[0],
        (with_length(message, body) + tail)[3] == be16(body)[1],
        is_binding_request(message) ==> is_binding_request(with_length(message, body) + tail),
{
}

/// Writing an attribute frames a message.
pub proof fn lemma_with_attribute(message: Seq<u8>, atype: u16, value: Seq<u8>)
    requires
        message.len() >= HEADER_LENGTH,
        message.len() % 4 == 0,
    ensures
        framed(with_attribute(message, atype, value)),
        is_binding_request(message) ==> is_binding_request(with_attribute(message, atype, value)),
{
    let written = attribute(atype, value);
    lemma_attribute_length(atype, value);
    lemma_with_length(message, message.len() + written.len() - HEADER_LENGTH, written);
}

/// Whether attributes of these types leave no room for a further one.
pub open spec fn closed_by(attributes: Seq<u16>) -> bool {
    ||| attributes.contains(MESSAGE_INTEGRITY)
    ||| attributes.contains(MESSAGE_INTEGRITY_SHA256)
    ||| attributes.contains(FINGERPRINT)
}

/// Whether a name is short enough for a USERNAME attribute.
pub open spec fn username_fits(username: Seq<char>) -> bool {
    vstd::utf8::encode_utf8(username).len() <= MAX_USERNAME_LENGTH
}

/// A new Binding request, made with `Message::builder_request`.
///
/// Claims that the result has no attributes and consists of the header of a
/// Binding request.  The transaction id is drawn at random: nothing is claimed
/// of its twelve bytes.
#[verifier::external_body]
pub(crate) fn binding_request() -> (r: MessageWriteVec)
    ensures
        message_bytes(r).len() == HEADER_LENGTH,
        message_bytes(r).take(8) == request_header(Seq::empty()),
        message_attributes(r).len() == 0,
{
    Message::builder_request(BINDING, MessageWriteVec::new())
}

/// Write an attribute with `MessageWriteExt::add_attribute`, given its type and
/// its value as bytes.
///
/// Claims that the attribute is written at the end and the length field set,
/// unless an attribute is there that no other may follow: then the call fails
/// and the message stays as it was.  `stun_proto` panics where a message
/// integrity or fingerprint attribute is passed, or a value that is too long.
#[verifier::external_body]
pub(crate) fn add_attribute(msg: &mut MessageWriteVec, atype: u16, value: &[u8]) -> (r: Result<
    (),
    StunWriteError,
>)
    requires
        message_bytes(*old(msg)).len() >= HEADER_LENGTH,
        !closed_by(seq![atype]),
        value@.len() <= 0xffff,
    ensures
        r is Ok <==> !closed_by(message_attributes(*old(msg))),
        r is Ok ==> message_bytes(*final(msg)) == with_attribute(
            message_bytes(*old(msg)),
            atype,
            value@,
        ) && message_attributes(*final(msg)) == message_attributes(*old(msg)).push(atype),
        r is Err ==> *final(msg) == *old(msg),
{
    msg.add_attribute(&RawAttribute::new(AttributeType::new(atype), value))
}

/// Write a USERNAME attribute, made with `Username::new`, with
/// `MessageWriteExt::add_attribute`.
///
/// Claims that the attribute is written at the end and the length field set,
/// unless the name is too long or an attribute is there that no other may
/// follow: then the call fails and the message stays as it was.
#[verifier::external_body]
pub(crate) fn add_username(msg: &mut MessageWriteVec, username: &str) -> (r: Result<
    (),
    StunWriteError,
>)
    requires
        message_bytes(*old(msg)).len() >= HEADER_LENGTH,
    ensures
        r is Ok <==> (!closed_by(message_attributes(*old(msg))) && username_fits(username@)),
        r is Ok ==> message_bytes(*final(msg)) == with_attribute(
            message_bytes(*old(msg)),
            USERNAME,
            vstd::utf8::encode_utf8(username@),
        ) && message_attributes(*final(msg)) == message_attributes(*old(msg)).push(USERNAME),
        r is Err ==> *final(msg) == *old(msg),
{
    msg.add_attribute(&Username::new(username)?)
}

/// Sign a message with `MessageWriteExt::add_message_integrity`, using
/// HMAC-SHA1 and short-term credentials.
///
/// Claims that a MESSAGE-INTEGRITY attribute of twenty bytes is written at the
/// end, whose value depends on the password and on the bytes before it alone.
/// The call fails, and the message stays as it was, where an attribute is
/// there that no other may follow.
#[verifier::external_body]
pub(crate) fn add_message_integrity(msg: &mut MessageWriteVec, password: &str) -> (r: Result<
    (),
    StunWriteError,
>)
    requires
        message_bytes(*old(msg)).len() >= HEADER_LENGTH,
    ensures
        r is Ok <==> !closed_by(message_attributes(*old(msg))),
        r is Ok ==> {
            let before = message_bytes(*old(msg));
            let covered = with_length(before, before.len() + 24 - HEADER_LENGTH);
            &&& message_bytes(*final(msg)) == with_integrity(before, password@)
            &&& integrity_value(password@, covered).len() == 20
            &&& message_attributes(*final(msg)) == message_attributes(*old(msg)).push(
                MESSAGE_INTEGRITY,
            )
        },
        r is Err ==> *final(msg) == *old(msg),
{
    let credentials = ShortTermCredentials::new(password.to_string());
    let credentials = MessageIntegrityCredentials::ShortTerm(credentials);
    msg.add_message_integrity(&credentials, IntegrityAlgorithm::Sha1)
}

/// Write a fingerprint with `MessageWriteExt::add_fingerprint`.
///
/// Claims that a FINGERPRINT attribute of four bytes is written at the end,
/// whose value depends on the bytes before it alone.  The call fails, and the
/// message stays as it was, where it has a fingerprint already.
#[verifier::external_body]
pub(crate) fn add_fingerprint(msg: &mut MessageWriteVec) -> (r: Result<(), StunWriteError>)
    requires
        message_bytes(*old(msg)).len() >= HEADER_LENGTH,
    ensures
        r is Ok <==> !message_attributes(*old(msg)).contains(FINGERPRINT),
        r is Ok ==> {
            let before = message_bytes(*old(msg));
            let covered = with_length(before, before.len() + 8 - HEADER_LENGTH);
            &&& message_bytes(*final(msg)) == with_fingerprint(before)
            &&& fingerprint_value(covered).len() == 4
            &&& message_attributes(*final(msg)) == message_attributes(*old(msg)).push(FINGERPRINT)
        },
        r is Err ==> *final(msg) == *old(msg),
{
    msg.add_fingerprint()
}

/// The bytes of a message, taken with `MessageWrite::finish`.
///
/// Claims that the result holds the bytes that have been written.
#[verifier::external_body]
pub(crate) fn finish(msg: MessageWriteVec) -> (r: Vec<u8>)
    ensures
        r@ == message_bytes(msg),
{
    msg.finish()
}

/// The bytes of a number of thirty-two bits in network order.
pub fn to_be32(n: u32) -> (r: Vec<u8>)
    ensures
        r@ == be32(n),
{
    vec![
        (n / 0x100_0000) as u8,
        ((n / 0x1_0000) % 256) as u8,
        ((n / 0x100) % 256) as u8,
        (n % 256) as u8,
    ]
}

/// The bytes of a number of sixty-four bits in network order.
pub fn to_be64(n: u64) -> (r: Vec<u8>)
    ensures
        r@ == be64(n),
{
    let mut bytes = to_be32((n / 0x1_0000_0000) as u32);
    let mut low = to_be32((n % 0x1_0000_0000) as u32);
    bytes.append(&mut low);
    bytes
}

} // verus!
