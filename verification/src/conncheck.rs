//! Credentials and the requests that connectivity checks send.
use crate::message;
use crate::message::{
    add_attribute, add_fingerprint, add_message_integrity, add_username, binding_request, to_be32,
    to_be64,
};
use stun_proto::types::message::{MessageWriteVec, StunWriteError};
use vstd::prelude::*;

verus! {

/// Type of the PRIORITY attribute.
pub const PRIORITY: u16 = 0x0024;

/// Type of the USE-CANDIDATE attribute.
pub const USE_CANDIDATE: u16 = 0x0025;

/// Type of the ICE-CONTROLLED attribute.
pub const ICE_CONTROLLED: u16 = 0x8029;

/// Type of the ICE-CONTROLLING attribute.
pub const ICE_CONTROLLING: u16 = 0x802a;

/// A user name fragment and a password.
#[derive(Debug, PartialEq, Eq)]
pub struct Credentials {
    pub ufrag: String,
    pub passwd: String,
}

impl Clone for Credentials {
    fn clone(&self) -> (r: Self)
        ensures
            r == *self,
    {
        Credentials { ufrag: self.ufrag.clone(), passwd: self.passwd.clone() }
    }
}

impl Credentials {
    /// Credentials with the given user name fragment and password.
    pub fn new(ufrag: String, passwd: String) -> (r: Credentials)
        ensures
            r == (Credentials { ufrag, passwd }),
    {
        Credentials { ufrag, passwd }
    }
}

/// The user name of a check: the fragment of the peer, a colon and the local
/// fragment.
pub open spec fn check_username(local: Credentials, remote: Credentials) -> Seq<char> {
    remote.ufrag@ + seq![':'] + local.ufrag@
}

/// What a check says of the agent that sends it.
pub struct CheckParameters {
    pub priority: u32,
    pub nominate: bool,
    pub controlling: bool,
    pub tie_breaker: u64,
    pub local_credentials: Credentials,
    pub remote_credentials: Credentials,
}

/// A check before it is signed: a Binding request with the priority, the role
/// with its tie breaker, the nomination if there is one and the user name.
pub open spec fn unsigned_check(transaction: Seq<u8>, check: CheckParameters) -> Seq<u8> {
    let start = message::request_header(transaction);
    let prioritised = message::with_attribute(start, PRIORITY, message::be32(check.priority));
    let role = if check.controlling {
        ICE_CONTROLLING
    } else {
        ICE_CONTROLLED
    };
    let with_role = message::with_attribute(
        prioritised,
        role,
        message::be64(check.tie_breaker),
    );
    let nominated = if check.nominate {
        message::with_attribute(with_role, USE_CANDIDATE, Seq::empty())
    } else {
        with_role
    };
    message::with_attribute(
        nominated,
        message::USERNAME,
        vstd::utf8::encode_utf8(
            check_username(check.local_credentials, check.remote_credentials),
        ),
    )
}

/// The bytes of a check, signed with the password of the peer and with a
/// fingerprint.
pub open spec fn check_bytes(transaction: Seq<u8>, check: CheckParameters) -> Seq<u8> {
    message::with_fingerprint(
        message::with_integrity(
            unsigned_check(transaction, check),
            check.remote_credentials.passwd@,
        ),
    )
}

/// The value of the MESSAGE-INTEGRITY attribute of a check.
pub open spec fn check_signature(transaction: Seq<u8>, check: CheckParameters) -> Seq<u8> {
    let unsigned = unsigned_check(transaction, check);
    message::integrity_value(
        check.remote_credentials.passwd@,
        message::with_length(unsigned, unsigned.len() + 24 - message::HEADER_LENGTH),
    )
}

/// The value of the FINGERPRINT attribute of a check.
pub open spec fn check_fingerprint(transaction: Seq<u8>, check: CheckParameters) -> Seq<u8> {
    let signed = message::with_integrity(
        unsigned_check(transaction, check),
        check.remote_credentials.passwd@,
    );
    message::fingerprint_value(
        message::with_length(signed, signed.len() + 8 - message::HEADER_LENGTH),
    )
}

/// Whether `bytes` are those of a check, under some transaction id, in a frame
/// of the right length, with a signature of twenty bytes and a fingerprint of
/// four.
pub open spec fn is_check(bytes: Seq<u8>, check: CheckParameters) -> bool {
    &&& message::framed(bytes)
    &&& exists|transaction: Seq<u8>|
        {
            &&& transaction.len() == 12
            &&& bytes == #[trigger] check_bytes(transaction, check)
            &&& check_signature(transaction, check).len() == 20
            &&& check_fingerprint(transaction, check).len() == 4
        }
}

/// What is signed is a Binding request in a frame of the right length.
pub proof fn lemma_unsigned_check(transaction: Seq<u8>, check: CheckParameters)
    requires
        transaction.len() == 12,
    ensures
        message::framed(unsigned_check(transaction, check)),
        message::is_binding_request(unsigned_check(transaction, check)),
{
    let start = message::request_header(transaction);
    assert(message::is_binding_request(start));
    let priority = message::be32(check.priority);
    message::lemma_with_attribute(start, PRIORITY, priority);
    let prioritised = message::with_attribute(start, PRIORITY, priority);
    let role = if check.controlling {
        ICE_CONTROLLING
    } else {
        ICE_CONTROLLED
    };
    let tie_breaker = message::be64(check.tie_breaker);
    message::lemma_with_attribute(prioritised, role, tie_breaker);
    let with_role = message::with_attribute(prioritised, role, tie_breaker);
    message::lemma_with_attribute(with_role, USE_CANDIDATE, Seq::empty());
    let nominated = if check.nominate {
        message::with_attribute(with_role, USE_CANDIDATE, Seq::empty())
    } else {
        with_role
    };
    message::lemma_with_attribute(
        nominated,
        message::USERNAME,
        vstd::utf8::encode_utf8(
            check_username(check.local_credentials, check.remote_credentials),
        ),
    );
}

/// Signing keeps a message a Binding request, and adds twenty-four bytes where
/// the value of the attribute has twenty.
proof fn lemma_signed(message: Seq<u8>, password: Seq<char>)
    requires
        message::is_binding_request(message),
    ensures
        message::is_binding_request(message::with_integrity(message, password)),
        ({
            let body = message.len() + 24 - message::HEADER_LENGTH;
            let covered = message::with_length(message, body);
            message::integrity_value(password, covered).len() == 20 ==> message::with_integrity(
                message,
                password,
            ).len() == message.len() + 24
        }),
{
    let body = message.len() + 24 - message::HEADER_LENGTH;
    let value = message::integrity_value(password, message::with_length(message, body));
    message::lemma_attribute_length(message::MESSAGE_INTEGRITY, value);
    message::lemma_with_length(
        message,
        body,
        message::attribute(message::MESSAGE_INTEGRITY, value),
    );
}

/// A fingerprint keeps a message a Binding request, and frames it where the
/// value of the attribute has four bytes.
proof fn lemma_fingerprinted(message: Seq<u8>)
    requires
        message::is_binding_request(message),
    ensures
        message::is_binding_request(message::with_fingerprint(message)),
        ({
            let body = message.len() + 8 - message::HEADER_LENGTH;
            let covered = message::with_length(message, body);
            message::fingerprint_value(covered).len() == 4 && message.len() % 4 == 0
                ==> message::framed(message::with_fingerprint(message))
        }),
{
    let body = message.len() + 8 - message::HEADER_LENGTH;
    let value = message::fingerprint_value(message::with_length(message, body));
    message::lemma_attribute_length(message::FINGERPRINT, value);
    message::lemma_with_length(message, body, message::attribute(message::FINGERPRINT, value));
}

/// A signed message with a fingerprint is a Binding request and framed, given
/// how long the values of the two attributes are.
proof fn lemma_closed(unsigned: Seq<u8>, password: Seq<char>)
    requires
        message::framed(unsigned),
        message::is_binding_request(unsigned),
        ({
            let signed = message::with_integrity(unsigned, password);
            &&& message::integrity_value(
                password,
                message::with_length(unsigned, unsigned.len() + 24 - message::HEADER_LENGTH),
            ).len() == 20
            &&& message::fingerprint_value(
                message::with_length(signed, signed.len() + 8 - message::HEADER_LENGTH),
            ).len() == 4
        }),
    ensures
        message::framed(message::with_fingerprint(message::with_integrity(unsigned, password))),
{
    lemma_signed(unsigned, password);
    lemma_fingerprinted(message::with_integrity(unsigned, password));
}

/// Every check is a Binding request.
pub proof fn law_check_is_a_binding_request(bytes: Seq<u8>, check: CheckParameters)
    requires
        is_check(bytes, check),
    ensures
        message::is_binding_request(bytes),
{
    let transaction = choose|transaction: Seq<u8>|
        transaction.len() == 12 && bytes == #[trigger] check_bytes(transaction, check);
    lemma_unsigned_check(transaction, check);
    let unsigned = unsigned_check(transaction, check);
    let signed = message::with_integrity(unsigned, check.remote_credentials.passwd@);
    lemma_signed(unsigned, check.remote_credentials.passwd@);
    lemma_fingerprinted(signed);
}

/// The user name of a check.
fn username(local: &Credentials, remote: &Credentials) -> (r: String)
    ensures
        r@ == check_username(*local, *remote),
{
    proof {
        reveal_strlit(":");
    }
    remote.ufrag.clone().concat(":").concat(local.ufrag.as_str())
}

/// Write a connectivity check.
///
/// Fails only where the user name is too long for a message.
#[verifier::rlimit(30)]
pub fn generate_binding_request(
    priority: u32,
    nominate: bool,
    controlling: bool,
    tie_breaker: u64,
    local_credentials: Credentials,
    remote_credentials: Credentials,
) -> (r: Result<MessageWriteVec, StunWriteError>)
    ensures
        r is Ok <==> message::username_fits(
            check_username(local_credentials, remote_credentials),
        ),
        r matches Ok(msg) ==> is_check(
            message::message_bytes(msg),
            CheckParameters {
                priority,
                nominate,
                controlling,
                tie_breaker,
                local_credentials,
                remote_credentials,
            },
        ),
{
    let mut msg = binding_request();
    let ghost transaction = message::message_bytes(msg).skip(8);
    proof {
        let start = message::message_bytes(msg);
        assert(start =~= start.take(8) + start.skip(8));
        assert(start =~= message::request_header(transaction));
    }
    let value = to_be32(priority);
    add_attribute(&mut msg, PRIORITY, value.as_slice())?;
    let role: u16 = if controlling {
        ICE_CONTROLLING
    } else {
        ICE_CONTROLLED
    };
    let value = to_be64(tie_breaker);
    add_attribute(&mut msg, role, value.as_slice())?;
    if nominate {
        let value: Vec<u8> = Vec::new();
        add_attribute(&mut msg, USE_CANDIDATE, value.as_slice())?;
    }
    let name = username(&local_credentials, &remote_credentials);
    add_username(&mut msg, name.as_str())?;
    let ghost unsigned = message::message_bytes(msg);
    add_message_integrity(&mut msg, remote_credentials.passwd.as_str())?;
    add_fingerprint(&mut msg)?;
    proof {
        let check = CheckParameters {
            priority,
            nominate,
            controlling,
            tie_breaker,
            local_credentials,
            remote_credentials,
        };
        assert(unsigned =~= unsigned_check(transaction, check));
        lemma_unsigned_check(transaction, check);
        lemma_closed(unsigned, remote_credentials.passwd@);
        assert(message::message_bytes(msg) == check_bytes(transaction, check));
        assert(check_signature(transaction, check).len() == 20);
        assert(check_fingerprint(transaction, check).len() == 4);
    }
    Ok(msg)
}

} // verus!
