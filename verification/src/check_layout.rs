//! Where the parts of a check stand among its bytes.
use crate::conncheck;
use crate::conncheck::{Credentials, CheckParameters};
use crate::message;
use vstd::prelude::*;

verus! {

/// Four bytes in network order are the number that they stand for.
proof fn lemma_be32(n: u32)
    ensures
        ({
            let b = message::be32(n);
            &&& b.len() == 4
            &&& b[0] * 0x100_0000 + b[1] * 0x1_0000 + b[2] * 0x100 + b[3] == n
        }),
{
}

/// Eight bytes in network order are the number that they stand for.
proof fn lemma_be64(n: u64)
    ensures
        ({
            let b = message::be64(n);
            &&& b.len() == 8
            &&& (b[0] * 0x100_0000 + b[1] * 0x1_0000 + b[2] * 0x100 + b[3]) * 0x1_0000_0000 + (b[4]
                * 0x100_0000 + b[5] * 0x1_0000 + b[6] * 0x100 + b[7]) == n
        }),
{
    lemma_be32((n / 0x1_0000_0000) as u32);
    lemma_be32((n % 0x1_0000_0000) as u32);
}

/// Writing at the end keeps every byte but those of the length field.
proof fn lemma_kept_byte(before: Seq<u8>, body: int, tail: Seq<u8>, k: int)
    requires
        4 <= k < before.len(),
    ensures
        (message::with_length(before, body) + tail)[k] == before[k],
{
}

/// What stands where an attribute has been written.
proof fn lemma_written(before: Seq<u8>, body: int, atype: u16, value: Seq<u8>)
    requires
        before.len() >= 20,
    ensures
        ({
            let n = before.len() as int;
            let v = value.len() as int;
            let after = message::with_length(before, body) + message::attribute(atype, value);
            &&& after.len() == n + 4 + v + (4 - v % 4) % 4
            &&& after[n] == atype / 256
            &&& after[n + 1] == atype % 256
            &&& after[n + 2] == (v / 256) % 256
            &&& after[n + 3] == v % 256
            &&& after.subrange(n + 4, n + 4 + v) == value
            &&& forall|k: int| n + 4 + v <= k < after.len() ==> after[k] == 0
        }),
{
    let n = before.len() as int;
    let v = value.len() as int;
    let after = message::with_length(before, body) + message::attribute(atype, value);
    assert(message::with_length(before, body).len() == n);
    assert(after.subrange(n + 4, n + 4 + v) =~= value);
}

/// Whether `after` is `before` with an attribute at its end, but for the length
/// field.
spec fn placed(before: Seq<u8>, after: Seq<u8>, atype: u16, value: Seq<u8>) -> bool {
    let n = before.len() as int;
    let v = value.len() as int;
    &&& after.len() == n + 4 + v + (4 - v % 4) % 4
    &&& after[n] == atype / 256
    &&& after[n + 1] == atype % 256
    &&& after[n + 2] == (v / 256) % 256
    &&& after[n + 3] == v % 256
    &&& after.subrange(n + 4, n + 4 + v) == value
    &&& forall|k: int| n + 4 + v <= k < after.len() ==> #[trigger] after[k] == 0
    &&& forall|k: int| 4 <= k < n ==> #[trigger] after[k] == before[k]
}

/// An attribute that is written is placed at the end.
proof fn lemma_with_attribute(before: Seq<u8>, atype: u16, value: Seq<u8>)
    requires
        before.len() >= 20,
    ensures
        placed(before, message::with_attribute(before, atype, value), atype, value),
{
    let written = message::attribute(atype, value);
    let body = before.len() + written.len() - message::HEADER_LENGTH;
    lemma_written(before, body, atype, value);
    assert forall|k: int| 4 <= k < before.len() implies #[trigger] message::with_attribute(
        before,
        atype,
        value,
    )[k] == before[k] by {
        lemma_kept_byte(before, body, written, k);
    }
}

/// The user name of a check in bytes: the fragment of the peer, a colon and the
/// local fragment.
pub open spec fn name_bytes(local: Credentials, remote: Credentials) -> Seq<u8> {
    vstd::utf8::encode_utf8(remote.ufrag@ + seq![':'] + local.ufrag@)
}

/// Whether the parts of a check stand in their places in front of its
/// signature: the priority, the role with the tie breaker, the nomination if
/// there is one, and the user name, whose attribute ends at `end`.
pub open spec fn has_parts(b: Seq<u8>, check: CheckParameters, end: int) -> bool {
    let m: int = if check.nominate {
        44
    } else {
        40
    };
    let name = name_bytes(check.local_credentials, check.remote_credentials);
    let n = name.len() as int;
    &&& end == m + 4 + n + (4 - n % 4) % 4
    &&& end <= b.len()
    &&& b[20] == 0 && b[21] == 0x24 && b[22] == 0 && b[23] == 4
    &&& b[24] * 0x100_0000 + b[25] * 0x1_0000 + b[26] * 0x100 + b[27] == check.priority
    &&& b[28] == 0x80 && b[29] == (if check.controlling {
        0x2au8
    } else {
        0x29u8
    }) && b[30] == 0 && b[31] == 8
    &&& (b[32] * 0x100_0000 + b[33] * 0x1_0000 + b[34] * 0x100 + b[35]) * 0x1_0000_0000 + (b[36]
        * 0x100_0000 + b[37] * 0x1_0000 + b[38] * 0x100 + b[39]) == check.tie_breaker
    &&& check.nominate ==> b[40] == 0 && b[41] == 0x25 && b[42] == 0 && b[43] == 0
    &&& b[m] == 0 && b[m + 1] == 6
    &&& b[m + 2] == (n / 256) % 256 && b[m + 3] == n % 256
    &&& b.subrange(m + 4, m + 4 + n) == name
    &&& forall|k: int| m + 4 + n <= k < end ==> #[trigger] b[k] == 0
}

/// Attributes that are placed one behind the other are the parts of a check.
proof fn lemma_parts(
    start: Seq<u8>,
    first: Seq<u8>,
    second: Seq<u8>,
    third: Seq<u8>,
    b: Seq<u8>,
    check: CheckParameters,
)
    requires
        start.len() == 20,
        placed(start, first, 0x0024, message::be32(check.priority)),
        placed(
            first,
            second,
            if check.controlling {
                0x802a
            } else {
                0x8029
            },
            message::be64(check.tie_breaker),
        ),
        if check.nominate {
            placed(second, third, 0x0025, Seq::empty())
        } else {
            third == second
        },
        placed(
            third,
            b,
            0x0006,
            name_bytes(check.local_credentials, check.remote_credentials),
        ),
    ensures
        has_parts(b, check, b.len() as int),
{
    let priority = message::be32(check.priority);
    let tie_breaker = message::be64(check.tie_breaker);
    lemma_be32(check.priority);
    lemma_be64(check.tie_breaker);
    assert forall|k: int| 0 <= k < 4 implies b[24 + k] == #[trigger] priority[k] by {
        assert(first.subrange(24, 28)[k] == first[24 + k]);
        assert(second[24 + k] == first[24 + k]);
        assert(third[24 + k] == second[24 + k]);
    }
    assert(b[24] == priority[0] && b[25] == priority[1] && b[26] == priority[2] && b[27]
        == priority[3]);
    assert forall|k: int| 0 <= k < 8 implies b[32 + k] == #[trigger] tie_breaker[k] by {
        assert(second.subrange(32, 40)[k] == second[32 + k]);
        assert(third[32 + k] == second[32 + k]);
    }
    assert(b[32] == tie_breaker[0] && b[33] == tie_breaker[1] && b[34] == tie_breaker[2] && b[35]
        == tie_breaker[3] && b[36] == tie_breaker[4] && b[37] == tie_breaker[5] && b[38]
        == tie_breaker[6] && b[39] == tie_breaker[7]);
    assert forall|k: int| 20 <= k < 24 implies b[k] == #[trigger] first[k] by {
        assert(second[k] == first[k]);
        assert(third[k] == second[k]);
    }
    assert forall|k: int| 28 <= k < 32 implies b[k] == #[trigger] second[k] by {
        assert(third[k] == second[k]);
    }
    assert(b[20] == first[20] && b[21] == first[21] && b[22] == first[22] && b[23] == first[23]);
    assert(b[28] == second[28] && b[29] == second[29] && b[30] == second[30] && b[31]
        == second[31]);
    if check.nominate {
        assert(b[40] == third[40] && b[41] == third[41] && b[42] == third[42] && b[43]
            == third[43]);
    }
}

/// A check has its parts in their places before it is signed.
proof fn lemma_unsigned(transaction: Seq<u8>, check: CheckParameters)
    requires
        transaction.len() == 12,
    ensures
        ({
            let b = conncheck::unsigned_check(transaction, check);
            has_parts(b, check, b.len() as int)
        }),
{
    let start = message::request_header(transaction);
    let priority = message::be32(check.priority);
    lemma_with_attribute(start, conncheck::PRIORITY, priority);
    let first = message::with_attribute(start, conncheck::PRIORITY, priority);
    let role = if check.controlling {
        conncheck::ICE_CONTROLLING
    } else {
        conncheck::ICE_CONTROLLED
    };
    let tie_breaker = message::be64(check.tie_breaker);
    lemma_with_attribute(first, role, tie_breaker);
    let second = message::with_attribute(first, role, tie_breaker);
    lemma_with_attribute(second, conncheck::USE_CANDIDATE, Seq::empty());
    let third = if check.nominate {
        message::with_attribute(second, conncheck::USE_CANDIDATE, Seq::empty())
    } else {
        second
    };
    let name = name_bytes(check.local_credentials, check.remote_credentials);
    lemma_with_attribute(third, message::USERNAME, name);
    let b = message::with_attribute(third, message::USERNAME, name);
    lemma_parts(start, first, second, third, b, check);
}

/// The parts stay in their places where only the length field and what comes
/// behind them differ.
proof fn lemma_parts_kept(b: Seq<u8>, c: Seq<u8>, check: CheckParameters, end: int)
    requires
        has_parts(b, check, end),
        end <= c.len(),
        forall|k: int| 4 <= k < end ==> #[trigger] c[k] == b[k],
    ensures
        has_parts(c, check, end),
{
    let m: int = if check.nominate {
        44
    } else {
        40
    };
    let n = name_bytes(check.local_credentials, check.remote_credentials).len() as int;
    assert(c.subrange(m + 4, m + 4 + n) =~= b.subrange(m + 4, m + 4 + n));
}

/// What signing with a value of twenty bytes writes.
proof fn lemma_signed(unsigned: Seq<u8>, password: Seq<char>, signature: Seq<u8>)
    requires
        unsigned.len() >= 20,
        signature == message::integrity_value(
            password,
            message::with_length(unsigned, unsigned.len() + 4int),
        ),
        signature.len() == 20,
    ensures
        placed(unsigned, message::with_integrity(unsigned, password), 0x0008, signature),
        message::with_integrity(unsigned, password).take(unsigned.len() as int)
            == message::with_length(unsigned, unsigned.len() + 4int),
        message::with_integrity(unsigned, password).take(4) == unsigned.take(2) + message::be16(
            unsigned.len() + 4int,
        ),
{
    let body = unsigned.len() + 4int;
    let written = message::attribute(0x0008, signature);
    let after = message::with_length(unsigned, body) + written;
    assert(after == message::with_integrity(unsigned, password));
    lemma_written(unsigned, body, 0x0008, signature);
    assert forall|k: int| 4 <= k < unsigned.len() implies #[trigger] after[k] == unsigned[k] by {
        lemma_kept_byte(unsigned, body, written, k);
    }
    assert(after.take(unsigned.len() as int) =~= message::with_length(unsigned, body));
    assert(after.take(4) =~= unsigned.take(2) + message::be16(body));
}

/// What a fingerprint of four bytes writes.
proof fn lemma_fingerprinted(signed: Seq<u8>, fingerprint: Seq<u8>)
    requires
        signed.len() >= 20,
        fingerprint == message::fingerprint_value(
            message::with_length(signed, signed.len() - 12),
        ),
        fingerprint.len() == 4,
    ensures
        placed(signed, message::with_fingerprint(signed), 0x8028, fingerprint),
        message::with_fingerprint(signed).take(signed.len() as int) == message::with_length(
            signed,
            signed.len() - 12,
        ),
        message::with_fingerprint(signed).take(4) == signed.take(2) + message::be16(
            signed.len() - 12,
        ),
{
    let body = signed.len() - 12;
    let written = message::attribute(0x8028, fingerprint);
    let after = message::with_length(signed, body) + written;
    assert(after == message::with_fingerprint(signed));
    lemma_written(signed, body, 0x8028, fingerprint);
    assert forall|k: int| 4 <= k < signed.len() implies #[trigger] after[k] == signed[k] by {
        lemma_kept_byte(signed, body, written, k);
    }
    assert(after.take(signed.len() as int) =~= message::with_length(signed, body));
    assert(after.take(4) =~= signed.take(2) + message::be16(body));
}

/// A message without its length field set anew is what a signature covers.
proof fn lemma_covered(unsigned: Seq<u8>, bytes: Seq<u8>)
    requires
        20 <= unsigned.len() <= bytes.len(),
        bytes[0] == unsigned[0],
        bytes[1] == unsigned[1],
        forall|k: int| 4 <= k < unsigned.len() ==> #[trigger] bytes[k] == unsigned[k],
    ensures
        message::with_length(unsigned, unsigned.len() + 4int) == bytes.take(
            unsigned.len() as int,
        ).update(2, (((unsigned.len() + 4int) / 256) % 256) as u8).update(
            3,
            ((unsigned.len() + 4int) % 256) as u8,
        ),
{
    let covered = message::with_length(unsigned, unsigned.len() + 4int);
    let there = bytes.take(unsigned.len() as int).update(
        2,
        (((unsigned.len() + 4int) / 256) % 256) as u8,
    ).update(3, ((unsigned.len() + 4int) % 256) as u8);
    assert forall|k: int| 0 <= k < covered.len() implies covered[k] == there[k] by {
        if k >= 4 {
            assert(bytes[k] == unsigned[k]);
        }
    }
    assert(covered =~= there);
}

/// Whether bytes are laid out as a check: a Binding request with the magic cookie
/// and the length of what follows the header.  Behind the header stand the
/// priority, the role and the tie breaker, the nomination if there is one, and
/// the user name; then the signature under the password of the peer of all that
/// comes before it, with a length field that counts the signature too; and last
/// the fingerprint of all that comes before it.  There is nothing else.
pub open spec fn laid_out(bytes: Seq<u8>, check: CheckParameters) -> bool {
    let end = bytes.len() - 32;
    &&& bytes[0] == 0 && bytes[1] == 1
    &&& bytes[2] == ((end + 12) / 256) % 256 && bytes[3] == (end + 12) % 256
    &&& bytes[4] == 0x21 && bytes[5] == 0x12 && bytes[6] == 0xa4 && bytes[7] == 0x42
    &&& has_parts(bytes, check, end)
    &&& bytes[end] == 0 && bytes[end + 1] == 8 && bytes[end + 2] == 0 && bytes[end + 3] == 20
    &&& bytes.subrange(end + 4, end + 24) == message::integrity_value(
        check.remote_credentials.passwd@,
        bytes.take(end).update(2, (((end + 4) / 256) % 256) as u8).update(
            3,
            ((end + 4) % 256) as u8,
        ),
    )
    &&& bytes[end + 24] == 0x80 && bytes[end + 25] == 0x28 && bytes[end + 26] == 0 && bytes[end
        + 27] == 4
    &&& bytes.subrange(end + 28, end + 32) == message::fingerprint_value(bytes.take(end + 24))
}

/// The layout of a check, from the three steps in which it is written.
proof fn lemma_layout(
    bytes: Seq<u8>,
    check: CheckParameters,
    unsigned: Seq<u8>,
    signed: Seq<u8>,
    signature: Seq<u8>,
    fingerprint: Seq<u8>,
)
    requires
        unsigned.len() >= 20,
        has_parts(unsigned, check, unsigned.len() as int),
        message::is_binding_request(unsigned),
        placed(unsigned, signed, 0x0008, signature),
        signature.len() == 20,
        signed.take(unsigned.len() as int) == message::with_length(
            unsigned,
            unsigned.len() + 4int,
        ),
        signed.take(4) == unsigned.take(2) + message::be16(unsigned.len() + 4int),
        placed(signed, bytes, 0x8028, fingerprint),
        fingerprint.len() == 4,
        bytes.take(signed.len() as int) == message::with_length(signed, signed.len() - 12),
        bytes.take(4) == signed.take(2) + message::be16(signed.len() - 12),
        signature == message::integrity_value(
            check.remote_credentials.passwd@,
            message::with_length(unsigned, unsigned.len() + 4int),
        ),
        fingerprint == message::fingerprint_value(
            message::with_length(signed, signed.len() - 12),
        ),
    ensures
        laid_out(bytes, check),
{
    let end = unsigned.len() as int;
    assert(signed.len() == end + 24);
    assert(bytes.len() == end + 32);
    assert forall|k: int| 4 <= k < end implies #[trigger] bytes[k] == unsigned[k] by {
        assert(signed[k] == unsigned[k]);
    }
    lemma_parts_kept(unsigned, bytes, check, end);
    let head = bytes.take(4);
    let signed_head = signed.take(4);
    assert(signed[0] == signed_head[0] && signed[1] == signed_head[1]);
    assert(signed.take(2)[0] == signed[0] && signed.take(2)[1] == signed[1]);
    assert(bytes[0] == head[0] && bytes[1] == head[1] && bytes[2] == head[2] && bytes[3]
        == head[3]);
    lemma_covered(unsigned, bytes);
    assert(bytes.subrange(end + 4, end + 24) =~= signed.subrange(end + 4, end + 24)) by {
        assert forall|k: int| end + 4 <= k < end + 24 implies #[trigger] bytes[k]
            == signed[k] by {}
    }
    assert(bytes[end] == signed[end] && bytes[end + 1] == signed[end + 1] && bytes[end + 2]
        == signed[end + 2] && bytes[end + 3] == signed[end + 3]);
}

/// Signing a message that has the parts, and adding the fingerprint, lays it out
/// as a check.
proof fn lemma_laid_out(
    unsigned: Seq<u8>,
    check: CheckParameters,
    signature: Seq<u8>,
    fingerprint: Seq<u8>,
)
    requires
        has_parts(unsigned, check, unsigned.len() as int),
        message::is_binding_request(unsigned),
        signature.len() == 20,
        signature == message::integrity_value(
            check.remote_credentials.passwd@,
            message::with_length(unsigned, unsigned.len() + 24 - message::HEADER_LENGTH),
        ),
        fingerprint.len() == 4,
        ({
            let signed = message::with_integrity(unsigned, check.remote_credentials.passwd@);
            fingerprint == message::fingerprint_value(
                message::with_length(signed, signed.len() + 8 - message::HEADER_LENGTH),
            )
        }),
    ensures
        laid_out(
            message::with_fingerprint(
                message::with_integrity(unsigned, check.remote_credentials.passwd@),
            ),
            check,
        ),
{
    let password = check.remote_credentials.passwd@;
    let signed = message::with_integrity(unsigned, password);
    lemma_signed(unsigned, password, signature);
    lemma_fingerprinted(signed, fingerprint);
    let bytes = message::with_fingerprint(signed);
    lemma_layout(bytes, check, unsigned, signed, signature, fingerprint);
}

/// A check can be written exactly where its user name has no more than 513
/// bytes.
pub proof fn law_check_fits(local: Credentials, remote: Credentials)
    ensures
        message::username_fits(conncheck::check_username(local, remote)) <==> name_bytes(
            local,
            remote,
        ).len() <= 513,
{
}

/// Every check is laid out as one.
pub proof fn law_check_layout(bytes: Seq<u8>, check: CheckParameters)
    requires
        conncheck::is_check(bytes, check),
    ensures
        laid_out(bytes, check),
{
    let transaction = choose|transaction: Seq<u8>|
        {
            &&& transaction.len() == 12
            &&& bytes == #[trigger] conncheck::check_bytes(transaction, check)
            &&& conncheck::check_signature(transaction, check).len() == 20
            &&& conncheck::check_fingerprint(transaction, check).len() == 4
        };
    lemma_unsigned(transaction, check);
    conncheck::lemma_unsigned_check(transaction, check);
    lemma_laid_out(
        conncheck::unsigned_check(transaction, check),
        check,
        conncheck::check_signature(transaction, check),
        conncheck::check_fingerprint(transaction, check),
    );
}

} // verus!
