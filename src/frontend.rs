use vstd::prelude::*;

use crate::buffer::MutBytes;
use crate::codec::{be_bytes, be_value, lemma_be_round_trip};
use crate::error::ProtocolError;
use vstd::string::StringSliceAdditionalSpecFns;

verus! {

/// The protocol version tag sent at the head of a startup message (3.0).
pub const PROTOCOL_VERSION: u32 = 0x0003_0000;

/// The tag byte that opens a simple query message (`'Q'`).
pub const QUERY_TAG: u8 = 0x51;

/// `s` followed by its 0x00 terminator.
pub open spec fn cstring(s: Seq<u8>) -> Seq<u8> {
    s.push(0)
}

/// `body` behind the 4-byte big-endian length field that counts itself and `body`.
pub open spec fn frame(body: Seq<u8>) -> Seq<u8> {
    be_bytes((body.len() + 4) as u32) + body
}

/// A frame holding `body` fits the 32-bit length field.
pub open spec fn frame_fits(body: Seq<u8>) -> bool {
    body.len() + 4 <= u32::MAX
}

/// The parameter list of a startup message: each key, then its value, as C-strings.
pub open spec fn params_bytes(p: Seq<(&str, &str)>) -> Seq<u8>
    decreases p.len(),
{
    if p.len() == 0 {
        Seq::empty()
    } else {
        params_bytes(p.drop_last()) + cstring(p.last().0.spec_bytes()) + cstring(
            p.last().1.spec_bytes(),
        )
    }
}

/// Some key or value of `p` holds a 0x00 byte.
pub open spec fn params_have_null(p: Seq<(&str, &str)>) -> bool {
    exists|i: int|
        0 <= i < p.len() && (p[i].0.spec_bytes().contains(0) || p[i].1.spec_bytes().contains(0))
}

/// The body of a startup message: version tag, parameters, closing 0x00.
pub open spec fn startup_body(p: Seq<(&str, &str)>) -> Seq<u8> {
    be_bytes(PROTOCOL_VERSION) + params_bytes(p) + seq![0u8]
}

/// The bytes of a simple query message for the query text `sql`.
pub open spec fn query_bytes(sql: Seq<u8>) -> Seq<u8> {
    seq![QUERY_TAG] + frame(cstring(sql))
}

/// Whatever body a frame carries, its first four bytes, read big-endian, give the
/// length of the frame from the length field through the end of the body, and the
/// body follows unchanged.
pub proof fn lemma_frame_declares_its_length(prefix: Seq<u8>, body: Seq<u8>)
    requires
        frame_fits(body),
    ensures
        be_value((prefix + frame(body)).subrange(prefix.len() as int, prefix.len() as int + 4))
            == (prefix + frame(body)).len() - prefix.len(),
        (prefix + frame(body)).subrange(prefix.len() as int + 4, (prefix + frame(body)).len() as int)
            == body,
{
    let all = prefix + frame(body);
    lemma_be_round_trip((body.len() + 4) as u32);
    assert(all.subrange(prefix.len() as int, prefix.len() as int + 4) =~= be_bytes(
        (body.len() + 4) as u32,
    ));
    assert(all.subrange(prefix.len() as int + 4, all.len() as int) =~= body);
}

/// Opens a frame: appends a 4-byte placeholder for its length and returns where
/// the frame starts.
pub fn reserve_frame(buf: &mut MutBytes) -> (start: usize)
    ensures
        start == old(buf)@.len(),
        final(buf)@ == old(buf)@ + seq![0u8, 0u8, 0u8, 0u8],
{
    let start = buf.len();
    buf.extend_from_slice(&[0u8, 0u8, 0u8, 0u8]);
    assert([0u8, 0u8, 0u8, 0u8]@ =~= seq![0u8, 0u8, 0u8, 0u8]);
    start
}

/// Closes the frame opened at `start`: writes into its placeholder the number of
/// bytes from `start` to the end of the buffer.
///
/// `Bounds` when no 4-byte placeholder lies at `start`; `MessageTooLarge` when
/// the frame is longer than a `u32` can say. On failure nothing changes.
pub fn commit_frame(buf: &mut MutBytes, start: usize) -> (r: Result<(), ProtocolError>)
    ensures
        start + 4 > old(buf)@.len() ==> r == Err::<(), ProtocolError>(ProtocolError::Bounds),
        start + 4 <= old(buf)@.len() && old(buf)@.len() - start > u32::MAX ==> r == Err::<
            (),
            ProtocolError,
        >(ProtocolError::MessageTooLarge),
        r is Err ==> final(buf)@ == old(buf)@,
        start + 4 <= old(buf)@.len() && old(buf)@.len() - start <= u32::MAX ==> r is Ok,
        r is Ok ==> final(buf)@ == old(buf)@.subrange(0, start as int) + frame(
            old(buf)@.subrange(start + 4, old(buf)@.len() as int),
        ),
{
    let len = buf.len();
    if start > len || len - start < 4 {
        return Err(ProtocolError::Bounds);
    }
    if len - start > 0xFFFF_FFFF {
        return Err(ProtocolError::MessageTooLarge);
    }
    let r = buf.write_u32(start..start + 4, (len - start) as u32);
    assert(r is Ok);
    r
}

/// Whether `s` holds a 0x00 byte.
pub fn contains_null(s: &[u8]) -> (r: bool)
    ensures
        r == s@.contains(0),
{
    let mut i: usize = 0;
    while i < s.len()
        invariant
            i <= s@.len(),
            forall|j: int| 0 <= j < i ==> s@[j] != 0,
        decreases s@.len() - i,
    {
        if s[i] == 0 {
            assert(s@[i as int] == 0);
            return true;
        }
        i = i + 1;
    }
    false
}

/// Appends `s` and a 0x00 terminator, or fails with `EmbeddedNull`, appending
/// nothing, when `s` holds a 0x00 byte.
pub fn write_cstr(s: &[u8], buf: &mut MutBytes) -> (r: Result<(), ProtocolError>)
    ensures
        s@.contains(0) <==> r is Err,
        r is Err ==> r == Err::<(), ProtocolError>(ProtocolError::EmbeddedNull),
        r is Err ==> final(buf)@ == old(buf)@,
        r is Ok ==> final(buf)@ == old(buf)@ + cstring(s@),
{
    if contains_null(s) {
        return Err(ProtocolError::EmbeddedNull);
    }
    buf.extend_from_slice(s);
    buf.put_u8(&[0u8]);
    assert([0u8]@ =~= seq![0u8]);
    assert(buf@ =~= old(buf)@ + cstring(s@));
    Ok(())
}

/// Appends a startup message carrying `params`, in order: a frame whose body is
/// the protocol version, each key and value as a C-string, and a closing 0x00.
///
/// Fails with `EmbeddedNull` when a key or value holds a 0x00 byte, and with
/// `MessageTooLarge` when the frame outgrows its length field; the buffer is then
/// to be discarded.
pub fn startup_message(params: &[(&str, &str)], buf: &mut MutBytes) -> (r: Result<
    (),
    ProtocolError,
>)
    ensures
        params_have_null(params@) <==> r == Err::<(), ProtocolError>(ProtocolError::EmbeddedNull),
        !params_have_null(params@) && !frame_fits(startup_body(params@)) <==> r == Err::<
            (),
            ProtocolError,
        >(ProtocolError::MessageTooLarge),
        !params_have_null(params@) && frame_fits(startup_body(params@)) ==> r is Ok,
        r is Ok ==> final(buf)@ == old(buf)@ + frame(startup_body(params@)),
        r is Err ==> final(buf)@.len() >= old(buf)@.len() && final(buf)@.subrange(
            0,
            old(buf)@.len() as int,
        ) == old(buf)@,
{
    let start = reserve_frame(buf);
    buf.put_u32(PROTOCOL_VERSION);
    let ghost head = old(buf)@ + seq![0u8, 0u8, 0u8, 0u8] + be_bytes(PROTOCOL_VERSION);
    let mut i: usize = 0;
    while i < params.len()
        invariant
            i <= params@.len(),
            start == old(buf)@.len(),
            head == old(buf)@ + seq![0u8, 0u8, 0u8, 0u8] + be_bytes(PROTOCOL_VERSION),
            buf@ == head + params_bytes(params@.take(i as int)),
            forall|j: int|
                0 <= j < i ==> !params@[j].0.spec_bytes().contains(0) && !params@[j].1.spec_bytes().contains(0),
        decreases params@.len() - i,
    {
        let (key, value) = params[i];
        let ghost taken = params@.take(i as int);
        match write_cstr(key.as_bytes(), buf) {
            Ok(()) => {},
            Err(e) => {
                assert(params_have_null(params@)) by {
                    assert(params@[i as int].0.spec_bytes().contains(0));
                }
                assert(buf@.subrange(0, old(buf)@.len() as int) =~= old(buf)@);
                return Err(e);
            },
        }
        match write_cstr(value.as_bytes(), buf) {
            Ok(()) => {},
            Err(e) => {
                assert(params_have_null(params@)) by {
                    assert(params@[i as int].1.spec_bytes().contains(0));
                }
                assert(buf@.subrange(0, old(buf)@.len() as int) =~= old(buf)@);
                return Err(e);
            },
        }
        assert(params@.take(i + 1).drop_last() =~= taken);
        assert(params@.take(i + 1).last() == params@[i as int]);
        i = i + 1;
    }
    buf.put_u8(&[0u8]);
    assert([0u8]@ =~= seq![0u8]);
    assert(params@.take(i as int) =~= params@);
    let ghost body = startup_body(params@);
    assert(buf@ =~= old(buf)@ + seq![0u8, 0u8, 0u8, 0u8] + body);
    assert(buf@.subrange(0, start as int) =~= old(buf)@);
    assert(buf@.subrange(start + 4, buf@.len() as int) =~= body);
    assert(!params_have_null(params@));
    assert(buf@.subrange(0, old(buf)@.len() as int) =~= old(buf)@);
    commit_frame(buf, start)
}

/// Appends a simple query message for `sql`: the tag byte `'Q'`, then a frame
/// whose body is `sql` as a C-string. The length field counts itself and the
/// body, not the tag byte.
///
/// Fails with `EmbeddedNull` when `sql` holds a 0x00 byte, and with
/// `MessageTooLarge` when the frame outgrows its length field; the buffer is then
/// to be discarded.
pub fn query(sql: &str, buf: &mut MutBytes) -> (r: Result<(), ProtocolError>)
    ensures
        sql.spec_bytes().contains(0) <==> r == Err::<(), ProtocolError>(ProtocolError::EmbeddedNull),
        !sql.spec_bytes().contains(0) && !frame_fits(cstring(sql.spec_bytes())) <==> r == Err::<
            (),
            ProtocolError,
        >(ProtocolError::MessageTooLarge),
        !sql.spec_bytes().contains(0) && frame_fits(cstring(sql.spec_bytes())) ==> r is Ok,
        r is Ok ==> final(buf)@ == old(buf)@ + query_bytes(sql.spec_bytes()),
        r == Err::<(), ProtocolError>(ProtocolError::EmbeddedNull) ==> final(buf)@ == old(buf)@
            + seq![QUERY_TAG, 0u8, 0u8, 0u8, 0u8],
        r is Err ==> final(buf)@.len() >= old(buf)@.len() && final(buf)@.subrange(
            0,
            old(buf)@.len() as int,
        ) == old(buf)@,
{
    buf.put_u8(&[QUERY_TAG]);
    assert([QUERY_TAG]@ =~= seq![QUERY_TAG]);
    let start = reserve_frame(buf);
    if let Err(e) = write_cstr(sql.as_bytes(), buf) {
        assert(buf@ =~= old(buf)@ + seq![QUERY_TAG, 0u8, 0u8, 0u8, 0u8]);
        assert(buf@.subrange(0, old(buf)@.len() as int) =~= old(buf)@);
        return Err(e);
    }
    let ghost body = cstring(sql.spec_bytes());
    assert(buf@ =~= old(buf)@ + seq![QUERY_TAG] + seq![0u8, 0u8, 0u8, 0u8] + body);
    assert(buf@.subrange(0, start as int) =~= old(buf)@ + seq![QUERY_TAG]);
    assert(buf@.subrange(start + 4, buf@.len() as int) =~= body);
    let r = commit_frame(buf, start);
    assert(r is Ok ==> buf@ =~= old(buf)@ + query_bytes(sql.spec_bytes()));
    assert(r is Err ==> buf@.subrange(0, old(buf)@.len() as int) =~= old(buf)@);
    r
}

} // verus!
