//! The coordination protocol's message catalog, the authority's dispatch of
//! one conversation, and the byte-level form of the connect exchange.

use crate::codec::be32_bytes;
use crate::codec::str_len_at;
use crate::codec::str_payload_at;
use crate::codec::Buffer;
use crate::codec::CodecError;
use crate::codec::BUFFER_SIZE;
use crate::record::CODE_MAX;
use crate::record::CODE_MIN;
use crate::record::CODE_TTL_MILLIS;
use crate::table::claim_post;
use crate::table::approval_post;
use crate::table::connect_post;
use crate::table::link_post;
use crate::table::remove_post;
use crate::table::ClaimResult;
use crate::table::UserTable;
use vstd::prelude::*;
use vstd::utf8::decode_utf8;
use vstd::utf8::encode_utf8;
use vstd::utf8::valid_utf8;

verus! {

/// The messages exchanged over a conversation between a front end and the
/// authority.
pub enum Packet {
    /// A player connected: display name, then identity.
    ConnectQuery(String, String),
    /// The text to show the connecting player; empty means proceed.
    ConnectResponse(String),
    /// A chat account submitted a code: the code, then the account id.
    DiscordCode(i32, u64),
    /// A moderator approved the record carrying this identity.
    DiscordApproval(String),
    /// A code claim succeeded: identity, then display name.
    VerifyPending(String, String),
    /// The handle of the review notification the front end created.
    LinkVerifyMessage(u64),
    /// The submitting chat account already holds a record.
    AlreadyLinked,
    /// No record holds the submitted code.
    VerifyCodeInvalid,
    /// Unlink this chat account and discard its record.
    RemoveUser(u64),
    /// The handle of the notification to retract after a removal.
    RemoveMessage(u64),
    /// The approval was applied.
    ApprovalSuccess,
    /// There was no record to approve.
    ApprovalFailure,
}

/// What the authority does with a conversation after one request.
pub enum Dispatch {
    /// Send this reply and finish the conversation.
    Reply(Packet),
    /// Send this reply, then wait for the front end's `LinkVerifyMessage`.
    ReplyAwaitLink(Packet),
    /// Finish the conversation without a reply.
    Silent,
    /// The request was no request at all; abandon the conversation.
    Violation,
}

/// One dispatch outcome: the action on the conversation, and whether the
/// table must be snapshotted.
pub struct Step {
    /// The action on the conversation.
    pub action: Dispatch,
    /// The table changed in a way the snapshot must capture.
    pub dirty: bool,
}

/// Serves one incoming request against the table, as the authority does for
/// each conversation it drains: connect queries may create a record, code
/// claims link one, approvals promote one, removals delete one, and any
/// reply-kind message in request position is a protocol violation that
/// changes nothing.
pub fn handle_packet(table: &mut UserTable, packet: Packet, now: u128) -> (r: Step)
    requires
        old(table).wf(),
        old(table)@.len() < CODE_MAX - CODE_MIN,
        now + CODE_TTL_MILLIS <= u128::MAX,
    ensures
        final(table).wf(),
        packet matches Packet::ConnectQuery(name, uuid) ==> (!r.dirty && (
        r.action matches Dispatch::Reply(p) && (p matches Packet::ConnectResponse(s)
            && connect_post(old(table)@, final(table)@, name@, uuid@, now, s@)))),
        packet matches Packet::DiscordCode(code, user) ==> ({
            &&& exists|c: ClaimResult| claim_post(old(table)@, final(table)@, code, user, c)
            &&& (crate::table::has_discord(old(table)@, user) ==> !r.dirty && (
            r.action matches Dispatch::Reply(p) && p is AlreadyLinked))
            &&& ((!crate::table::has_discord(old(table)@, user) && !crate::table::has_live_code(
                old(table)@,
                code,
            )) ==> !r.dirty && (r.action matches Dispatch::Reply(p) && p is VerifyCodeInvalid))
            &&& ((!crate::table::has_discord(old(table)@, user) && crate::table::has_live_code(
                old(table)@,
                code,
            )) ==> r.dirty && (r.action matches Dispatch::ReplyAwaitLink(p) && (
            p matches Packet::VerifyPending(uuid, name) && {
                let i = crate::table::code_index(old(table)@, code);
                uuid@ == old(table)@[i].uuid@ && name@ == old(table)@[i].name@
            })))
        }),
        packet matches Packet::DiscordApproval(uuid) ==> ({
            let ok = crate::table::has_uuid(old(table)@, uuid@) && crate::table::durable(
                old(table)@[crate::table::uuid_index(old(table)@, uuid@)],
            );
            &&& approval_post(old(table)@, final(table)@, uuid@, ok)
            &&& r.dirty == ok
            &&& (ok ==> (r.action matches Dispatch::Reply(p) && p is ApprovalSuccess))
            &&& (!ok ==> (r.action matches Dispatch::Reply(p) && p is ApprovalFailure))
        }),
        packet matches Packet::RemoveUser(id) ==> ({
            &&& r.dirty
            &&& exists|m: Option<u64>| remove_post(old(table)@, final(table)@, id, m)
            &&& ((crate::table::has_discord(old(table)@, id) && old(table)@[crate::table::discord_index(
                old(table)@,
                id,
            )].verify_message is Some) ==> (r.action matches Dispatch::Reply(p) && (
            p matches Packet::RemoveMessage(m) && Some(m) == old(table)@[crate::table::discord_index(
                old(table)@,
                id,
            )].verify_message)))
            &&& (!(crate::table::has_discord(old(table)@, id) && old(table)@[crate::table::discord_index(
                old(table)@,
                id,
            )].verify_message is Some) ==> r.action is Silent)
        }),
        !(packet matches Packet::ConnectQuery(..) || packet matches Packet::DiscordCode(..)
            || packet matches Packet::DiscordApproval(..) || packet matches Packet::RemoveUser(
            ..,
        )) ==> (final(table)@ == old(table)@ && r.action is Violation && !r.dirty),
{
    match packet {
        Packet::ConnectQuery(name, uuid) => {
            let reply = table.connect_query(&name, &uuid, now);
            Step { action: Dispatch::Reply(Packet::ConnectResponse(reply)), dirty: false }
        },
        Packet::DiscordCode(code, user) => {
            match table.discord_code(code, user) {
                ClaimResult::AlreadyLinked => {
                    Step { action: Dispatch::Reply(Packet::AlreadyLinked), dirty: false }
                },
                ClaimResult::Invalid => {
                    Step { action: Dispatch::Reply(Packet::VerifyCodeInvalid), dirty: false }
                },
                ClaimResult::Claimed { uuid, name } => {
                    Step {
                        action: Dispatch::ReplyAwaitLink(Packet::VerifyPending(uuid, name)),
                        dirty: true,
                    }
                },
            }
        },
        Packet::DiscordApproval(uuid) => {
            if table.discord_approval(&uuid) {
                Step { action: Dispatch::Reply(Packet::ApprovalSuccess), dirty: true }
            } else {
                Step { action: Dispatch::Reply(Packet::ApprovalFailure), dirty: false }
            }
        },
        Packet::RemoveUser(id) => {
            match table.remove_user(id) {
                Some(m) => Step { action: Dispatch::Reply(Packet::RemoveMessage(m)), dirty: true },
                None => Step { action: Dispatch::Silent, dirty: true },
            }
        },
        _ => Step { action: Dispatch::Violation, dirty: false },
    }
}

/// Serves the follow-up message of a code claim: a `LinkVerifyMessage`
/// stores its handle on the record carrying `uuid` and succeeds; anything
/// else is a protocol violation that changes nothing.
pub fn handle_link_message(table: &mut UserTable, uuid: &String, packet: Packet) -> (r: bool)
    requires
        old(table).wf(),
    ensures
        final(table).wf(),
        packet matches Packet::LinkVerifyMessage(m) ==> (r && link_post(
            old(table)@,
            final(table)@,
            uuid@,
            m,
        )),
        !(packet matches Packet::LinkVerifyMessage(..)) ==> (!r && final(table)@ == old(table)@),
{
    match packet {
        Packet::LinkVerifyMessage(m) => {
            table.link_verify_message(uuid, m);
            true
        },
        _ => false,
    }
}

/// Whether a well-formed length-prefixed string starts at `r` and ends by
/// `w` in `b`.
pub open spec fn string_at_ok(b: Seq<u8>, r: int, w: int) -> bool {
    &&& r + 4 <= w
    &&& r + 4 + str_len_at(b, r) <= w
    &&& valid_utf8(str_payload_at(b, r))
}

/// The characters of the string starting at `r` in `b`.
pub open spec fn string_at(b: Seq<u8>, r: int) -> Seq<char> {
    decode_utf8(str_payload_at(b, r))
}

/// The position just past the string starting at `r` in `b`.
pub open spec fn after_string(b: Seq<u8>, r: int) -> int {
    r + 4 + str_len_at(b, r)
}

/// Which error reading a string at `r` reports when it is not well-formed.
pub open spec fn string_err(b: Seq<u8>, r: int, w: int) -> CodecError {
    if r + 4 > w || r + 4 + str_len_at(b, r) > w {
        CodecError::BufferUnderrun
    } else {
        CodecError::Malformed
    }
}

/// Decodes one request frame: a one-byte kind, then, for the connect kind,
/// the identity and display name. Any other kind is ignored, as the wire
/// format reserves it.
pub fn decode_request(buf: &mut Buffer) -> (r: Result<Option<Packet>, CodecError>)
    requires
        old(buf).wf(),
    ensures
        final(buf).wf(),
        final(buf).bytes() == old(buf).bytes(),
        final(buf).wpos() == old(buf).wpos(),
        old(buf).rpos() >= old(buf).wpos() ==> r == Err::<Option<Packet>, CodecError>(
            CodecError::BufferUnderrun,
        ),
        (old(buf).rpos() < old(buf).wpos() && old(buf).bytes()[old(buf).rpos()] != 0) ==> r
            == Ok::<Option<Packet>, CodecError>(None),
        (old(buf).rpos() < old(buf).wpos() && old(buf).bytes()[old(buf).rpos()] == 0) ==> ({
            let b = old(buf).bytes();
            let w = old(buf).wpos();
            let p1 = old(buf).rpos() + 1;
            &&& (!string_at_ok(b, p1, w) ==> r == Err::<Option<Packet>, CodecError>(
                string_err(b, p1, w),
            ))
            &&& ((string_at_ok(b, p1, w) && !string_at_ok(b, after_string(b, p1), w)) ==> r
                == Err::<Option<Packet>, CodecError>(string_err(b, after_string(b, p1), w)))
            &&& ((string_at_ok(b, p1, w) && string_at_ok(b, after_string(b, p1), w)) ==> (
            r matches Ok(op) && op matches Some(p) && (p matches Packet::ConnectQuery(name, uuid)
                && uuid@ == string_at(b, p1) && name@ == string_at(b, after_string(b, p1)))))
        }),
{
    let kind = match buf.next_u8() {
        Ok(k) => k,
        Err(e) => {
            return Err(e);
        },
    };
    if kind != 0 {
        return Ok(None);
    }
    let uuid = match buf.next_string() {
        Ok(s) => s,
        Err(e) => {
            return Err(e);
        },
    };
    let name = match buf.next_string() {
        Ok(s) => s,
        Err(e) => {
            return Err(e);
        },
    };
    Ok(Some(Packet::ConnectQuery(name, uuid)))
}

/// Encodes the reply frame of the connect exchange: the connect kind byte
/// followed by the response text, written over a rewound buffer.
pub fn encode_connect_response(buf: &mut Buffer, response: String) -> (r: Result<(), CodecError>)
    requires
        old(buf).wf(),
    ensures
        final(buf).wf(),
        5 + encode_utf8(response@).len() <= BUFFER_SIZE ==> (r == Ok::<(), CodecError>(())
            && final(buf).rpos() == 0 && final(buf).wpos() == 5 + encode_utf8(response@).len() as int
            && final(buf).bytes() =~= seq![0u8] + be32_bytes(encode_utf8(response@).len() as u32)
            + encode_utf8(response@) + old(buf).bytes().subrange(
            5 + encode_utf8(response@).len() as int,
            BUFFER_SIZE as int,
        )),
        5 + encode_utf8(response@).len() > BUFFER_SIZE ==> r == Err::<(), CodecError>(
            CodecError::BufferOverflow,
        ),
    {
        buf.reset();
        match buf.put_u8(0) {
            Ok(()) => {},
            Err(e) => {
                return Err(e);
            },
        }
        match buf.put_string(response) {
            Ok(()) => {
                proof {
                    let b0 = old(buf).bytes();
                    let plen = encode_utf8(response@).len() as int;
                    let b1 = b0.update(0, 0u8);
                    assert(b1.subrange(0, 1) =~= seq![0u8]);
                    assert(b1.subrange(5 + plen, BUFFER_SIZE as int) =~= b0.subrange(
                        5 + plen,
                        BUFFER_SIZE as int,
                    ));
                    assert(buf.bytes() =~= seq![0u8] + be32_bytes(
                        encode_utf8(response@).len() as u32,
                    ) + encode_utf8(response@) + b0.subrange(5 + plen, BUFFER_SIZE as int));
                }
                Ok(())
            },
            Err(e) => Err(e),
        }
    }

} // verus!
