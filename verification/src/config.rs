//! Settings of the notification front end: the gateway token and the guild,
//! role, channel and category identifiers it works with.

use vstd::prelude::*;

verus! {

/// Identifiers the interaction front end needs. A blank token means the
/// configuration was never filled in and the front end must not start.
pub struct DiscordConfig {
    /// Gateway authentication token; empty until configured.
    pub token: String,
    /// The guild the front end serves.
    pub guild_id: u64,
    /// Role granted on approval.
    pub verified_role_id: u64,
    /// Role whose holders may post the pinned messages.
    pub moderator_role_id: u64,
    /// Channel that receives verification codes.
    pub verification_channel_id: u64,
    /// Channel that carries the review notifications.
    pub member_channel_id: u64,
    /// Channel that offers ticket creation.
    pub ticket_channel_id: u64,
    /// Category holding open tickets.
    pub active_ticket_category_id: u64,
    /// Category holding closed tickets.
    pub archive_ticket_category_id: u64,
}

impl DiscordConfig {
    /// The configuration written out when none exists yet: everything blank,
    /// to be filled in by hand.
    pub fn default() -> (r: DiscordConfig)
        ensures
            r.token@.len() == 0,
            r.guild_id == 0,
            r.verified_role_id == 0,
            r.moderator_role_id == 0,
            r.verification_channel_id == 0,
            r.member_channel_id == 0,
            r.ticket_channel_id == 0,
            r.active_ticket_category_id == 0,
            r.archive_ticket_category_id == 0,
    {
        DiscordConfig {
            token: String::new(),
            guild_id: 0,
            verified_role_id: 0,
            moderator_role_id: 0,
            verification_channel_id: 0,
            member_channel_id: 0,
            ticket_channel_id: 0,
            active_ticket_category_id: 0,
            archive_ticket_category_id: 0,
        }
    }
}

} // verus!
