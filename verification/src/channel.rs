//! Guilds, channels, roles, members, invites and bans as the API carries them.

use vstd::prelude::*;
use crate::permissions::Permissions;
use crate::snowflake::Snowflake;

verus! {
#[derive(Debug, Clone, Copy, PartialEq, Structural, Eq, Hash)]
pub enum ChannelType {
    GuildText,
    Dm,
    GuildVoice,
    GroupDm,
    GuildCategory,
    GuildLink,
    PersonalNotes,
}

impl ChannelType {
    /// Channels that carry messages: every kind but categories and links.
    pub open spec fn spec_text_capable(self) -> bool {
        self == ChannelType::GuildText || self == ChannelType::Dm || self == ChannelType::GroupDm
            || self == ChannelType::GuildVoice || self == ChannelType::PersonalNotes
    }

    /// Channels that belong to a guild.
    pub open spec fn spec_guild(self) -> bool {
        self == ChannelType::GuildText || self == ChannelType::GuildVoice || self
            == ChannelType::GuildCategory || self == ChannelType::GuildLink
    }

    pub fn is_text_capable(self) -> (r: bool)
        ensures
            r == self.spec_text_capable(),
    {
        matches!(
            self,
            ChannelType::GuildText | ChannelType::Dm | ChannelType::GroupDm | ChannelType::GuildVoice
                | ChannelType::PersonalNotes
        )
    }

    pub fn is_guild(self) -> (r: bool)
        ensures
            r == self.spec_guild(),
    {
        matches!(
            self,
            ChannelType::GuildText | ChannelType::GuildVoice | ChannelType::GuildCategory
                | ChannelType::GuildLink
        )
    }

    pub fn is_voice(self) -> (r: bool)
        ensures
            r == (self == ChannelType::GuildVoice),
    {
        matches!(self, ChannelType::GuildVoice)
    }
}

#[derive(Debug, Clone, PartialEq, Eq)]
pub struct ChannelOverwrite {
    pub target_id: Snowflake,
    pub target_kind: OverwriteTarget,
    pub allow: Permissions,
    pub deny: Permissions,
}

#[derive(Debug, Clone, Copy, PartialEq, Structural, Eq, Hash)]
pub enum OverwriteTarget {
    Role,
    Member,
}

#[derive(Debug, Clone, PartialEq, Eq)]
pub struct Channel {
    pub id: Snowflake,
    pub kind: ChannelType,
    pub guild_id: Option<Snowflake>,
    pub parent_id: Option<Snowflake>,
    pub name: Option<String>,
    pub topic: Option<String>,
    pub position: i32,
    pub nsfw: bool,
    pub slowmode_seconds: Option<u32>,
    pub bitrate: Option<u32>,
    pub user_limit: Option<u16>,
    pub url: Option<String>,
    pub overwrites: Vec<ChannelOverwrite>,
    pub recipient_ids: Vec<Snowflake>,
    pub owner_id: Option<Snowflake>,
    pub icon: Option<String>,
    pub last_message_id: Option<Snowflake>,
    pub e2ee: bool,
}

#[derive(Debug, Clone, PartialEq, Eq)]
pub struct Guild {
    pub id: Snowflake,
    pub name: String,
    pub owner_id: Snowflake,
    pub icon: Option<String>,
    pub banner: Option<String>,
    pub description: Option<String>,
    pub roles: Vec<Role>,
    pub channels: Vec<Channel>,
    pub member_count: u32,
    pub afk_channel_id: Option<Snowflake>,
    pub system_channel_id: Option<Snowflake>,
}

#[derive(Debug, Clone, PartialEq, Eq)]
pub struct Role {
    pub id: Snowflake,
    pub guild_id: Snowflake,
    pub name: String,
    pub permissions: Permissions,
    pub position: i32,
    pub color: Option<u32>,
    pub hoist: bool,
    pub mentionable: bool,
    pub is_everyone: bool,
}

#[derive(Debug, Clone, PartialEq, Eq)]
pub struct Member {
    pub guild_id: Snowflake,
    pub user_id: Snowflake,
    pub nick: Option<String>,
    pub role_ids: Vec<Snowflake>,
    pub joined_at: String,
    pub muted_until: Option<String>,
}

#[derive(Debug, Clone, PartialEq, Eq)]
pub struct Invite {
    pub code: String,
    pub guild_id: Option<Snowflake>,
    pub channel_id: Option<Snowflake>,
    pub inviter_id: Snowflake,
    pub created_at: String,
    pub expires_at: Option<String>,
    pub max_uses: Option<u32>,
    pub uses: u32,
}

#[derive(Debug, Clone, PartialEq, Eq)]
pub struct Ban {
    pub guild_id: Snowflake,
    pub user_id: Snowflake,
    pub banned_by: Snowflake,
    pub reason: Option<String>,
    pub created_at: String,
}

} // verus!
