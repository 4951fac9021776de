//! Messages with their attachments, embeds, reactions and mentions, and read
//! state.

pub mod flags;

use vstd::prelude::*;
use crate::snowflake::Snowflake;

verus! {
pub const MAX_ATTACHMENTS: usize = 10;
pub const MAX_EMBEDS: usize = 10;
pub const MAX_DISTINCT_REACTIONS: usize = 30;

#[derive(Debug, Clone, Copy, PartialEq, Structural, Eq, Hash)]
pub enum MessageType {
    Default,
    Reply,
    Forward,
    MemberJoin,
    MemberLeave,
    ChannelPinned,
    CallStarted,
    CallEnded,
    GroupNameChanged,
    GroupIconChanged,
    GroupRecipientAdded,
    GroupRecipientRemoved,
    E2eeKeyRotated,
}

#[derive(Debug, PartialEq, Eq)]
pub struct Message {
    pub id: Snowflake,
    pub channel_id: Snowflake,
    pub guild_id: Option<Snowflake>,
    pub author_id: Snowflake,
    pub kind: MessageType,
    pub content: String,
    pub edited_at: Option<String>,
    pub reference: Option<MessageReference>,
    pub attachments: Vec<Attachment>,
    pub embeds: Vec<Embed>,
    pub reactions: Vec<ReactionCount>,
    pub mentions: Mentions,
    pub pinned: bool,
    pub flags: u32,
    pub e2ee: Option<EncryptedPayload>,
}


#[derive(Debug, PartialEq, Eq)]
pub struct MessageReference {
    pub message_id: Snowflake,
    pub channel_id: Snowflake,
    pub guild_id: Option<Snowflake>,
    pub snapshot: Option<Box<Message>>,
}

#[derive(Debug, Clone, PartialEq, Eq, Default)]
pub struct Mentions {
    pub users: Vec<Snowflake>,
    pub roles: Vec<Snowflake>,
    pub channels: Vec<Snowflake>,
    pub everyone: bool,
}

#[derive(Debug, Clone, PartialEq, Eq)]
pub struct Attachment {
    pub id: Snowflake,
    pub filename: String,
    pub size: u64,
    pub content_type: Option<String>,
    pub url: String,
    pub thumbnail_url: Option<String>,
    pub thumbhash: Option<String>,
    pub width: Option<u32>,
    pub height: Option<u32>,
    pub duration_ms: Option<u64>,
    pub encrypted: bool,
    /// When the server will delete the bytes. Files are deliberately temporary:
    /// the instance never becomes a place where an old leak can be found.
    pub expires_at: Option<String>,
    /// The bytes are already gone. The row survives as a tombstone so the
    /// message reads "this file expired" instead of offering a dead link.
    pub expired: bool,
}

#[derive(Debug, Clone, PartialEq, Eq, Default)]
pub struct Embed {
    pub url: Option<String>,
    pub title: Option<String>,
    pub description: Option<String>,
    pub site_name: Option<String>,
    pub image: Option<EmbedMedia>,
    pub video: Option<EmbedMedia>,
    pub color: Option<u32>,
}

#[derive(Debug, Clone, PartialEq, Eq)]
pub struct EmbedMedia {
    pub url: String,
    pub width: Option<u32>,
    pub height: Option<u32>,
}

#[derive(Debug, Clone, PartialEq, Eq)]
pub struct ReactionCount {
    pub emoji: Emoji,
    pub count: u32,
    pub me: bool,
}

#[derive(Debug, Clone, PartialEq, Eq, Hash)]
pub enum Emoji {
    Unicode {
        name: String,
    },
    Custom {
        id: Snowflake,
        name: String,
        animated: bool,
    },
}

#[derive(Debug, Clone, PartialEq, Eq)]
pub struct EncryptedPayload {
    pub group_id: String,
    pub epoch: u64,
    pub ciphertext: String,
}

#[derive(Debug, Clone, PartialEq, Eq)]
pub struct ReadState {
    pub channel_id: Snowflake,
    pub last_read_id: Option<Snowflake>,
    pub mention_count: u32,
}

} // verus!
