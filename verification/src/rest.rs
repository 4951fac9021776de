//! Request and response bodies of the REST API.

use vstd::prelude::*;
use crate::channel::{ChannelType, OverwriteTarget};
use crate::message::{Message, MessageReference};
use crate::permissions::Permissions;
use crate::snowflake::Snowflake;

verus! {
#[derive(Debug, Clone)]
pub struct ApiError {
    pub code: String,
    pub message: String,
    pub retry_after_ms: Option<u64>,
}

#[derive(Debug, Clone)]
pub struct RegisterRequest {
    pub username: String,
    pub password: String,
    pub display_name: Option<String>,
    pub invite_code: Option<String>,
}

#[derive(Debug, Clone)]
pub struct LoginRequest {
    pub username: String,
    pub password: String,
    pub device_name: Option<String>,
}

/// The answer to a login or registration: the session token and the user,
/// whose record (`U`) the protocol's user module defines.
#[derive(Debug, Clone)]
pub struct AuthResponse<U> {
    pub token: String,
    pub user: U,
}

#[derive(Debug, Clone, Default)]
pub struct UpdateUserRequest {
    pub display_name: Option<String>,
    pub bio: Option<String>,
    pub pronouns: Option<String>,
    pub accent_color: Option<u32>,
}

#[derive(Debug, Clone)]
pub struct CreateGuildRequest {
    pub name: String,
    pub description: Option<String>,
}

#[derive(Debug, Clone)]
pub struct CreateChannelRequest {
    pub name: String,
    pub kind: ChannelType,
    pub parent_id: Option<Snowflake>,
    pub topic: Option<String>,
    pub url: Option<String>,
}

/// The kind of a channel whose creation request names none.
pub fn default_channel_type() -> (r: ChannelType)
    ensures
        r == ChannelType::GuildText,
{
    ChannelType::GuildText
}

#[derive(Debug, Clone, Default)]
pub struct UpdateChannelRequest {
    pub name: Option<String>,
    pub topic: Option<String>,
    pub position: Option<i32>,
    pub nsfw: Option<bool>,
    pub slowmode_seconds: Option<u32>,
    pub parent_id: Option<Snowflake>,
}

#[derive(Debug, Clone, Default)]
pub struct MessageQuery {
    pub before: Option<Snowflake>,
    pub after: Option<Snowflake>,
    pub around: Option<Snowflake>,
    pub limit: Option<u32>,
}

#[derive(Debug)]
pub struct CreateMessageRequest {
    pub content: String,
    pub nonce: Option<String>,
    pub reference: Option<MessageReference>,
    pub attachment_ids: Vec<Snowflake>,
    pub flags: u32,
}

#[derive(Debug, Clone)]
pub struct EditMessageRequest {
    pub content: String,
}

#[derive(Debug, Clone)]
pub struct AckRequest {
    pub message_id: Snowflake,
}

#[derive(Debug, Clone)]
pub struct CreateInviteRequest {
    pub guild_id: Option<Snowflake>,
    pub channel_id: Option<Snowflake>,
    pub max_age_seconds: Option<u64>,
    pub max_uses: Option<u32>,
}

#[derive(Debug, Clone)]
pub struct CreateDmRequest {
    pub recipient_ids: Vec<Snowflake>,
    pub name: Option<String>,
}

#[derive(Debug, Clone)]
pub struct CreateRoleRequest {
    pub name: String,
    pub permissions: Permissions,
    pub color: Option<u32>,
    pub hoist: bool,
    pub mentionable: bool,
}

#[derive(Debug, Clone, Default)]
pub struct UpdateRoleRequest {
    pub name: Option<String>,
    pub permissions: Option<Permissions>,
    pub color: Option<u32>,
    pub hoist: Option<bool>,
    pub mentionable: Option<bool>,
    pub position: Option<i32>,
}

#[derive(Debug, Clone)]
pub struct PutOverwriteRequest {
    pub target_kind: OverwriteTarget,
    pub allow: Permissions,
    pub deny: Permissions,
}

#[derive(Debug, Clone)]
pub struct VoiceTokenRequest {
    pub channel_id: Snowflake,
}

#[derive(Debug, Clone)]
pub struct HealthResponse {
    pub ok: bool,
    pub version: String,
    pub uptime_seconds: u64,
}


#[derive(Debug, Clone, Copy, PartialEq, Structural, Eq)]
pub enum SearchHas {
    File,
    Image,
    Link,
}

#[derive(Debug, Clone, Default)]
pub struct SearchQuery {
    pub q: String,
    pub from: Option<Snowflake>,
    pub in_channel: Option<Snowflake>,
    pub has: Option<SearchHas>,
    pub before: Option<Snowflake>,
    pub after: Option<Snowflake>,
    pub limit: Option<u32>,
}

#[derive(Debug)]
pub struct SearchResponse {
    pub messages: Vec<Message>,
    pub total: u64,
}

#[derive(Debug, Clone, Default)]
pub struct LimitQuery {
    pub limit: Option<u32>,
}

#[derive(Debug, Clone)]
pub struct BulkDeleteRequest {
    pub message_ids: Vec<Snowflake>,
}

#[derive(Debug, Clone, Default)]
pub struct BanRequest {
    pub reason: Option<String>,
}

#[derive(Debug, Clone, Default)]
pub struct KickRequest {
    pub reason: Option<String>,
}

#[derive(Debug, Clone, Default)]
pub struct UpdateMemberRequest {
    pub nick: Option<Option<String>>,
    pub muted_until: Option<Option<String>>,
    pub reason: Option<String>,
}

#[derive(Debug, Clone, Default)]
pub struct UpdateGuildRequest {
    pub name: Option<String>,
    pub description: Option<Option<String>>,
    pub afk_channel_id: Option<Option<Snowflake>>,
    pub system_channel_id: Option<Option<Snowflake>>,
}

#[derive(Debug, Clone)]
pub struct TransferGuildRequest {
    pub user_id: Snowflake,
}

#[derive(Debug, Clone, Default)]
pub struct AuditLogQuery {
    pub before: Option<Snowflake>,
    pub action: Option<String>,
    pub actor_id: Option<Snowflake>,
    pub limit: Option<u32>,
}

#[derive(Debug, Clone, Default)]
pub struct CreateRelationshipRequest {
    pub username: Option<String>,
    pub user_id: Option<Snowflake>,
}

#[derive(Debug, Clone)]
pub struct PutNoteRequest {
    pub note: String,
}

#[derive(Debug, Clone, PartialEq, Eq)]
pub struct UserNote {
    pub user_id: Snowflake,
    pub note: String,
}

#[derive(Debug, Clone, PartialEq)]
pub struct AdminInstance {
    pub name: String,
    pub registration_open: bool,
    pub streaming: crate::bitrate::StreamingPolicy,
    pub limits: crate::limits::Limits,
}

#[derive(Debug, Clone, Default)]
pub struct UpdateInstanceRequest {
    pub name: Option<String>,
    pub registration_open: Option<bool>,
    pub streaming: Option<crate::bitrate::StreamingPolicy>,
    pub limits: Option<crate::limits::Limits>,
}

#[derive(Debug, Clone, PartialEq, Eq)]
pub struct AdminStats {
    pub users: u64,
    pub guilds: u64,
    pub channels: u64,
    pub messages: u64,
    pub gateway_sessions: u64,
    pub uptime_seconds: u64,
    pub version: String,
}

#[derive(Debug, Clone)]
pub struct RegisterDeviceRequest {
    pub ed25519_pub: String,
    pub name: Option<String>,
}

#[derive(Debug, Clone, PartialEq, Eq)]
pub struct Device {
    pub user_id: Snowflake,
    pub device_id: String,
    pub ed25519_pub: String,
    pub name: Option<String>,
    pub created_at: String,
    pub last_seen_at: String,
    pub revoked_at: Option<String>,
}

#[derive(Debug, Clone, PartialEq, Eq)]
pub struct KeyPackageUpload {
    pub ciphersuite: u16,
    pub blob: String,
    pub last_resort: bool,
}

#[derive(Debug, Clone)]
pub struct PutKeyPackagesRequest {
    pub key_packages: Vec<KeyPackageUpload>,
}

#[derive(Debug, Clone, PartialEq, Eq)]
pub struct KeyPackageCount {
    pub unclaimed: u64,
    pub last_resort: bool,
}

#[derive(Debug, Clone, PartialEq, Eq)]
pub struct ClaimedKeyPackage {
    pub device_id: String,
    pub ciphersuite: u16,
    pub blob: String,
    pub last_resort: bool,
}

#[derive(Debug, Clone, PartialEq, Eq)]
pub struct ClaimedKeyPackages {
    pub user_id: Snowflake,
    pub key_packages: Vec<ClaimedKeyPackage>,
}

#[derive(Debug, Clone)]
pub struct CreateMlsGroupRequest {
    pub channel_id: Snowflake,
    pub group_id: String,
}

#[derive(Debug, Clone, PartialEq, Eq)]
pub struct MlsGroupMember {
    pub user_id: Snowflake,
    pub device_id: String,
    pub joined_epoch: u64,
}

#[derive(Debug, Clone, PartialEq, Eq)]
pub struct MlsGroup {
    pub group_id: String,
    pub channel_id: Snowflake,
    pub creator_device_id: String,
    pub current_epoch: u64,
    pub created_at: String,
    pub members: Vec<MlsGroupMember>,
}

#[derive(Debug, Clone)]
pub struct MlsCommitRequest {
    pub epoch: u64,
    pub commit: String,
    pub welcome: Option<String>,
    pub added_devices: Vec<String>,
    pub removed_devices: Vec<String>,
}

#[derive(Debug, Clone, PartialEq, Eq)]
pub struct MlsCommitResponse {
    pub group_id: String,
    pub epoch: u64,
    pub commit_envelope_id: Snowflake,
    pub welcome_envelope_id: Option<Snowflake>,
}

#[derive(Debug, Clone)]
pub struct MlsMessageRequest {
    pub epoch: u64,
    pub blob: String,
    pub nonce: Option<String>,
}

#[derive(Debug, Clone, Default)]
pub struct MlsInboxQuery {
    pub after: Option<Snowflake>,
    pub limit: Option<u32>,
}

#[derive(Debug, Clone)]
pub struct MlsInboxResponse {
    pub envelopes: Vec<crate::gateway::MlsEnvelope>,
    pub has_more: bool,
}

#[derive(Debug, Clone)]
pub struct MlsAckRequest {
    pub envelope_ids: Vec<Snowflake>,
}

#[derive(Debug, Clone, Default)]
pub struct ThumbQuery {
    pub w: Option<u32>,
    pub exp: u64,
    pub sig: String,
}

#[derive(Debug, Clone, Default)]
pub struct SignedMediaQuery {
    pub exp: u64,
    pub sig: String,
}

} // verus!
