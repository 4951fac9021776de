//! Gateway protocol: opcodes, close codes and the payloads of the frames
//! that a client sends and receives.

use vstd::prelude::*;
use crate::text::chars_of;
use crate::subtitle_merge::transcript::chars_eq;
use crate::snowflake::Snowflake;

verus! {

pub const HEARTBEAT_INTERVAL_MS: u64 = 30_000;
pub const IDENTIFY_TIMEOUT_MS: u64 = 10_000;
pub const MAX_FRAME_BYTES: usize = 10 * 1024 * 1024;
pub const LARGE_GUILD_THRESHOLD: u32 = 250;
pub const MEMBER_LIST_WINDOW: u32 = 100;

#[derive(Debug, Clone, Copy, PartialEq, Structural, Eq, Hash)]
pub enum Opcode {
    Dispatch,
    Heartbeat,
    Identify,
    PresenceUpdate,
    VoiceStateUpdate,
    Resume,
    Reconnect,
    RequestGuildMembers,
    InvalidSession,
    Hello,
    HeartbeatAck,
    GatewayError,
    LazyRequest,
    Typing,
    MlsEnvelope,
}

#[derive(Debug, Clone, Copy, PartialEq, Structural, Eq, Hash)]
pub enum CloseCode {
    UnknownError,
    UnknownOpcode,
    DecodeError,
    NotAuthenticated,
    AuthenticationFailed,
    AlreadyAuthenticated,
    InvalidSeq,
    RateLimited,
    SessionTimedOut,
    InvalidVersion,
    ServerRestarting,
}



#[derive(Debug, Clone)]
pub struct Hello {
    pub heartbeat_interval: u64,
    pub protocol_version: u16,
}


#[derive(Debug, Clone, Copy, PartialEq, Structural, Eq, Default)]
pub enum Compression {
    /// No compression (`"none"` on the wire).
    #[default]
    Plain,
    Zstd,
}

#[derive(Debug, Clone, Default)]
pub struct ClientProperties {
    pub os: String,
    pub client: String,
    pub version: String,
    pub device_name: Option<String>,
}

#[derive(Debug, Clone)]
pub struct Resume {
    pub token: String,
    pub session_id: String,
    pub seq: u64,
}

#[derive(Debug, Clone)]
pub struct VoiceStateUpdateRequest {
    pub guild_id: Option<Snowflake>,
    pub channel_id: Option<Snowflake>,
    pub self_mute: bool,
    pub self_deaf: bool,
    pub self_stream: bool,
}

#[derive(Debug, Clone)]
pub struct LazyRequest {
    pub guild_id: Snowflake,
    pub channel_id: Snowflake,
    pub ranges: Vec<(u32, u32)>,
}

#[derive(Debug, Clone)]
pub struct TypingRequest {
    pub channel_id: Snowflake,
}

#[derive(Debug, Clone, PartialEq, Eq)]
pub struct MlsEnvelope {
    pub id: Snowflake,
    pub group_id: String,
    pub epoch: u64,
    pub sender_device_id: String,
    pub recipient_device_ids: Vec<String>,
    pub kind: MlsEnvelopeKind,
    pub payload: String,
}

#[derive(Debug, Clone, Copy, PartialEq, Structural, Eq, Hash)]
pub enum MlsEnvelopeKind {
    Welcome,
    Commit,
    Proposal,
    Application,
}

/// The wire name of each envelope kind.
pub open spec fn kind_name(k: MlsEnvelopeKind) -> Seq<char> {
    match k {
        MlsEnvelopeKind::Welcome => "welcome"@,
        MlsEnvelopeKind::Commit => "commit"@,
        MlsEnvelopeKind::Proposal => "proposal"@,
        MlsEnvelopeKind::Application => "application"@,
    }
}

/// The envelope kind whose wire name is `s`.
pub open spec fn kind_of_name(s: Seq<char>) -> Option<MlsEnvelopeKind> {
    if s == "welcome"@ {
        Some(MlsEnvelopeKind::Welcome)
    } else if s == "commit"@ {
        Some(MlsEnvelopeKind::Commit)
    } else if s == "proposal"@ {
        Some(MlsEnvelopeKind::Proposal)
    } else if s == "application"@ {
        Some(MlsEnvelopeKind::Application)
    } else {
        None
    }
}

impl MlsEnvelopeKind {
    pub fn as_str(self) -> (r: &'static str)
        ensures
            r@ == kind_name(self),
    {
        match self {
            MlsEnvelopeKind::Welcome => "welcome",
            MlsEnvelopeKind::Commit => "commit",
            MlsEnvelopeKind::Proposal => "proposal",
            MlsEnvelopeKind::Application => "application",
        }
    }

    pub fn parse(s: &str) -> (r: Option<Self>)
        ensures
            r == kind_of_name(s@),
    {
        let cs = chars_of(s);
        if chars_eq(cs.as_slice(), chars_of("welcome").as_slice()) {
            Some(MlsEnvelopeKind::Welcome)
        } else if chars_eq(cs.as_slice(), chars_of("commit").as_slice()) {
            Some(MlsEnvelopeKind::Commit)
        } else if chars_eq(cs.as_slice(), chars_of("proposal").as_slice()) {
            Some(MlsEnvelopeKind::Proposal)
        } else if chars_eq(cs.as_slice(), chars_of("application").as_slice()) {
            Some(MlsEnvelopeKind::Application)
        } else {
            None
        }
    }
}

/// Reading a kind's wire name gives the kind back.
pub proof fn lemma_kind_name_round_trip(k: MlsEnvelopeKind)
    ensures
        kind_of_name(kind_name(k)) == Some(k),
{
    reveal_strlit("welcome");
    reveal_strlit("commit");
    reveal_strlit("proposal");
    reveal_strlit("application");
    assert("welcome"@.len() == 7 && "commit"@.len() == 6);
    assert("proposal"@.len() == 8 && "application"@.len() == 11);
}

#[derive(Debug, Clone)]
pub struct InstanceInfo {
    pub name: String,
    pub version: String,
    pub media_url: String,
    pub sfu_url: String,
    pub max_upload_bytes: u64,
    pub streaming: crate::bitrate::StreamingPolicy,
    pub limits: crate::limits::Limits,
    pub registration_open: bool,
}

#[derive(Debug, Clone)]
pub struct VoiceServerUpdate {
    pub guild_id: Option<Snowflake>,
    pub channel_id: Snowflake,
    pub endpoint: String,
    pub token: String,
    pub room: String,
    pub ice_servers: Vec<IceServer>,
}

#[derive(Debug, Clone)]
pub struct IceServer {
    pub urls: Vec<String>,
    pub username: Option<String>,
    pub credential: Option<String>,
}

#[derive(Debug, Clone)]
pub struct TypingStart {
    pub channel_id: Snowflake,
    pub user_id: Snowflake,
    pub guild_id: Option<Snowflake>,
}


#[derive(Debug, Clone, Copy, PartialEq, Structural, Eq)]
pub enum StoragePressure {
    /// Below every threshold (`"ok"` on the wire).
    Normal,
    Warning,
    Critical,
    Purged,
}


#[derive(Debug, Clone)]
pub struct SessionInfo {
    pub session_id: String,
    pub client: ClientProperties,
    pub last_seen: String,
    pub current: bool,
}

/// The user records that `Ready`, `Identify`, the member list and the login
/// answer carry (the user itself, its presence, its relationships and its
/// voice state) are defined by the user module of the protocol, which this
/// library does not hold; the types below take them as parameters `U`
/// (user), `P` (presence update), `R` (relationship) and `V` (voice state).
#[derive(Debug, Clone)]
pub struct Identify<P> {
    pub token: String,
    pub protocol_version: u16,
    pub compress: Compression,
    pub properties: ClientProperties,
    pub presence: Option<P>,
}

/// The first dispatch of a session: who the user is and everything the
/// client starts from.
#[derive(Debug, Clone)]
pub struct Ready<U, R, V, P> {
    pub session_id: String,
    pub user: U,
    pub guilds: Vec<crate::channel::Guild>,
    pub private_channels: Vec<crate::channel::Channel>,
    pub relationships: Vec<R>,
    pub read_states: Vec<crate::message::ReadState>,
    pub voice_states: Vec<V>,
    pub presences: Vec<P>,
    pub instance: InstanceInfo,
}

/// A change to the lazily loaded member list of a channel.
#[derive(Debug)]
pub struct MemberListUpdate<U, P> {
    pub guild_id: Snowflake,
    pub channel_id: Snowflake,
    pub total: u32,
    pub online: u32,
    pub ops: Vec<MemberListOp<U, P>>,
}

/// One operation on a member list: replace a range, insert, update or
/// delete at an index, or drop a range.
#[derive(Debug)]
pub enum MemberListOp<U, P> {
    Sync { range: (u32, u32), items: Vec<MemberListItem<U, P>> },
    Insert { index: u32, item: MemberListItem<U, P> },
    Update { index: u32, item: MemberListItem<U, P> },
    Delete { index: u32 },
    Invalidate { range: (u32, u32) },
}

/// A row of a member list: a group header with its count, or a member.
#[derive(Debug, Clone)]
pub enum MemberListItem<U, P> {
    Group { id: String, count: u32 },
    Member { member: crate::channel::Member, user: U, presence: Option<P> },
}

} // verus!
