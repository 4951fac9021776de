use omnidisc::channel::ChannelType;
use omnidisc::gateway::MlsEnvelopeKind;
use omnidisc::limits::Limits;
use omnidisc::rest::default_channel_type;

#[test]
fn envelope_kinds_read_back_their_names() {
    for k in [
        MlsEnvelopeKind::Welcome,
        MlsEnvelopeKind::Commit,
        MlsEnvelopeKind::Proposal,
        MlsEnvelopeKind::Application,
    ] {
        assert_eq!(MlsEnvelopeKind::parse(k.as_str()), Some(k));
    }
    assert_eq!(MlsEnvelopeKind::Commit.as_str(), "commit");
    assert_eq!(MlsEnvelopeKind::parse("Commit"), None);
    assert_eq!(MlsEnvelopeKind::parse(""), None);
}

#[test]
fn channel_kinds() {
    assert!(ChannelType::GuildText.is_text_capable());
    assert!(ChannelType::GuildVoice.is_text_capable());
    assert!(!ChannelType::GuildCategory.is_text_capable());
    assert!(!ChannelType::GuildLink.is_text_capable());
    assert!(ChannelType::GuildLink.is_guild());
    assert!(!ChannelType::Dm.is_guild());
    assert!(!ChannelType::PersonalNotes.is_guild());
    assert!(ChannelType::GuildVoice.is_voice());
    assert!(!ChannelType::GuildText.is_voice());
    assert_eq!(default_channel_type(), ChannelType::GuildText);
}

#[test]
fn default_limits() {
    let l = Limits::default();
    assert_eq!(l.max_message_chars, 4_000);
    assert_eq!(l.max_upload_bytes, 100 * 1024 * 1024);
    assert_eq!(l.max_voice_bitrate_kbps, 384);
}

#[test]
fn wire_types_carry_their_user_records_as_given() {
    let auth = omnidisc::rest::AuthResponse { token: "t".to_string(), user: "alice".to_string() };
    assert_eq!(auth.user, "alice");
    let id: omnidisc::gateway::Identify<u8> = omnidisc::gateway::Identify {
        token: "t".to_string(),
        protocol_version: 1,
        compress: omnidisc::gateway::Compression::default(),
        properties: omnidisc::gateway::ClientProperties::default(),
        presence: None,
    };
    assert_eq!(id.compress, omnidisc::gateway::Compression::Plain);
    let update: omnidisc::gateway::MemberListUpdate<String, u8> = omnidisc::gateway::MemberListUpdate {
        guild_id: omnidisc::snowflake::Snowflake(1),
        channel_id: omnidisc::snowflake::Snowflake(2),
        total: 3,
        online: 1,
        ops: vec![
            omnidisc::gateway::MemberListOp::Sync {
                range: (0, 99),
                items: vec![omnidisc::gateway::MemberListItem::Group { id: "online".to_string(), count: 1 }],
            },
            omnidisc::gateway::MemberListOp::Delete { index: 4 },
        ],
    };
    assert_eq!(update.ops.len(), 2);
    assert!(matches!(update.ops[1], omnidisc::gateway::MemberListOp::Delete { index: 4 }));
}
