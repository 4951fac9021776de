use omnidisc::livechat::{
    chat_lines, parse_i64, parse_live_chat, parse_live_chat_checked, parse_renderer, replay_roots,
    Json,
};

#[test]
fn parses_text_message() {
    let line = r#"{"replayChatItemAction":{"actions":[{"addChatItemAction":{"item":{"liveChatTextMessageRenderer":{"message":{"runs":[{"text":"hello "},{"text":"world"}]},"authorName":{"simpleText":"Alice"},"authorExternalChannelId":"UC123","timestampUsec":"1690000000000000","timestampText":{"simpleText":"1:23"}}}}}]}}"#;
    let msgs = parse_live_chat(line);
    assert_eq!(msgs.len(), 1);
    let m = &msgs[0];
    assert_eq!(m.author, "Alice");
    assert_eq!(m.message, "hello world");
    assert_eq!(m.time, "1:23");
    assert_eq!(m.channel_id, "UC123");
    assert_eq!(m.timestamp_usec, 1690000000000000);
    assert_eq!(m.msg_type, "text");
    assert_eq!(m.idx, 1);
}

#[test]
fn parses_paid_message_with_amount() {
    let line = r#"{"replayChatItemAction":{"actions":[{"addChatItemAction":{"item":{"liveChatPaidMessageRenderer":{"message":{"runs":[{"text":"thanks"}]},"authorName":{"simpleText":"Bob"},"purchaseAmountText":{"simpleText":"$5.00"}}}}}]}}"#;
    let msgs = parse_live_chat(line);
    assert_eq!(msgs.len(), 1);
    assert_eq!(msgs[0].msg_type, "paid");
    assert_eq!(msgs[0].amount, "$5.00");
    assert_eq!(msgs[0].message, "thanks");
}

#[test]
fn skips_invalid_and_unknown_lines() {
    let input = "not json\n{}\n{\"replayChatItemAction\":{\"actions\":[{\"addChatItemAction\":{\"item\":{\"liveChatViewerEngagementMessageRenderer\":{}}}}]}}";
    assert!(parse_live_chat(input).is_empty());
}

#[test]
fn membership_uses_header_subtext_fallback() {
    let line = r#"{"replayChatItemAction":{"actions":[{"addChatItemAction":{"item":{"liveChatMembershipItemRenderer":{"headerSubtext":{"runs":[{"text":"Member for 6 months"}]},"authorName":{"simpleText":"Carol"}}}}}]}}"#;
    let msgs = parse_live_chat(line);
    assert_eq!(msgs.len(), 1);
    assert_eq!(msgs[0].msg_type, "membership");
    assert_eq!(msgs[0].message, "Member for 6 months");
}

#[test]
fn messages_are_numbered_across_lines_and_actions() {
    let a = r#"{"replayChatItemAction":{"actions":[{"addChatItemAction":{"item":{"liveChatTextMessageRenderer":{"message":{"runs":[{"text":"one"}]}}}}},{"addChatItemAction":{"item":{"liveChatPaidMessageRenderer":{"message":{"runs":[{"text":"two"}]}}}}}]}}"#;
    let b = r#"{"replayChatItemAction":{"actions":[{"markChatItemAsDeletedAction":{}},{"addChatItemAction":{"item":{"liveChatTextMessageRenderer":{"message":{"runs":[{"text":"three"},{"emoji":{}}]},"timestampUsec":"-12"}}}}]}}"#;
    let input = format!("  {a}  \r\n\n\n{b}\n");
    let msgs = parse_live_chat(&input);
    let seen: Vec<(u64, &str, &str)> =
        msgs.iter().map(|m| (m.idx, m.message.as_str(), m.msg_type.as_str())).collect();
    assert_eq!(seen, vec![(1, "one", "text"), (2, "two", "paid"), (3, "three", "text")]);
    assert_eq!(msgs[2].timestamp_usec, -12);
    assert_eq!(msgs[0].timestamp_usec, 0);
    assert_eq!(msgs[0].author, "");
}

#[test]
fn chat_lines_trim_and_skip_blank_lines() {
    assert_eq!(chat_lines(" a \r\n\n  \nb"), vec!["a".to_string(), "b".to_string()]);
    assert!(chat_lines("").is_empty());
}

#[test]
fn timestamps_parse_as_signed_64_bit_numbers() {
    let c = |s: &str| s.chars().collect::<Vec<char>>();
    assert_eq!(parse_i64(&c("+42")), Some(42));
    assert_eq!(parse_i64(&c("-9223372036854775808")), Some(i64::MIN));
    assert_eq!(parse_i64(&c("9223372036854775807")), Some(i64::MAX));
    assert_eq!(parse_i64(&c("9223372036854775808")), None);
    assert_eq!(parse_i64(&c("-")), None);
    assert_eq!(parse_i64(&c("-+1")), None);
    assert_eq!(parse_i64(&c("1.5")), None);
}

#[test]
fn a_renderer_without_text_or_time_reads_as_empty() {
    let r = Json::Object(vec![
        ("timestampUsec".to_string(), Json::Number("5".to_string())),
        ("message".to_string(), Json::Object(vec![("runs".to_string(), Json::Null)])),
        ("headerSubtext".to_string(), Json::Object(vec![(
            "runs".to_string(),
            Json::Array(vec![Json::Object(vec![("text".to_string(), Json::Str("x".to_string()))])]),
        )])),
    ]);
    let m = parse_renderer(&r, "text", 9);
    assert_eq!(m.idx, 9);
    assert_eq!(m.message, "");
    assert_eq!(m.timestamp_usec, 0);
}

#[test]
fn replay_values_are_the_json_lines_converted_one_for_one() {
    let roots = replay_roots("[1, true, null]\nnot json\n{\"b\": \"x\", \"a\": []}\n");
    assert_eq!(roots.len(), 2);
    match &roots[0] {
        Json::Array(items) => {
            assert_eq!(items.len(), 3);
            assert!(matches!(&items[0], Json::Number(n) if n == "1"));
            assert!(matches!(items[1], Json::Bool(true)));
            assert!(matches!(items[2], Json::Null));
        }
        other => panic!("not an array: {other:?}"),
    }
    match &roots[1] {
        Json::Object(members) => {
            let keys: Vec<&str> = members.iter().map(|(k, _)| k.as_str()).collect();
            assert_eq!(keys, vec!["a", "b"]);
            assert!(matches!(&members[1].1, Json::Str(s) if s == "x"));
        }
        other => panic!("not an object: {other:?}"),
    }
}

#[test]
fn the_checked_parse_gives_the_same_messages() {
    let line = r#"{"replayChatItemAction":{"actions":[{"addChatItemAction":{"item":{"liveChatTextMessageRenderer":{"message":{"runs":[{"text":"hi"}]}}}}}]}}"#;
    let msgs = parse_live_chat_checked(line).expect("fits");
    assert_eq!(msgs.len(), 1);
    assert_eq!(msgs[0].message, "hi");
    assert_eq!(parse_live_chat_checked("").map(|v| v.len()), Some(0));
}
