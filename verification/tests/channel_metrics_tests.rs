use activity_archive::channel_metrics::{lex_lt, record_inbound, register, snapshot, ChannelMetrics, ChannelRegistry};

fn entry<'a>(snap: &'a [(String, ChannelMetrics)], name: &str) -> Option<&'a ChannelMetrics> {
    snap.iter().find(|(n, _)| n == name).map(|(_, m)| m)
}

#[test]
fn register_creates_entry_with_zero_count() {
    let mut reg = ChannelRegistry::new();
    let name = "metrics-register";
    register(&mut reg, name, "test");
    let snap = snapshot(&reg);
    let entry = entry(&snap, name).expect("entry present after register");
    assert_eq!(entry.channel_type, "test");
    assert_eq!(entry.message_count, 0);
    assert!(entry.last_message_at.is_none());
}

#[test]
fn record_inbound_bumps_count_and_stamps_time() {
    let mut reg = ChannelRegistry::new();
    let name = "metrics-record";
    register(&mut reg, name, "test");
    record_inbound(&mut reg, name);
    record_inbound(&mut reg, name);
    let snap = snapshot(&reg);
    let entry = entry(&snap, name).expect("entry present");
    assert_eq!(entry.message_count, 2);
    assert!(entry.last_message_at.is_some());
}

#[test]
fn record_inbound_without_register_creates_entry() {
    let mut reg = ChannelRegistry::new();
    let name = "metrics-autocreate";
    record_inbound(&mut reg, name);
    let snap = snapshot(&reg);
    let entry = entry(&snap, name).expect("entry present");
    assert_eq!(entry.message_count, 1);
    assert_eq!(entry.channel_type, name);
}

#[test]
fn register_is_idempotent_and_preserves_counts() {
    let mut reg = ChannelRegistry::new();
    let name = "metrics-idem";
    register(&mut reg, name, "test");
    record_inbound(&mut reg, name);
    register(&mut reg, name, "test");
    let snap = snapshot(&reg);
    assert_eq!(entry(&snap, name).expect("entry").message_count, 1);
}

#[test]
fn snapshot_lists_channels_in_name_order() {
    let mut reg = ChannelRegistry::new();
    register(&mut reg, "telegram", "telegram");
    register(&mut reg, "discord", "discord");
    record_inbound(&mut reg, "slack");
    register(&mut reg, "discord", "other");
    let snap = snapshot(&reg);
    let names: Vec<&str> = snap.iter().map(|(n, _)| n.as_str()).collect();
    assert_eq!(names, vec!["discord", "slack", "telegram"]);
    assert_eq!(entry(&snap, "discord").unwrap().channel_type, "discord");
    assert_eq!(entry(&snap, "slack").unwrap().message_count, 1);
    assert!(lex_lt("discord", "slack"));
    assert!(lex_lt("ab", "abc"));
    assert!(!lex_lt("abc", "abc"));
}

#[test]
fn recording_one_channel_leaves_others_alone() {
    let mut reg = ChannelRegistry::new();
    register(&mut reg, "a", "x");
    register(&mut reg, "b", "y");
    record_inbound(&mut reg, "b");
    let snap = snapshot(&reg);
    assert_eq!(entry(&snap, "a").unwrap().message_count, 0);
    assert!(entry(&snap, "a").unwrap().last_message_at.is_none());
    assert_eq!(entry(&snap, "b").unwrap().message_count, 1);
}
