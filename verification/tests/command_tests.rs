use rozsdhabot::commands::{handle_message, CommandOutcome, IncomingMessage, MonitorAction};
use rozsdhabot::models::{ChannelId, OwnerId};
use rozsdhabot::store::{RuntimeStateStore, SubscriptionStore};

fn msg(channel: ChannelId, content: &str) -> IncomingMessage {
    IncomingMessage {
        message_id: 1,
        channel_id: channel,
        sender: OwnerId::Telegram { user_id: Some(9) },
        content: content.to_string(),
    }
}

fn fresh() -> (SubscriptionStore, RuntimeStateStore) {
    (SubscriptionStore::new(Vec::new()), RuntimeStateStore::new(Vec::new()))
}

fn telegram(chat_id: i64) -> ChannelId {
    ChannelId::Telegram { chat_id }
}

fn reply_of(outcome: CommandOutcome) -> String {
    outcome.reply.unwrap().unwrap()
}

#[test]
fn add_registers_and_starts_a_monitor() {
    let (mut subs, mut states) = fresh();
    let outcome = handle_message(
        &msg(telegram(42), "/add https://site/foo/keres.php?stext=ssd"),
        &mut subs,
        &mut states,
    );
    assert_eq!(outcome.reply, Ok(Some("New subscription added with ID: 1".to_string())));
    assert_eq!(outcome.actions.len(), 1);
    match &outcome.actions[0] {
        MonitorAction::Start(sub) => {
            assert_eq!(sub.id, 1);
            assert_eq!(sub.url, "https://site/foo/keres.php?stext=ssd");
            assert_eq!(sub.channels, vec![telegram(42)]);
            assert_eq!(sub.name.as_deref(), Some("ssd"));
        },
        MonitorAction::Stop(_) => panic!("expected a start action"),
    }
    let stored = subs.get_subscription(1).unwrap();
    assert_eq!(stored.url, "https://site/foo/keres.php?stext=ssd");
}

#[test]
fn add_without_url_is_a_usage_hint() {
    let (mut subs, mut states) = fresh();
    let outcome = handle_message(&msg(telegram(42), "/add   "), &mut subs, &mut states);
    assert_eq!(
        outcome.reply,
        Ok(Some("Could not find URL in message. Usage: /add URL".to_string()))
    );
    assert!(outcome.actions.is_empty());
    assert!(subs.get_subscription(1).is_none());
}

#[test]
fn del_is_channel_scoped() {
    let (mut subs, mut states) = fresh();
    handle_message(&msg(telegram(1), "/add https://site/a/b"), &mut subs, &mut states);
    states.update_last_seen(1, 500);

    // A foreign channel cannot delete the subscription; it stays, with its
    // runtime state and monitor untouched.
    let foreign = handle_message(&msg(telegram(2), "/del 1"), &mut subs, &mut states);
    assert_eq!(foreign.reply, Ok(Some("Not removed: 1".to_string())));
    assert!(foreign.actions.is_empty());
    assert!(subs.get_subscription(1).is_some());
    assert!(states.get(1).is_some());

    // The owning channel can; the state goes and the monitor is stopped.
    let own = handle_message(&msg(telegram(1), "/del 1"), &mut subs, &mut states);
    assert_eq!(own.reply, Ok(Some("Removed: 1".to_string())));
    assert_eq!(own.actions.len(), 1);
    match own.actions[0] {
        MonitorAction::Stop(id) => assert_eq!(id, 1),
        MonitorAction::Start(_) => panic!("expected a stop action"),
    }
    assert!(subs.get_subscription(1).is_none());
    assert!(states.get(1).is_none());
}

#[test]
fn del_reports_each_id() {
    let (mut subs, mut states) = fresh();
    handle_message(&msg(telegram(1), "/add https://site/a/b"), &mut subs, &mut states);
    handle_message(&msg(telegram(1), "/add https://site/c/d"), &mut subs, &mut states);
    let outcome = handle_message(&msg(telegram(1), "/del 2 99 1"), &mut subs, &mut states);
    assert_eq!(outcome.reply, Ok(Some("Removed: 2, 1\nNot removed: 99".to_string())));
    assert_eq!(outcome.actions.len(), 2);
}

#[test]
fn del_rejects_non_integers() {
    let (mut subs, mut states) = fresh();
    handle_message(&msg(telegram(1), "/add https://site/a/b"), &mut subs, &mut states);
    let outcome = handle_message(&msg(telegram(1), "/del 1 soon"), &mut subs, &mut states);
    assert_eq!(outcome.reply, Err("Could not parse ID: soon".to_string()));
    // Nothing was removed.
    assert!(subs.get_subscription(1).is_some());
}

#[test]
fn list_shows_only_this_channels_subscriptions() {
    let (mut subs, mut states) = fresh();
    handle_message(&msg(telegram(1), "/add https://site/foo/keres.php"), &mut subs, &mut states);
    handle_message(&msg(telegram(2), "/add https://site/bar/keres.php"), &mut subs, &mut states);

    let other = handle_message(&msg(telegram(3), "/list"), &mut subs, &mut states);
    assert_eq!(other.reply, Ok(Some("No subscriptions found".to_string())));

    let mine = reply_of(handle_message(&msg(telegram(1), "/list"), &mut subs, &mut states));
    assert!(mine.starts_with("ID:\t1\t("));
    assert!(mine.ends_with("): foo\n"));
    assert!(!mine.contains("bar"));

    let also = reply_of(handle_message(&msg(telegram(1), "/ls"), &mut subs, &mut states));
    assert_eq!(mine, also);
}

#[test]
fn info_describes_or_reports_missing() {
    let (mut subs, mut states) = fresh();
    handle_message(&msg(telegram(1), "/add https://site/foo/keres.php"), &mut subs, &mut states);
    let found = reply_of(handle_message(&msg(telegram(1), "/info 1"), &mut subs, &mut states));
    assert!(found.starts_with("Subscription { id: 1, name: foo, url: https://site/foo/keres.php"));
    assert!(found.contains("interval: 60s"));

    let missing = handle_message(&msg(telegram(1), "/info 5"), &mut subs, &mut states);
    assert_eq!(missing.reply, Ok(Some("Subscription with ID 5 does not exist".to_string())));

    let bad = handle_message(&msg(telegram(1), "/info x"), &mut subs, &mut states);
    assert_eq!(bad.reply, Err("Could not parse ID: x".to_string()));
}

#[test]
fn non_commands_and_unknown_commands_stay_silent() {
    let (mut subs, mut states) = fresh();
    let plain = handle_message(&msg(telegram(1), "hello there"), &mut subs, &mut states);
    assert_eq!(plain.reply, Ok(None));
    let unknown = handle_message(&msg(telegram(1), "/frobnicate 1"), &mut subs, &mut states);
    assert_eq!(unknown.reply, Ok(None));
    let empty = handle_message(&msg(telegram(1), ""), &mut subs, &mut states);
    assert_eq!(empty.reply, Ok(None));
}

#[test]
fn help_and_start_reply_with_fixed_texts() {
    let (mut subs, mut states) = fresh();
    let help = reply_of(handle_message(&msg(telegram(1), "/help"), &mut subs, &mut states));
    assert!(help.starts_with("Commands:\n"));
    assert!(help.contains("/add URL"));
    let hello = reply_of(handle_message(&msg(telegram(1), "/start"), &mut subs, &mut states));
    assert_eq!(hello, "Hello! I watch listings for you. Send /help to see the commands.");
}
