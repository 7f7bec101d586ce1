use rozsdhabot::models::{ChannelId, OwnerId, Subscription, SubscriptionConfig, SubscriptionState};
use rozsdhabot::store::{RuntimeStateStore, SubscriptionStore};

fn telegram_channel(chat_id: i64) -> ChannelId {
    ChannelId::Telegram { chat_id }
}

fn telegram_owner(user_id: u64) -> OwnerId {
    OwnerId::Telegram { user_id: Some(user_id) }
}

#[test]
fn test_subscription_store() {
    let mut store = SubscriptionStore::new(Vec::new());
    store.add_subscription(
        "https://hardverapro.hu".to_string(),
        telegram_channel(1),
        telegram_owner(1),
    );

    let subscription = Subscription {
        id: 1,
        // "https://hardverapro.hu" has a single (empty) path segment and no
        // stext query parameter, so no name can be derived from it.
        name: None,
        channels: vec![telegram_channel(1)],
        owner: telegram_owner(1),
        url: "https://hardverapro.hu".to_string(),
        config: SubscriptionConfig::default(),
        created_at: store.get_subscription(1).unwrap().created_at,
    };

    assert_eq!(store.get_subscription(1), Some(&subscription));
    assert_eq!(store.list_by_channel(telegram_channel(1)), vec![&subscription]);

    store.remove_subscription(1);
    assert_eq!(store.get_subscription(1), None);
}

#[test]
fn ids_grow_monotonically_and_are_unique() {
    let mut store = SubscriptionStore::new(Vec::new());
    let a = store.add_subscription("u1".to_string(), telegram_channel(1), telegram_owner(1));
    let b = store.add_subscription("u2".to_string(), telegram_channel(1), telegram_owner(1));
    assert_eq!(a, 1);
    assert_eq!(b, 2);
    // Removing never recycles an id within a run.
    assert!(store.remove_subscription(a));
    let c = store.add_subscription("u3".to_string(), telegram_channel(1), telegram_owner(1));
    assert_eq!(c, 3);
    assert!(store.get_subscription(1).is_none());
    assert_eq!(store.get_subscription(2).unwrap().id, 2);
    assert_eq!(store.get_subscription(3).unwrap().id, 3);
}

#[test]
fn subscription_round_trip_rebuilds_equal_store() {
    let mut store = SubscriptionStore::new(Vec::new());
    store.add_subscription(
        "https://site/cat/keres.php?stext=ssd".to_string(),
        telegram_channel(7),
        telegram_owner(7),
    );
    store.add_subscription("https://site/x/y".to_string(), telegram_channel(8), telegram_owner(8));
    store.remove_subscription(1);
    store.add_subscription("https://site/a/b".to_string(), telegram_channel(9), telegram_owner(9));

    let saved: Vec<Subscription> = store.entries().iter().map(|s| s.duplicate()).collect();
    let reloaded = SubscriptionStore::new(saved);
    assert_eq!(reloaded.entries(), store.entries());
    // next_id resumes above the highest live id.
    assert_eq!(reloaded.next_id, 4);
}

#[test]
fn state_round_trip_rebuilds_equal_table() {
    let mut states = RuntimeStateStore::new(Vec::new());
    states.update_last_seen(1, 105);
    states.update_last_seen(2, 800);
    states.update_last_seen(1, 110);

    let saved = states.entries();
    let reloaded = RuntimeStateStore::new(saved);
    assert_eq!(reloaded.entries(), states.entries());
    assert_eq!(
        reloaded.get(1),
        Some(SubscriptionState { subscription_id: 1, last_seen: Some(110) })
    );
}

#[test]
fn remove_for_channel_needs_matching_channel() {
    let mut store = SubscriptionStore::new(Vec::new());
    let id = store.add_subscription("u".to_string(), telegram_channel(1), telegram_owner(1));
    // A foreign channel cannot remove the subscription.
    assert!(!store.remove_for_channel(id, telegram_channel(2)));
    assert!(store.get_subscription(id).is_some());
    // The owning channel can.
    assert!(store.remove_for_channel(id, telegram_channel(1)));
    assert!(store.get_subscription(id).is_none());
}

#[test]
fn watermark_updates_are_upserts() {
    let mut states = RuntimeStateStore::new(Vec::new());
    assert_eq!(states.get(5), None);
    states.update_last_seen(5, 100);
    assert_eq!(
        states.get(5),
        Some(SubscriptionState { subscription_id: 5, last_seen: Some(100) })
    );
    states.update_last_seen(5, 120);
    assert_eq!(
        states.get(5),
        Some(SubscriptionState { subscription_id: 5, last_seen: Some(120) })
    );
    states.remove(5);
    assert_eq!(states.get(5), None);
}

#[test]
fn name_derivation_follows_the_url() {
    let mut store = SubscriptionStore::new(Vec::new());
    let a = store.add_subscription(
        "https://site/foo/keres.php?stext=rtx+4090&foo=1".to_string(),
        telegram_channel(1),
        telegram_owner(1),
    );
    assert_eq!(store.get_subscription(a).unwrap().name.as_deref(), Some("rtx 4090"));

    let b = store.add_subscription(
        "https://site/foo/keres.php".to_string(),
        telegram_channel(1),
        telegram_owner(1),
    );
    assert_eq!(store.get_subscription(b).unwrap().name.as_deref(), Some("foo"));

    let c = store.add_subscription(
        "https://site/".to_string(),
        telegram_channel(1),
        telegram_owner(1),
    );
    assert_eq!(store.get_subscription(c).unwrap().name, None);
}
