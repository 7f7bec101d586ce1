use rozsdhabot::calendar::Timestamp;
use rozsdhabot::config::{parse_integrations, ConfigError, Integration};
use rozsdhabot::models::{ChannelId, Listing, ListingType, OwnerId, Subscription,
    SubscriptionConfig};
use rozsdhabot::notify::{escape_markdown, format_telegram_notification, NotifierRegistry};
use rozsdhabot::parser::ScrapeMetadata;

fn sample_subscription() -> Subscription {
    Subscription {
        id: 3,
        name: Some("rtx 4090".to_string()),
        channels: vec![ChannelId::Telegram { chat_id: 42 }],
        owner: OwnerId::Telegram { user_id: Some(9) },
        url: "https://site/foo/keres.php?stext=rtx+4090".to_string(),
        config: SubscriptionConfig::default(),
        created_at: Timestamp { year: 2024, month: 3, day: 15, hour: 12, minute: 0 },
    }
}

fn sample_listing() -> Listing {
    Listing {
        id: 4242,
        url: "https://site/ad/4242".to_string(),
        title: "RTX 4090 (bontatlan)".to_string(),
        price: 450000,
        cities: vec!["Budapest".to_string(), "Szeged".to_string()],
        date: Timestamp { year: 2024, month: 3, day: 14, hour: 10, minute: 30 },
        frozen: false,
        seller_name: "seller_x".to_string(),
        seller_ratings: 12,
        seller_url: "/tag/x".to_string(),
        listing_type: ListingType::Regular,
    }
}

#[test]
fn telegram_notification_has_the_expected_shape() {
    let metadata = ScrapeMetadata {
        name: None,
        category: Some("Hardver".to_string()),
        min_price: Some(1000),
        max_price: Some(500000),
    };
    let text = format_telegram_notification(&sample_subscription(), &metadata, &sample_listing());
    assert_eq!(
        text,
        "\n450000 Ft\n[RTX 4090 \\(bontatlan\\)](https://site/ad/4242)\nBudapest, Szeged\n\\- seller\\_x \\(\\+12\\)\n\nFrom subscription:\n[rtx 4090](https://site/foo/keres.php?stext=rtx+4090) \\(3\\):\nbetween 1000 \\- 500000 Ft\n"
    );
}

#[test]
fn price_range_covers_all_four_cases() {
    let sub = sample_subscription();
    let listing = sample_listing();
    let case = |min_price: Option<u64>, max_price: Option<u64>| {
        let metadata = ScrapeMetadata { name: None, category: None, min_price, max_price };
        format_telegram_notification(&sub, &metadata, &listing)
    };
    assert!(case(Some(5), Some(9)).ends_with("between 5 \\- 9 Ft\n"));
    assert!(case(Some(5), None).ends_with("above 5 Ft\n"));
    assert!(case(None, Some(9)).ends_with("under 9 Ft\n"));
    assert!(case(None, None).ends_with("\\(3\\):\n\n"));
}

#[test]
fn markdown_escaping_prefixes_reserved_characters() {
    let input: Vec<char> = "a_b*c[d]e(f)g.h!i-j\\k".chars().collect();
    let escaped: String = escape_markdown(&input).into_iter().collect();
    assert_eq!(escaped, "a\\_b\\*c\\[d\\]e\\(f\\)g\\.h\\!i\\-j\\\\k");
}

#[test]
fn registry_routes_by_channel_tag() {
    let registry = NotifierRegistry::<&'static str> {
        telegram: Some("tg"),
        discord: None,
        terminal: Some("term"),
    };
    assert_eq!(registry.notifier_for(&ChannelId::Telegram { chat_id: 1 }), Some(&"tg"));
    assert_eq!(registry.notifier_for(&ChannelId::Terminal), Some(&"term"));
    assert_eq!(
        registry.notifier_for(&ChannelId::Discord { guild_id: 1, channel_id: 2 }),
        None
    );
    let empty = NotifierRegistry::<&'static str>::empty();
    assert_eq!(empty.notifier_for(&ChannelId::Terminal), None);
}

#[test]
fn integrations_parse_case_insensitively_with_trailing_commas() {
    let config = parse_integrations(
        "telegram,TERMINAL,",
        Some("tok".to_string()),
        None,
        false,
    )
    .unwrap();
    assert_eq!(config.integrations.len(), 2);
    assert_eq!(config.integrations[0], Integration::Telegram { token: "tok".to_string() });
    assert_eq!(config.integrations[1], Integration::Terminal);
    assert!(!config.disable_saving);
}

#[test]
fn integrations_reject_unknown_names_and_missing_tokens() {
    let unknown = parse_integrations("terminal,matrix", None, None, false).unwrap_err();
    assert_eq!(unknown, ConfigError::UnknownIntegration("MATRIX".to_string()));
    let no_token = parse_integrations("telegram", None, None, false).unwrap_err();
    assert_eq!(no_token, ConfigError::MissingTelegramToken);
    let no_discord = parse_integrations("discord", None, None, true).unwrap_err();
    assert_eq!(no_discord, ConfigError::MissingDiscordToken);
    // Repeats count once.
    let twice = parse_integrations("terminal,terminal", None, None, true).unwrap();
    assert_eq!(twice.integrations, vec![Integration::Terminal]);
    assert!(twice.disable_saving);
}
