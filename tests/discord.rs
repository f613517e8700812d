use astro_server_manager::discord::{
    DiscordBackend, DiscordWebhookError, Embed, EmbedType, WebhookMessage, WebhookMessageFlags,
};
use astro_server_manager::logging::Level;
use astro_server_manager::notifications::{EventTable, NotificationThreadMessage, NOTIFY_ICON_URL};

fn ts() -> jiff::Timestamp {
    jiff::Timestamp::from_second(1_736_899_200).unwrap()
}

fn backend() -> DiscordBackend {
    let mut emojis = EventTable::new();
    emojis.insert("player_join".to_string(), "wave".to_string());
    let mut colors = EventTable::new();
    colors.insert("player_join".to_string(), 0x00FF00u32);
    DiscordBackend { emojis, colors, version: "0.1.0".to_string() }
}

#[test]
fn eleventh_embed_is_refused() {
    let mut m = WebhookMessage::new();
    for _ in 0..10 {
        m = m.add_embed(Embed::new()).unwrap();
    }
    assert_eq!(m.embeds.as_ref().unwrap().len(), 10);
    assert_eq!(m.add_embed(Embed::new()).err(), Some(DiscordWebhookError::TooManyEmbeds));
}

#[test]
fn eleven_fields_fit_but_twenty_sixth_is_refused() {
    let mut e = Embed::new();
    for i in 0..11 {
        e = e.add_field(&format!("f{}", i), "v", None).unwrap();
    }
    assert_eq!(e.fields.as_ref().unwrap().len(), 11);
    for i in 11..25 {
        e = e.add_field(&format!("f{}", i), "v", Some(false)).unwrap();
    }
    assert_eq!(e.fields.as_ref().unwrap()[24].name, "f24");
    assert_eq!(e.add_field("f25", "v", None).err(), Some(DiscordWebhookError::TooManyFields));
}

#[test]
fn flags_bit_field() {
    let m = WebhookMessage::new().supress_embeds(true);
    let f = m.flags.unwrap();
    assert_eq!(f.bits(), 4);
    let m = m.supress_notifications(true);
    assert_eq!(m.flags.unwrap().bits(), 4100);
    let m = WebhookMessage::new().supress_notifications(true);
    assert_eq!(m.flags.unwrap().bits(), 4096);
    assert_eq!(WebhookMessageFlags::default().bits(), 0);
}

#[test]
fn builders_set_fields() {
    let m = WebhookMessage::new().content("hi").username("bot").avatar_url("https://a/b.png").tts(true);
    assert_eq!(m.content.as_deref(), Some("hi"));
    assert_eq!(m.username.as_deref(), Some("bot"));
    assert_eq!(m.avatar_url.as_deref(), Some("https://a/b.png"));
    assert_eq!(m.tts, Some(true));
    let e = Embed::new()
        .title("t")
        .embed_type(EmbedType::Link)
        .description("d")
        .url("https://x")
        .color(0x123456)
        .timestamp(ts())
        .footer("f", None, None)
        .image("https://i".to_string(), None, Some(1), Some(2))
        .thumbnail("https://t".to_string(), None, None, None)
        .video("https://v".to_string(), None, None, None)
        .provider(Some("p".to_string()), None)
        .author("a", None, None, None);
    assert_eq!(e.title.as_deref(), Some("t"));
    assert_eq!(e.embed_type, Some(EmbedType::Link));
    assert_eq!(e.description.as_deref(), Some("d"));
    assert_eq!(e.url.as_deref(), Some("https://x"));
    assert_eq!(e.color, Some(0x123456));
    assert_eq!(e.timestamp, Some(ts()));
    assert_eq!(e.footer.unwrap().text, "f");
    assert_eq!(e.image.unwrap().height, Some(1));
    assert_eq!(e.thumbnail.unwrap().url, "https://t");
    assert_eq!(e.video.unwrap().url, "https://v");
    assert_eq!(e.provider.unwrap().name.as_deref(), Some("p"));
    assert_eq!(e.author.unwrap().name, "a");
    assert_eq!(Embed::new().embed_type, Some(EmbedType::Rich));
}

#[test]
fn event_with_known_id() {
    let m = backend().render("Bob joined".to_string(), Some("player_join".to_string()), ts(), Level::Info);
    assert_eq!(m.username.as_deref(), Some("AstroServerManager"));
    assert_eq!(m.avatar_url.as_deref(), Some(NOTIFY_ICON_URL));
    let embeds = m.embeds.unwrap();
    assert_eq!(embeds.len(), 1);
    let e = &embeds[0];
    assert_eq!(e.title.as_deref(), Some(":wave: Bob joined"));
    assert_eq!(e.author.as_ref().unwrap().name, "Server Event");
    assert_eq!(e.color, Some(0x00FF00));
    let fields = e.fields.as_ref().unwrap();
    assert_eq!(fields.len(), 1);
    assert_eq!(fields[0].name, "Event");
    assert_eq!(fields[0].value, "player_join");
    assert_eq!(fields[0].inline, Some(true));
    assert_eq!(e.footer.as_ref().unwrap().text, "AstroServerManager v0.1.0");
    assert_eq!(e.footer.as_ref().unwrap().icon_url.as_deref(), Some(NOTIFY_ICON_URL));
    assert_eq!(e.timestamp, Some(ts()));
    assert!(e.description.is_none());
}

#[test]
fn event_with_unknown_id_uses_defaults() {
    let m = backend().render("Saved".to_string(), Some("save".to_string()), ts(), Level::Info);
    let e = &m.embeds.unwrap()[0];
    assert_eq!(e.title.as_deref(), Some("Saved"));
    assert_eq!(e.color, Some(0x2B2D31));
    assert_eq!(e.fields.as_ref().unwrap()[0].value, "save");
}

#[test]
fn levels_have_titles_and_colors() {
    let cases = [
        (Level::Error, "Error", 0xFF0000u32),
        (Level::Warn, "Warning", 0xFF8500),
        (Level::Info, "Information", 0x777777),
        (Level::Debug, "Debug", 0x3C475E),
        (Level::Trace, "Trace", 0x2B2D31),
    ];
    for (level, title, color) in cases {
        let m = backend().render("body".to_string(), None, ts(), level);
        let e = &m.embeds.unwrap()[0];
        assert_eq!(e.title.as_deref(), Some(title));
        assert_eq!(e.color, Some(color));
        assert_eq!(e.description.as_deref(), Some("body"));
        assert_eq!(e.author.as_ref().unwrap().name, "Server Message");
        assert!(e.fields.is_none());
    }
}

#[test]
fn discord_worker_step() {
    let b = backend();
    let m = b.step(Some(NotificationThreadMessage::msg("x".to_string(), ts(), Level::Error, None)));
    assert!(m.is_some());
    assert!(b.step(Some(NotificationThreadMessage::Stop)).is_none());
    assert!(b.step(None).is_none());
}

#[test]
fn error_messages() {
    assert_eq!(DiscordWebhookError::TooManyEmbeds.message(), "A webhook message can't have more than 10 embeds");
    assert_eq!(DiscordWebhookError::TooManyFields.message(), "An embed can't have more than 25 fields");
}
