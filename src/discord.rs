//! Messages for chat webhooks with rich embeds, and their rendering from
//! notification messages.

use vstd::prelude::*;
use crate::logging::Level;
use crate::notifications::{
    ntfy_rendered, opt_text, level_title, title_of, EventTable, NotificationThreadMessage, NtfyBackend,
    NtfyNotification, NtfyPriority, NOTIFY_APP_NAME, NOTIFY_ICON_URL,
};
use crate::text::texts;

verus! {

/// Most embeds that a webhook message can have.
pub const MAX_EMBEDS: usize = 10;

/// Most fields that an embed can have.
pub const MAX_FIELDS: usize = 25;

/// Why a webhook message could not be built.
#[derive(Debug, Clone, Copy, PartialEq, Eq, Structural)]
pub enum DiscordWebhookError {
    TooManyEmbeds,
    TooManyFields,
}

impl DiscordWebhookError {
    /// Description of the error.
    pub fn message(&self) -> (r: &'static str)
        ensures
            r@ == match self {
                DiscordWebhookError::TooManyEmbeds => "A webhook message can't have more than 10 embeds"@,
                DiscordWebhookError::TooManyFields => "An embed can't have more than 25 fields"@,
            },
    {
        match self {
            DiscordWebhookError::TooManyEmbeds => "A webhook message can't have more than 10 embeds",
            DiscordWebhookError::TooManyFields => "An embed can't have more than 25 fields",
        }
    }
}

/// A message for a chat webhook. Addresses are held as text.
pub struct WebhookMessage {
    pub content: Option<String>,
    pub username: Option<String>,
    pub avatar_url: Option<String>,
    pub tts: Option<bool>,
    pub embeds: Option<Vec<Embed>>,
    pub flags: Option<WebhookMessageFlags>,
}

/// Kind of an embed.
#[derive(Debug, Clone, Copy, PartialEq, Eq, Structural)]
pub enum EmbedType {
    Rich,
    Image,
    Video,
    Gifv,
    Article,
    Link,
    PollResult,
}

pub struct EmbedFooter {
    pub text: String,
    pub icon_url: Option<String>,
    pub proxy_icon_url: Option<String>,
}

pub struct EmbedImage {
    pub url: String,
    pub proxy_url: Option<String>,
    pub height: Option<i32>,
    pub width: Option<i32>,
}

pub struct EmbedThumbnail {
    pub url: String,
    pub proxy_url: Option<String>,
    pub height: Option<i32>,
    pub width: Option<i32>,
}

pub struct EmbedVideo {
    pub url: String,
    pub proxy_url: Option<String>,
    pub height: Option<i32>,
    pub width: Option<i32>,
}

pub struct EmbedProvider {
    pub name: Option<String>,
    pub url: Option<String>,
}

pub struct EmbedAuthor {
    pub name: String,
    pub url: Option<String>,
    pub icon_url: Option<String>,
    pub proxy_icon_url: Option<String>,
}

pub struct EmbedField {
    pub name: String,
    pub value: String,
    pub inline: Option<bool>,
}

/// Flags of a webhook message.
#[derive(Debug, Clone, Copy, PartialEq, Eq, Structural)]
pub struct WebhookMessageFlags {
    pub supress_embeds: bool,
    pub supress_notifications: bool,
}

impl Default for WebhookMessageFlags {
    fn default() -> (r: Self)
        ensures
            !r.supress_embeds,
            !r.supress_notifications,
    {
        WebhookMessageFlags { supress_embeds: false, supress_notifications: false }
    }
}

impl WebhookMessageFlags {
    /// The flags as the bit field that the webhook expects: bit 2 suppresses
    /// embeds, bit 12 suppresses notifications.
    pub fn bits(&self) -> (r: u16)
        ensures
            r == (if self.supress_embeds { 4u16 } else { 0u16 }) + (if self.supress_notifications { 4096u16 } else { 0u16 }),
    {
        let mut bitfield: u16 = 0;
        if self.supress_embeds {
            bitfield = bitfield + 4;
        }
        if self.supress_notifications {
            bitfield = bitfield + 4096;
        }
        bitfield
    }
}

/// Number of embeds of a message.
pub open spec fn embed_count(m: WebhookMessage) -> nat {
    match m.embeds {
        Some(v) => v@.len(),
        None => 0,
    }
}

/// Embeds of a message, in order.
pub open spec fn embeds_of(m: WebhookMessage) -> Seq<Embed> {
    match m.embeds {
        Some(v) => v@,
        None => Seq::empty(),
    }
}

/// Number of fields of an embed.
pub open spec fn field_count(e: Embed) -> nat {
    match e.fields {
        Some(v) => v@.len(),
        None => 0,
    }
}

/// Fields of an embed, in order.
pub open spec fn fields_of(e: Embed) -> Seq<EmbedField> {
    match e.fields {
        Some(v) => v@,
        None => Seq::empty(),
    }
}

pub open spec fn has_text(o: Option<String>, t: Seq<char>) -> bool {
    o matches Some(s) && s@ == t
}

impl Default for WebhookMessage {
    fn default() -> (r: Self)
        ensures
            r.content is None && r.username is None && r.avatar_url is None && r.tts is None && r.embeds is None
                && r.flags is None,
    {
        WebhookMessage { content: None, username: None, avatar_url: None, tts: None, embeds: None, flags: None }
    }
}

impl WebhookMessage {
    /// An empty message.
    pub fn new() -> (r: Self)
        ensures
            r.content is None && r.username is None && r.avatar_url is None && r.tts is None && r.embeds is None
                && r.flags is None,
    {
        WebhookMessage::default()
    }

    /// Sets the content of the message.
    pub fn content(self, value: &str) -> (r: Self)
        ensures
            has_text(r.content, value@),
            r == (WebhookMessage { content: r.content, ..self }),
    {
        WebhookMessage { content: Some(String::from_str(value)), ..self }
    }

    /// Sets the user name shown for the message.
    pub fn username(self, value: &str) -> (r: Self)
        ensures
            has_text(r.username, value@),
            r == (WebhookMessage { username: r.username, ..self }),
    {
        WebhookMessage { username: Some(String::from_str(value)), ..self }
    }

    /// Sets the address of the avatar shown for the message.
    pub fn avatar_url(self, value: &str) -> (r: Self)
        ensures
            has_text(r.avatar_url, value@),
            r == (WebhookMessage { avatar_url: r.avatar_url, ..self }),
    {
        WebhookMessage { avatar_url: Some(String::from_str(value)), ..self }
    }

    /// Sets whether the message is read out.
    pub fn tts(self, value: bool) -> (r: Self)
        ensures
            r == (WebhookMessage { tts: Some(value), ..self }),
    {
        WebhookMessage { tts: Some(value), ..self }
    }

    /// Adds an embed after the others; a message holds at most `MAX_EMBEDS`
    /// embeds.
    pub fn add_embed(self, embed: Embed) -> (r: Result<Self, DiscordWebhookError>)
        ensures
            r is Err <==> embed_count(self) >= MAX_EMBEDS,
            r matches Err(e) ==> e == DiscordWebhookError::TooManyEmbeds,
            r matches Ok(m) ==> m.embeds is Some && embeds_of(m) == embeds_of(self).push(embed)
                && m == (WebhookMessage { embeds: m.embeds, ..self }),
    {
        let WebhookMessage { content, username, avatar_url, tts, embeds, flags } = self;
        let embeds = match embeds {
            Some(mut v) => {
                if v.len() >= MAX_EMBEDS {
                    return Err(DiscordWebhookError::TooManyEmbeds);
                }
                v.push(embed);
                v
            },
            None => {
                let mut v: Vec<Embed> = Vec::new();
                v.push(embed);
                assert(v@ =~= Seq::<Embed>::empty().push(embed));
                v
            },
        };
        Ok(WebhookMessage { content, username, avatar_url, tts, embeds: Some(embeds), flags })
    }

    /// Sets the flag that suppresses embeds.
    pub fn supress_embeds(self, value: bool) -> (r: Self)
        ensures
            r == (WebhookMessage {
                flags: Some(
                    WebhookMessageFlags {
                        supress_embeds: value,
                        supress_notifications: match self.flags {
                            Some(f) => f.supress_notifications,
                            None => false,
                        },
                    },
                ),
                ..self
            }),
    {
        let mut flags = match self.flags {
            Some(f) => f,
            None => WebhookMessageFlags::default(),
        };
        flags.supress_embeds = value;
        WebhookMessage { flags: Some(flags), ..self }
    }

    /// Sets the flag that suppresses notifications.
    pub fn supress_notifications(self, value: bool) -> (r: Self)
        ensures
            r == (WebhookMessage {
                flags: Some(
                    WebhookMessageFlags {
                        supress_embeds: match self.flags {
                            Some(f) => f.supress_embeds,
                            None => false,
                        },
                        supress_notifications: value,
                    },
                ),
                ..self
            }),
    {
        let mut flags = match self.flags {
            Some(f) => f,
            None => WebhookMessageFlags::default(),
        };
        flags.supress_notifications = value;
        WebhookMessage { flags: Some(flags), ..self }
    }
}

/// An embed of a webhook message. Addresses are held as text, colors as
/// `0xRRGGBB`.
pub struct Embed {
    pub title: Option<String>,
    pub embed_type: Option<EmbedType>,
    pub description: Option<String>,
    pub url: Option<String>,
    pub timestamp: Option<jiff::Timestamp>,
    pub color: Option<u32>,
    pub footer: Option<EmbedFooter>,
    pub image: Option<EmbedImage>,
    pub thumbnail: Option<EmbedThumbnail>,
    pub video: Option<EmbedVideo>,
    pub provider: Option<EmbedProvider>,
    pub author: Option<EmbedAuthor>,
    pub fields: Option<Vec<EmbedField>>,
}

/// A rich embed with nothing set.
pub open spec fn is_blank_embed(e: Embed) -> bool {
    e.title is None && e.embed_type == Some(EmbedType::Rich) && e.description is None && e.url is None
        && e.timestamp is None && e.color is None && e.footer is None && e.image is None && e.thumbnail is None
        && e.video is None && e.provider is None && e.author is None && e.fields is None
}

impl Default for Embed {
    fn default() -> (r: Self)
        ensures
            is_blank_embed(r),
    {
        Embed {
            title: None,
            embed_type: Some(EmbedType::Rich),
            description: None,
            url: None,
            timestamp: None,
            color: None,
            footer: None,
            image: None,
            thumbnail: None,
            video: None,
            provider: None,
            author: None,
            fields: None,
        }
    }
}

impl Embed {
    /// A rich embed with nothing set.
    pub fn new() -> (r: Self)
        ensures
            is_blank_embed(r),
    {
        Embed::default()
    }

    /// Sets the title.
    pub fn title(self, value: &str) -> (r: Self)
        ensures
            has_text(r.title, value@),
            r == (Embed { title: r.title, ..self }),
    {
        Embed { title: Some(String::from_str(value)), ..self }
    }

    /// Sets the kind.
    pub fn embed_type(self, value: EmbedType) -> (r: Self)
        ensures
            r == (Embed { embed_type: Some(value), ..self }),
    {
        Embed { embed_type: Some(value), ..self }
    }

    /// Sets the description.
    pub fn description(self, value: &str) -> (r: Self)
        ensures
            has_text(r.description, value@),
            r == (Embed { description: r.description, ..self }),
    {
        Embed { description: Some(String::from_str(value)), ..self }
    }

    /// Sets the address.
    pub fn url(self, value: &str) -> (r: Self)
        ensures
            has_text(r.url, value@),
            r == (Embed { url: r.url, ..self }),
    {
        Embed { url: Some(String::from_str(value)), ..self }
    }

    /// Sets the instant shown.
    pub fn timestamp(self, value: jiff::Timestamp) -> (r: Self)
        ensures
            r == (Embed { timestamp: Some(value), ..self }),
    {
        Embed { timestamp: Some(value), ..self }
    }

    /// Sets the color, as `0xRRGGBB`.
    pub fn color(self, value: u32) -> (r: Self)
        ensures
            r == (Embed { color: Some(value), ..self }),
    {
        Embed { color: Some(value), ..self }
    }

    /// Sets the footer.
    pub fn footer(self, text: &str, icon_url: Option<String>, proxy_icon_url: Option<String>) -> (r: Self)
        ensures
            r.footer matches Some(f) && f.text@ == text@ && f.icon_url == icon_url && f.proxy_icon_url == proxy_icon_url,
            r == (Embed { footer: r.footer, ..self }),
    {
        Embed { footer: Some(EmbedFooter { text: String::from_str(text), icon_url, proxy_icon_url }), ..self }
    }

    /// Sets the image.
    pub fn image(self, url: String, proxy_url: Option<String>, height: Option<i32>, width: Option<i32>) -> (r: Self)
        ensures
            r == (Embed { image: Some(EmbedImage { url, proxy_url, height, width }), ..self }),
    {
        Embed { image: Some(EmbedImage { url, proxy_url, height, width }), ..self }
    }

    /// Sets the thumbnail.
    pub fn thumbnail(self, url: String, proxy_url: Option<String>, height: Option<i32>, width: Option<i32>) -> (r: Self)
        ensures
            r == (Embed { thumbnail: Some(EmbedThumbnail { url, proxy_url, height, width }), ..self }),
    {
        Embed { thumbnail: Some(EmbedThumbnail { url, proxy_url, height, width }), ..self }
    }

    /// Sets the video.
    pub fn video(self, url: String, proxy_url: Option<String>, height: Option<i32>, width: Option<i32>) -> (r: Self)
        ensures
            r == (Embed { video: Some(EmbedVideo { url, proxy_url, height, width }), ..self }),
    {
        Embed { video: Some(EmbedVideo { url, proxy_url, height, width }), ..self }
    }

    /// Sets the provider.
    pub fn provider(self, name: Option<String>, url: Option<String>) -> (r: Self)
        ensures
            r == (Embed { provider: Some(EmbedProvider { name, url }), ..self }),
    {
        Embed { provider: Some(EmbedProvider { name, url }), ..self }
    }

    /// Sets the author.
    pub fn author(self, name: &str, url: Option<String>, icon_url: Option<String>, proxy_icon_url: Option<String>) -> (r: Self)
        ensures
            r.author matches Some(a) && a.name@ == name@ && a.url == url && a.icon_url == icon_url
                && a.proxy_icon_url == proxy_icon_url,
            r == (Embed { author: r.author, ..self }),
    {
        Embed { author: Some(EmbedAuthor { name: String::from_str(name), url, icon_url, proxy_icon_url }), ..self }
    }

    /// Adds a field after the others; an embed holds at most `MAX_FIELDS`
    /// fields.
    pub fn add_field(self, name: &str, value: &str, inline: Option<bool>) -> (r: Result<Self, DiscordWebhookError>)
        ensures
            r is Err <==> field_count(self) >= MAX_FIELDS,
            r matches Err(e) ==> e == DiscordWebhookError::TooManyFields,
            r matches Ok(m) ==> m.fields is Some && fields_of(m).len() == fields_of(self).len() + 1
                && fields_of(m).drop_last() == fields_of(self) && fields_of(m).last().name@ == name@
                && fields_of(m).last().value@ == value@ && fields_of(m).last().inline == inline
                && m == (Embed { fields: m.fields, ..self }),
    {
        let field = EmbedField { name: String::from_str(name), value: String::from_str(value), inline };
        let Embed {
            title,
            embed_type,
            description,
            url,
            timestamp,
            color,
            footer,
            image,
            thumbnail,
            video,
            provider,
            author,
            fields,
        } = self;
        let fields = match fields {
            Some(mut v) => {
                if v.len() >= MAX_FIELDS {
                    return Err(DiscordWebhookError::TooManyFields);
                }
                v.push(field);
                assert(v@.drop_last() =~= fields_of(self));
                v
            },
            None => {
                let mut v: Vec<EmbedField> = Vec::new();
                v.push(field);
                assert(v@.drop_last() =~= Seq::<EmbedField>::empty());
                v
            },
        };
        Ok(
            Embed {
                title,
                embed_type,
                description,
                url,
                timestamp,
                color,
                footer,
                image,
                thumbnail,
                video,
                provider,
                author,
                fields: Some(fields),
            },
        )
    }
}

/// Value of a hexadecimal digit, in either case.
pub open spec fn hex_digit_value(c: char) -> Option<nat> {
    if '0' <= c && c <= '9' {
        Some((c as u32 - '0' as u32) as nat)
    } else if 'a' <= c && c <= 'f' {
        Some((c as u32 - 'a' as u32 + 10) as nat)
    } else if 'A' <= c && c <= 'F' {
        Some((c as u32 - 'A' as u32 + 10) as nat)
    } else {
        None
    }
}

pub open spec fn hex_at(s: Seq<char>, i: int) -> nat {
    match hex_digit_value(s[i]) {
        Some(v) => v,
        None => 0,
    }
}

/// `s` is a color code `#RRGGBB`: a `#` and six hexadecimal digits.
pub open spec fn is_rgb_code(s: Seq<char>) -> bool {
    &&& s.len() == 7 && s[0] == '#'
    &&& hex_digit_value(s[1]) is Some && hex_digit_value(s[2]) is Some && hex_digit_value(s[3]) is Some
    &&& hex_digit_value(s[4]) is Some && hex_digit_value(s[5]) is Some && hex_digit_value(s[6]) is Some
}

/// Color of a code `#RRGGBB`, as `0xRRGGBB`.
pub open spec fn rgb_code_value(s: Seq<char>) -> nat {
    hex_at(s, 1) * 0x100000 + hex_at(s, 2) * 0x10000 + hex_at(s, 3) * 0x1000 + hex_at(s, 4) * 0x100 + hex_at(s, 5)
        * 0x10 + hex_at(s, 6)
}

/// Relies on hex_color::HexColor::parse_rgb, read back by
/// hex_color::HexColor::to_u24: a `#` followed by six hexadecimal digits, in
/// either case, is the color `0xRRGGBB`.
#[verifier::external_body]
fn parse_rgb(s: &str) -> (r: Option<u32>)
    ensures
        is_rgb_code(s@) ==> r == Some(rgb_code_value(s@) as u32),
{
    hex_color::HexColor::parse_rgb(s).ok().map(|c| c.to_u24())
}

/// Reads a color code that is known to be well formed.
fn rgb(code: &str) -> (r: u32)
    requires
        is_rgb_code(code@),
    ensures
        r == rgb_code_value(code@),
{
    match parse_rgb(code) {
        Some(c) => c,
        None => vstd::pervasive::unreached(),
    }
}

/// Color of server events without a color of their own, as `0xRRGGBB`.
pub open spec fn default_event_color() -> u32 {
    0x2B2D31
}

/// Color of messages of each level, as `0xRRGGBB`.
pub open spec fn level_color(l: Level) -> u32 {
    match l {
        Level::Error => 0xFF0000,
        Level::Warn => 0xFF8500,
        Level::Info => 0x777777,
        Level::Debug => 0x3C475E,
        Level::Trace => 0x2B2D31,
    }
}

fn default_color() -> (r: u32)
    ensures
        r == default_event_color(),
{
    proof {
        reveal_strlit("#2B2D31");
    }
    rgb("#2B2D31")
}

fn color_of(l: Level) -> (r: u32)
    ensures
        r == level_color(l),
{
    proof {
        reveal_strlit("#ff0000");
        reveal_strlit("#ff8500");
        reveal_strlit("#777777");
        reveal_strlit("#3c475e");
        reveal_strlit("#2b2d31");
    }
    match l {
        Level::Error => rgb("#ff0000"),
        Level::Warn => rgb("#ff8500"),
        Level::Info => rgb("#777777"),
        Level::Debug => rgb("#3c475e"),
        Level::Trace => rgb("#2b2d31"),
    }
}

/// Renderer of notifications for a chat webhook.
pub struct DiscordBackend {
    /// Emoji name of each event identifier.
    pub emojis: EventTable<String>,
    /// Color of each event identifier, as `0xRRGGBB`.
    pub colors: EventTable<u32>,
    /// Version of the application, shown in the footer.
    pub version: String,
}

/// Text of the footer: the application name and version.
pub open spec fn footer_text(version: Seq<char>) -> Seq<char> {
    NOTIFY_APP_NAME@ + " v"@ + version
}

/// Title of a server event: the message, after the event's emoji where it has
/// one.
pub open spec fn event_title(b: DiscordBackend, message: Seq<char>, id: Seq<char>) -> Seq<char> {
    match b.emojis.lookup(id) {
        Some(e) => ":"@ + e@ + ": "@ + message,
        None => message,
    }
}

pub open spec fn author_is(e: Embed, name: Seq<char>) -> bool {
    e.author matches Some(a) && a.name@ == name && a.url is None && a.icon_url is None && a.proxy_icon_url is None
}

/// The embed for a message. A server event is titled after the message, with
/// the event's color (or the default one) and its identifier as field "Event";
/// any other message is titled and colored after its level, with the message
/// as description.
pub open spec fn embed_rendered(
    b: DiscordBackend,
    message: Seq<char>,
    event_id: Option<Seq<char>>,
    timestamp: jiff::Timestamp,
    level: Level,
    e: Embed,
) -> bool {
    &&& e.embed_type == Some(EmbedType::Rich)
    &&& e.timestamp == Some(timestamp)
    &&& e.url is None && e.image is None && e.thumbnail is None && e.video is None && e.provider is None
    &&& e.footer matches Some(f) && f.text@ == footer_text(b.version@) && has_text(f.icon_url, NOTIFY_ICON_URL@)
        && f.proxy_icon_url is None
    &&& match event_id {
        Some(id) => {
            &&& has_text(e.title, event_title(b, message, id))
            &&& e.description is None
            &&& author_is(e, "Server Event"@)
            &&& e.color == Some(
                match b.colors.lookup(id) {
                    Some(c) => c,
                    None => default_event_color(),
                },
            )
            &&& e.fields is Some && fields_of(e).len() == 1 && fields_of(e)[0].name@ == "Event"@
                && fields_of(e)[0].value@ == id && fields_of(e)[0].inline == Some(true)
        },
        None => {
            &&& has_text(e.title, level_title(level))
            &&& has_text(e.description, message)
            &&& author_is(e, "Server Message"@)
            &&& e.color == Some(level_color(level))
            &&& e.fields is None
        },
    }
}

/// The webhook message for a message: sent as the application, with its
/// icon, and one embed.
pub open spec fn discord_rendered(
    b: DiscordBackend,
    message: Seq<char>,
    event_id: Option<Seq<char>>,
    timestamp: jiff::Timestamp,
    level: Level,
    r: WebhookMessage,
) -> bool {
    &&& r.content is None && r.tts is None && r.flags is None
    &&& has_text(r.username, NOTIFY_APP_NAME@)
    &&& has_text(r.avatar_url, NOTIFY_ICON_URL@)
    &&& r.embeds is Some && embeds_of(r).len() == 1
    &&& embed_rendered(b, message, event_id, timestamp, level, embeds_of(r)[0])
}

impl DiscordBackend {
    fn footer_text(&self) -> (r: String)
        ensures
            r@ == footer_text(self.version@),
    {
        let mut t = String::from_str(NOTIFY_APP_NAME);
        t.append(" v");
        t.append(self.version.as_str());
        t
    }

    /// Renders a message for the webhook.
    pub fn render(&self, message: String, event_id: Option<String>, timestamp: jiff::Timestamp, level: Level) -> (r: WebhookMessage)
        ensures
            discord_rendered(*self, message@, opt_text(event_id), timestamp, level, r),
    {
        let embed = match event_id {
            Some(id) => {
                let title = match self.emojis.get(id.as_str()) {
                    Some(e) => {
                        let mut t = String::from_str(":");
                        t.append(e.as_str());
                        t.append(": ");
                        t.append(message.as_str());
                        t
                    },
                    None => message,
                };
                let color = match self.colors.get(id.as_str()) {
                    Some(c) => *c,
                    None => default_color(),
                };
                let e = Embed::new().title(title.as_str()).author("Server Event", None, None, None).color(color);
                let e = match e.add_field("Event", id.as_str(), Some(true)) {
                    Ok(e) => e,
                    Err(_) => vstd::pervasive::unreached(),
                };
                e.footer(self.footer_text().as_str(), Some(String::from_str(NOTIFY_ICON_URL)), None).timestamp(timestamp)
            },
            None => {
                Embed::new().title(title_of(level)).author("Server Message", None, None, None).description(
                    message.as_str(),
                ).color(color_of(level)).footer(
                    self.footer_text().as_str(),
                    Some(String::from_str(NOTIFY_ICON_URL)),
                    None,
                ).timestamp(timestamp)
            },
        };
        let m = WebhookMessage::new().username(NOTIFY_APP_NAME).avatar_url(NOTIFY_ICON_URL);
        match m.add_embed(embed) {
            Ok(m) => {
                assert(embeds_of(m) =~= seq![embed]);
                m
            },
            Err(_) => vstd::pervasive::unreached(),
        }
    }

    /// One turn of a worker: what it posts for what it received from its
    /// channel (`None` where the channel is closed), or `None` where it stops.
    pub fn step(&self, received: Option<NotificationThreadMessage>) -> (r: Option<WebhookMessage>)
        ensures
            match received {
                Some(NotificationThreadMessage::Message { message, event_id, timestamp, level }) => r matches Some(m)
                    && discord_rendered(*self, message@, opt_text(event_id), timestamp, level, m),
                _ => r is None,
            },
    {
        match received {
            Some(NotificationThreadMessage::Message { message, event_id, timestamp, level }) => Some(
                self.render(message, event_id, timestamp, level),
            ),
            _ => None,
        }
    }
}

/// A server event whose identifier no table knows is still rendered, with
/// the defaults: for the push service, no emoji tag and the default
/// priority; for the webhook, the message as title and the default color.
pub proof fn lemma_unknown_event_uses_defaults(
    ntfy: NtfyBackend,
    discord: DiscordBackend,
    message: Seq<char>,
    id: Seq<char>,
    timestamp: jiff::Timestamp,
    level: Level,
    pushed: NtfyNotification,
    posted: WebhookMessage,
)
    requires
        ntfy.emojis.lookup(id) is None,
        ntfy.priorities.lookup(id) is None,
        discord.emojis.lookup(id) is None,
        discord.colors.lookup(id) is None,
        ntfy_rendered(ntfy, message, Some(id), level, pushed),
        discord_rendered(discord, message, Some(id), timestamp, level, posted),
    ensures
        pushed.title@ == message,
        texts(pushed.tags@) == seq![NOTIFY_APP_NAME@, id],
        pushed.priority == NtfyPriority::Default,
        has_text(embeds_of(posted)[0].title, message),
        embeds_of(posted)[0].color == Some(default_event_color()),
        fields_of(embeds_of(posted)[0])[0].value@ == id,
{
}

} // verus!
