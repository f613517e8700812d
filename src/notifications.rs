//! Notification messages: which log records become notifications, the
//! tables that map event identifiers to emojis, colors and priorities, the
//! decisions of a notification worker, and the rendering of a notification
//! for a topic-based push service.

use vstd::prelude::*;
use crate::logging::{Level, LevelFilter, passes_spec};
use crate::text::texts;

verus! {

/// jiff::Timestamp, an instant: carried through notifications unread.
#[verifier::external_type_specification]
#[verifier::external_body]
pub struct ExTimestamp(jiff::Timestamp);

/// Relies on jiff::Timestamp::now for the current instant, of which nothing
/// is promised; jiff panics only where the system clock lies outside of the
/// range it can represent.
pub assume_specification[ jiff::Timestamp::now ]() -> jiff::Timestamp;

/// Name of the application, as shown in notifications.
pub const NOTIFY_APP_NAME: &'static str = "AstroServerManager";

/// Icon of the application, as shown in notifications.
pub const NOTIFY_ICON_URL: &'static str = "https://astroneer.wiki.gg/images/7/74/Icon_Astroneer.png";

/// Target of the log records of server events.
pub const SERVER_EVENT_TARGET: &'static str = "event";

/// Which log records are sent as notifications.
#[derive(Debug, Clone, Copy, PartialEq, Eq, Structural)]
pub enum NotificationLevel {
    /// Only server events (start, shutdown, players joining or leaving, ...).
    Server,
    /// Server events and errors.
    Error,
    /// Server events, errors and warnings.
    Warn,
    /// Server events, errors, warnings and information.
    Info,
}

pub open spec fn notification_filter(l: NotificationLevel) -> LevelFilter {
    match l {
        NotificationLevel::Server => LevelFilter::Off,
        NotificationLevel::Error => LevelFilter::Error,
        NotificationLevel::Warn => LevelFilter::Warn,
        NotificationLevel::Info => LevelFilter::Info,
    }
}

impl Default for NotificationLevel {
    fn default() -> (r: Self)
        ensures
            r == NotificationLevel::Server,
    {
        NotificationLevel::Server
    }
}

impl NotificationLevel {
    /// Threshold of log records that this notification level sends (server
    /// events aside).
    pub fn level_filter(self) -> (r: LevelFilter)
        ensures
            r == notification_filter(self),
    {
        match self {
            NotificationLevel::Server => LevelFilter::Off,
            NotificationLevel::Error => LevelFilter::Error,
            NotificationLevel::Warn => LevelFilter::Warn,
            NotificationLevel::Info => LevelFilter::Info,
        }
    }
}

/// A message to a notification worker.
pub enum NotificationThreadMessage {
    /// A notification to deliver.
    Message { message: String, event_id: Option<String>, timestamp: jiff::Timestamp, level: Level },
    /// Stops the worker.
    Stop,
}

impl NotificationThreadMessage {
    pub fn msg(message: String, timestamp: jiff::Timestamp, level: Level, event_id: Option<String>) -> (r: Self)
        ensures
            r == (NotificationThreadMessage::Message { message, event_id, timestamp, level }),
    {
        NotificationThreadMessage::Message { message, event_id, timestamp, level }
    }
}

/// A log record, as the notification sink sees it.
pub struct LogRecord {
    pub level: Level,
    /// Category of the record; server events have `SERVER_EVENT_TARGET`.
    pub target: String,
    pub message: String,
    /// The record asks not to be sent as a notification.
    pub suppress_notify: bool,
    /// Identifier of the server event that the record reports.
    pub event_id: Option<String>,
}

pub open spec fn event_target() -> Seq<char> {
    seq!['e', 'v', 'e', 'n', 't']
}

/// A record reaches the notification worker where it does not ask to be left
/// out, and is a server event or passes the threshold of the notification
/// level.
pub open spec fn admitted(rec: LogRecord, level: NotificationLevel) -> bool {
    !rec.suppress_notify && (rec.target@ == event_target() || passes_spec(rec.level, notification_filter(level)))
}

/// Whether a record is sent as a notification.
pub fn admits(rec: &LogRecord, level: NotificationLevel) -> (r: bool)
    ensures
        r == admitted(*rec, level),
{
    if rec.suppress_notify {
        return false;
    }
    proof {
        reveal_strlit("event");
    }
    let event = String::from_str("event");
    assert(event@ =~= event_target());
    rec.target == event || rec.level.passes(level.level_filter())
}

/// The notification for a record, taken at instant `timestamp`: none where
/// the record is not admitted.
pub fn notification_for(rec: LogRecord, level: NotificationLevel, timestamp: jiff::Timestamp) -> (r: Option<NotificationThreadMessage>)
    ensures
        admitted(rec, level) ==> r == Some(
            NotificationThreadMessage::Message {
                message: rec.message,
                event_id: rec.event_id,
                timestamp,
                level: rec.level,
            },
        ),
        !admitted(rec, level) ==> r is None,
        rec.suppress_notify ==> r is None,
        rec.target@ != event_target() && !passes_spec(rec.level, notification_filter(level)) ==> r is None,
{
    if admits(&rec, level) {
        Some(NotificationThreadMessage::msg(rec.message, timestamp, rec.level, rec.event_id))
    } else {
        None
    }
}

/// The notification for a record, taken now: none where the record is not
/// admitted.
pub fn capture(rec: LogRecord, level: NotificationLevel) -> (r: Option<NotificationThreadMessage>)
    ensures
        (r is Some) == admitted(rec, level),
        r matches Some(NotificationThreadMessage::Message { message, event_id, level: l, .. }) ==> message == rec.message
            && event_id == rec.event_id && l == rec.level,
        r matches Some(m) ==> m is Message,
{
    if admits(&rec, level) {
        let now = jiff::Timestamp::now();
        Some(NotificationThreadMessage::msg(rec.message, now, rec.level, rec.event_id))
    } else {
        None
    }
}

/// Table from event identifiers to values; a later entry for a key replaces
/// an earlier one.
pub struct EventTable<V> {
    entries: Vec<(String, V)>,
}

pub open spec fn lookup_in<V>(entries: Seq<(String, V)>, key: Seq<char>) -> Option<V>
    decreases entries.len(),
{
    if entries.len() == 0 {
        None
    } else if entries.last().0@ == key {
        Some(entries.last().1)
    } else {
        lookup_in(entries.drop_last(), key)
    }
}

impl<V> EventTable<V> {
    /// Value for an event identifier.
    pub closed spec fn lookup(&self, key: Seq<char>) -> Option<V> {
        lookup_in(self.entries@, key)
    }

    /// An empty table.
    pub fn new() -> (r: Self)
        ensures
            forall|k: Seq<char>| #[trigger] r.lookup(k) is None,
    {
        EventTable { entries: Vec::new() }
    }

    /// Sets the value for an event identifier.
    pub fn insert(&mut self, key: String, value: V)
        ensures
            forall|k: Seq<char>| #[trigger] final(self).lookup(k) == (if k == key@ {
                Some(value)
            } else {
                old(self).lookup(k)
            }),
    {
        self.entries.push((key, value));
        assert forall|k: Seq<char>| #[trigger] self.lookup(k) == (if k == key@ {
            Some(value)
        } else {
            old(self).lookup(k)
        }) by {
            assert(self.entries@.drop_last() =~= old(self).entries@);
        }
    }

    /// Value for an event identifier, where it has one.
    pub fn get(&self, key: &str) -> (r: Option<&V>)
        ensures
            match r {
                Some(v) => self.lookup(key@) == Some(*v),
                None => self.lookup(key@) is None,
            },
    {
        let k = String::from_str(key);
        let mut i: usize = self.entries.len();
        assert(self.entries@.subrange(0, i as int) =~= self.entries@);
        while i > 0
            invariant
                i <= self.entries@.len(),
                k@ == key@,
                lookup_in(self.entries@, key@) == lookup_in(self.entries@.subrange(0, i as int), key@),
            decreases i,
        {
            let ghost prefix = self.entries@.subrange(0, i as int);
            assert(prefix.drop_last() =~= self.entries@.subrange(0, i as int - 1));
            assert(prefix.last() == self.entries@[i - 1]);
            let entry = &self.entries[i - 1];
            if entry.0 == k {
                return Some(&entry.1);
            }
            i = i - 1;
        }
        None
    }
}

/// Priority of a notification of the topic-based push service.
#[derive(Debug, Clone, Copy, PartialEq, Eq, Structural)]
pub enum NtfyPriority {
    Max,
    High,
    Default,
    Low,
    Min,
}

/// A notification for the topic-based push service.
pub struct NtfyNotification {
    pub topic: String,
    pub title: String,
    pub message: String,
    pub tags: Vec<String>,
    pub priority: NtfyPriority,
}

pub open spec fn level_title(l: Level) -> Seq<char> {
    match l {
        Level::Error => "Error"@,
        Level::Warn => "Warning"@,
        Level::Info => "Information"@,
        Level::Debug => "Debug"@,
        Level::Trace => "Trace"@,
    }
}

pub open spec fn level_tag(l: Level) -> Seq<char> {
    match l {
        Level::Error => "error"@,
        Level::Warn => "warn"@,
        Level::Info => "info"@,
        Level::Debug => "debug"@,
        Level::Trace => "trash"@,
    }
}

pub open spec fn level_priority(l: Level) -> NtfyPriority {
    match l {
        Level::Error => NtfyPriority::Max,
        Level::Warn => NtfyPriority::High,
        Level::Info => NtfyPriority::Default,
        Level::Debug => NtfyPriority::Low,
        Level::Trace => NtfyPriority::Min,
    }
}

pub(crate) fn title_of(l: Level) -> (r: &'static str)
    ensures
        r@ == level_title(l),
{
    match l {
        Level::Error => "Error",
        Level::Warn => "Warning",
        Level::Info => "Information",
        Level::Debug => "Debug",
        Level::Trace => "Trace",
    }
}

fn tag_of(l: Level) -> (r: &'static str)
    ensures
        r@ == level_tag(l),
{
    match l {
        Level::Error => "error",
        Level::Warn => "warn",
        Level::Info => "info",
        Level::Debug => "debug",
        Level::Trace => "trash",
    }
}

fn priority_of(l: Level) -> (r: NtfyPriority)
    ensures
        r == level_priority(l),
{
    match l {
        Level::Error => NtfyPriority::Max,
        Level::Warn => NtfyPriority::High,
        Level::Info => NtfyPriority::Default,
        Level::Debug => NtfyPriority::Low,
        Level::Trace => NtfyPriority::Min,
    }
}

/// Renderer of notifications for a topic of the topic-based push service.
pub struct NtfyBackend {
    pub topic: String,
    /// Emoji tag of each event identifier.
    pub emojis: EventTable<String>,
    /// Priority of each event identifier.
    pub priorities: EventTable<NtfyPriority>,
}

/// What the push service is sent for a message. A server event is titled
/// with the message and tagged with its emoji (where it has one), the
/// application name and its identifier; any other message is titled and
/// prioritised after its level.
pub open spec fn ntfy_rendered(b: NtfyBackend, message: Seq<char>, event_id: Option<Seq<char>>, level: Level, r: NtfyNotification) -> bool {
    r.topic@ == b.topic@ && match event_id {
        Some(id) => r.title@ == message && r.message@ == NOTIFY_APP_NAME@ && texts(r.tags@) == (match b.emojis.lookup(id) {
            Some(e) => seq![e@, NOTIFY_APP_NAME@, id],
            None => seq![NOTIFY_APP_NAME@, id],
        }) && r.priority == (match b.priorities.lookup(id) {
            Some(p) => p,
            None => NtfyPriority::Default,
        }),
        None => r.title@ == level_title(level) && r.message@ == message && texts(r.tags@) == seq![NOTIFY_APP_NAME@, level_tag(level)]
            && r.priority == level_priority(level),
    }
}

pub open spec fn opt_text(o: Option<String>) -> Option<Seq<char>> {
    match o {
        Some(s) => Some(s@),
        None => None,
    }
}

impl NtfyBackend {
    /// Renders a message for the push service.
    pub fn render(&self, message: String, event_id: Option<String>, level: Level) -> (r: NtfyNotification)
        ensures
            ntfy_rendered(*self, message@, opt_text(event_id), level, r),
    {
        let app = String::from_str(NOTIFY_APP_NAME);
        match event_id {
            Some(id) => {
                let mut tags: Vec<String> = Vec::new();
                match self.emojis.get(id.as_str()) {
                    Some(e) => tags.push(e.clone()),
                    None => {},
                }
                tags.push(app.clone());
                tags.push(id.clone());
                let priority = match self.priorities.get(id.as_str()) {
                    Some(p) => *p,
                    None => NtfyPriority::Default,
                };
                let r = NtfyNotification { topic: self.topic.clone(), title: message, message: app, tags, priority };
                assert(texts(r.tags@) =~= (match self.emojis.lookup(id@) {
                    Some(e) => seq![e@, NOTIFY_APP_NAME@, id@],
                    None => seq![NOTIFY_APP_NAME@, id@],
                }));
                r
            },
            None => {
                let mut tags: Vec<String> = Vec::new();
                tags.push(app);
                tags.push(String::from_str(tag_of(level)));
                let r = NtfyNotification {
                    topic: self.topic.clone(),
                    title: String::from_str(title_of(level)),
                    message,
                    tags,
                    priority: priority_of(level),
                };
                assert(texts(r.tags@) =~= seq![NOTIFY_APP_NAME@, level_tag(level)]);
                r
            },
        }
    }
}

impl NtfyBackend {
    /// One turn of a worker: what it sends for what it received from its
    /// channel (`None` where the channel is closed), or `None` where it stops.
    pub fn step(&self, received: Option<NotificationThreadMessage>) -> (r: Option<NtfyNotification>)
        ensures
            match received {
                Some(NotificationThreadMessage::Message { message, event_id, level, .. }) => r matches Some(n)
                    && ntfy_rendered(*self, message@, opt_text(event_id), level, n),
                _ => r is None,
            },
    {
        match received {
            Some(NotificationThreadMessage::Message { message, event_id, level, .. }) => Some(
                self.render(message, event_id, level),
            ),
            _ => None,
        }
    }
}

/// The messages that a worker delivers, in order, out of those it receives:
/// all of them up to the first `Stop`.
pub open spec fn delivered(received: Seq<NotificationThreadMessage>) -> Seq<NotificationThreadMessage>
    decreases received.len(),
{
    if received.len() == 0 {
        Seq::empty()
    } else if received[0] is Stop {
        Seq::empty()
    } else {
        seq![received[0]] + delivered(received.subrange(1, received.len() as int))
    }
}

/// Where `Stop` follows a burst of messages to deliver, a worker delivers
/// each message of the burst once, in the order received, and nothing that
/// comes after `Stop`.
pub proof fn lemma_stop_after_burst(burst: Seq<NotificationThreadMessage>, later: Seq<NotificationThreadMessage>)
    requires
        forall|i: int| 0 <= i < burst.len() ==> (#[trigger] burst[i]) is Message,
    ensures
        delivered(burst + seq![NotificationThreadMessage::Stop] + later) == burst,
    decreases burst.len(),
{
    let all = burst + seq![NotificationThreadMessage::Stop] + later;
    if burst.len() == 0 {
        assert(all[0] is Stop);
    } else {
        let rest = burst.subrange(1, burst.len() as int);
        assert forall|i: int| 0 <= i < rest.len() implies (#[trigger] rest[i]) is Message by {
            assert(rest[i] == burst[i + 1]);
        }
        lemma_stop_after_burst(rest, later);
        assert(all.subrange(1, all.len() as int) =~= rest + seq![NotificationThreadMessage::Stop] + later);
        assert(all[0] == burst[0]);
        assert(seq![burst[0]] + rest =~= burst);
    }
}

} // verus!
