//! Audit-log entries: the record as the platform reports it, the strict form
//! the rest of the library works on, and the kinds of moderation event.
use vstd::prelude::*;

verus! {

/// Kind of a moderation event, as far as the aggregation tells them apart.
#[derive(Clone, Copy, Debug, PartialEq, Eq, Structural)]
pub enum EventKind {
    Ban,
    Unban,
    Kick,
    Warn,
    Other,
}

/// Event type the platform writes for a ban.
pub const BAN_EVENT: &'static str = "group.user.ban";

/// Event type the platform writes for an unban.
pub const UNBAN_EVENT: &'static str = "group.user.unban";

/// Event type the platform writes for a kick from an instance.
pub const KICK_EVENT: &'static str = "group.instance.kick";

/// Event type the platform writes for a warning in an instance.
pub const WARN_EVENT: &'static str = "group.instance.warn";

/// The kind of event that an event type string names.
pub open spec fn event_kind(event_type: Seq<char>) -> EventKind {
    if event_type == BAN_EVENT@ {
        EventKind::Ban
    } else if event_type == UNBAN_EVENT@ {
        EventKind::Unban
    } else if event_type == KICK_EVENT@ {
        EventKind::Kick
    } else if event_type == WARN_EVENT@ {
        EventKind::Warn
    } else {
        EventKind::Other
    }
}

/// Classify an event type string.
pub fn classify(event_type: &String) -> (r: EventKind)
    ensures
        r == event_kind(event_type@),
{
    if *event_type == String::from_str(BAN_EVENT) {
        EventKind::Ban
    } else if *event_type == String::from_str(UNBAN_EVENT) {
        EventKind::Unban
    } else if *event_type == String::from_str(KICK_EVENT) {
        EventKind::Kick
    } else if *event_type == String::from_str(WARN_EVENT) {
        EventKind::Warn
    } else {
        EventKind::Other
    }
}

/// The view of an optional string.
pub open spec fn opt_view(o: Option<String>) -> Option<Seq<char>> {
    match o {
        Some(s) => Some(s@),
        None => None,
    }
}

/// Whether two optional strings hold the same text.
pub fn same_opt(a: &Option<String>, b: &Option<String>) -> (r: bool)
    ensures
        r == (opt_view(*a) == opt_view(*b)),
{
    match (a, b) {
        (Some(x), Some(y)) => *x == *y,
        (None, None) => true,
        _ => false,
    }
}

/// Copy of an optional string.
pub fn clone_opt(o: &Option<String>) -> (r: Option<String>)
    ensures
        r == *o,
{
    match o {
        Some(s) => Some(s.clone()),
        None => None,
    }
}

/// One moderation event of the group's audit log, with every field the
/// platform must provide present, and its creation time in Unix seconds.
pub struct Log {
    pub id: String,
    pub created_at: i64,
    pub group_id: String,
    pub actor_id: String,
    pub actor_display_name: Option<String>,
    pub target_id: Option<String>,
    pub event_type: String,
    pub description: String,
    pub data: String,
}

impl Log {
    /// The kind of this entry's event.
    pub open spec fn kind(self) -> EventKind {
        event_kind(self.event_type@)
    }

    /// The target of this entry, as text.
    pub open spec fn target(self) -> Option<Seq<char>> {
        opt_view(self.target_id)
    }

    /// A field-by-field copy of the entry.
    pub fn duplicate(&self) -> (r: Log)
        ensures
            r == *self,
    {
        Log {
            id: self.id.clone(),
            created_at: self.created_at,
            group_id: self.group_id.clone(),
            actor_id: self.actor_id.clone(),
            actor_display_name: clone_opt(&self.actor_display_name),
            target_id: clone_opt(&self.target_id),
            event_type: self.event_type.clone(),
            description: self.description.clone(),
            data: self.data.clone(),
        }
    }
}

/// An audit-log entry as the platform reports it: any field may be absent.
/// `data` is the entry's structured payload as JSON text.
pub struct RawLog {
    pub id: Option<String>,
    pub created_at: Option<String>,
    pub group_id: Option<String>,
    pub actor_id: Option<String>,
    pub actor_display_name: Option<String>,
    pub target_id: Option<String>,
    pub event_type: Option<String>,
    pub description: Option<String>,
    pub data: String,
}

/// A field of an audit-log entry that the library requires.
#[derive(Clone, Copy, Debug, PartialEq, Eq, Structural)]
pub enum LogField {
    Id,
    CreatedAt,
    GroupId,
    ActorId,
    EventType,
    Description,
}

/// Why a reported entry cannot be taken in.
#[derive(Clone, Copy, Debug, PartialEq, Eq, Structural)]
pub enum LogError {
    /// A required field is absent.
    Missing(LogField),
    /// The creation time is not an RFC 3339 timestamp.
    BadTimestamp,
}

/// Unix time, in seconds, of an RFC 3339 timestamp; `None` where the text is
/// not one.
pub uninterp spec fn rfc3339_unix_seconds(s: Seq<char>) -> Option<i64>;

/// Relies on `time::OffsetDateTime::parse` with the `Rfc3339` description and
/// on `OffsetDateTime::unix_timestamp`: the seconds since the Unix epoch of the
/// instant the text names, or `None` where it does not parse.
#[verifier::external_body]
fn parse_rfc3339(s: &str) -> (r: Option<i64>)
    ensures
        r == rfc3339_unix_seconds(s@),
{
    time::OffsetDateTime::parse(s, &time::format_description::well_known::Rfc3339)
        .ok()
        .map(|d| d.unix_timestamp())
}

/// The first reason, in field order, why `raw` cannot be taken in, where its
/// creation time reads as `created_at` (`None`: not a timestamp).
pub open spec fn raw_error(raw: RawLog, created_at: Option<i64>) -> Option<LogError> {
    if raw.id is None {
        Some(LogError::Missing(LogField::Id))
    } else if raw.created_at is None {
        Some(LogError::Missing(LogField::CreatedAt))
    } else if created_at is None {
        Some(LogError::BadTimestamp)
    } else if raw.group_id is None {
        Some(LogError::Missing(LogField::GroupId))
    } else if raw.actor_id is None {
        Some(LogError::Missing(LogField::ActorId))
    } else if raw.event_type is None {
        Some(LogError::Missing(LogField::EventType))
    } else if raw.description is None {
        Some(LogError::Missing(LogField::Description))
    } else {
        None
    }
}

/// The strict entry that a well-formed `raw` becomes.
pub open spec fn log_of_raw(raw: RawLog, created_at: i64) -> Log {
    Log {
        id: raw.id->0,
        created_at,
        group_id: raw.group_id->0,
        actor_id: raw.actor_id->0,
        actor_display_name: raw.actor_display_name,
        target_id: raw.target_id,
        event_type: raw.event_type->0,
        description: raw.description->0,
        data: raw.data,
    }
}

/// The creation time of `raw` in Unix seconds, where it has one that parses.
pub open spec fn raw_time(raw: RawLog) -> Option<i64> {
    match raw.created_at {
        Some(t) => rfc3339_unix_seconds(t@),
        None => None,
    }
}

impl Log {
    /// Take in an entry as reported, its creation time already read as
    /// `created_at` (`None` where it is not an RFC 3339 timestamp): every
    /// required field must be present and the time must have been read.
    pub fn from_parts(raw: RawLog, created_at: Option<i64>) -> (r: Result<Log, LogError>)
        ensures
            raw_error(raw, created_at) is Some ==> r == Err::<Log, LogError>(
                raw_error(raw, created_at)->0,
            ),
            raw_error(raw, created_at) is None ==> r == Ok::<Log, LogError>(
                log_of_raw(raw, created_at->0),
            ),
    {
        let RawLog {
            id,
            created_at: stamp,
            group_id,
            actor_id,
            actor_display_name,
            target_id,
            event_type,
            description,
            data,
        } = raw;
        let id = match id {
            Some(v) => v,
            None => return Err(LogError::Missing(LogField::Id)),
        };
        if stamp.is_none() {
            return Err(LogError::Missing(LogField::CreatedAt));
        }
        let created_at = match created_at {
            Some(t) => t,
            None => return Err(LogError::BadTimestamp),
        };
        let group_id = match group_id {
            Some(v) => v,
            None => return Err(LogError::Missing(LogField::GroupId)),
        };
        let actor_id = match actor_id {
            Some(v) => v,
            None => return Err(LogError::Missing(LogField::ActorId)),
        };
        let event_type = match event_type {
            Some(v) => v,
            None => return Err(LogError::Missing(LogField::EventType)),
        };
        let description = match description {
            Some(v) => v,
            None => return Err(LogError::Missing(LogField::Description)),
        };
        Ok(Log {
            id,
            created_at,
            group_id,
            actor_id,
            actor_display_name,
            target_id,
            event_type,
            description,
            data,
        })
    }

    /// Take in an entry as reported: every required field must be present and
    /// the creation time must be an RFC 3339 timestamp.
    pub fn try_from(raw: RawLog) -> (r: Result<Log, LogError>)
        ensures
            raw_error(raw, raw_time(raw)) is Some ==> r == Err::<Log, LogError>(
                raw_error(raw, raw_time(raw))->0,
            ),
            raw_error(raw, raw_time(raw)) is None ==> r == Ok::<Log, LogError>(
                log_of_raw(raw, raw_time(raw)->0),
            ),
    {
        let created_at = match &raw.created_at {
            Some(t) => parse_rfc3339(t.as_str()),
            None => None,
        };
        Log::from_parts(raw, created_at)
    }
}

} // verus!
