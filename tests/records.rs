use vrc_ban::alias::AliasMap;
use vrc_ban::log::{classify, EventKind, Log, LogError, LogField, RawLog};
use vrc_ban::browse::{controls, BrowseStep, Browser, Control};

fn raw() -> RawLog {
    RawLog {
        id: Some("gaud_1".to_string()),
        created_at: Some("2024-01-01T00:00:00Z".to_string()),
        group_id: Some("grp_1".to_string()),
        actor_id: Some("usr_a".to_string()),
        actor_display_name: None,
        target_id: Some("usr_t".to_string()),
        event_type: Some("group.user.ban".to_string()),
        description: Some("banned".to_string()),
        data: "{}".to_string(),
    }
}

#[test]
fn well_formed_record_is_taken_in() {
    let log = Log::try_from(raw()).unwrap();
    assert_eq!(log.id, "gaud_1");
    assert_eq!(log.created_at, 1_704_067_200);
    assert_eq!(log.target_id.as_deref(), Some("usr_t"));
    let mut r = raw();
    r.created_at = Some("2024-01-01T02:00:00+02:00".to_string());
    assert_eq!(Log::try_from(r).unwrap().created_at, 1_704_067_200);
}

#[test]
fn missing_fields_are_reported() {
    let mut r = raw();
    r.id = None;
    assert_eq!(Log::try_from(r).err(), Some(LogError::Missing(LogField::Id)));
    let mut r = raw();
    r.created_at = None;
    assert_eq!(Log::try_from(r).err(), Some(LogError::Missing(LogField::CreatedAt)));
    let mut r = raw();
    r.group_id = None;
    assert_eq!(Log::try_from(r).err(), Some(LogError::Missing(LogField::GroupId)));
    let mut r = raw();
    r.actor_id = None;
    assert_eq!(Log::try_from(r).err(), Some(LogError::Missing(LogField::ActorId)));
    let mut r = raw();
    r.event_type = None;
    assert_eq!(Log::try_from(r).err(), Some(LogError::Missing(LogField::EventType)));
    let mut r = raw();
    r.description = None;
    assert_eq!(Log::try_from(r).err(), Some(LogError::Missing(LogField::Description)));
    let mut r = raw();
    r.target_id = None;
    assert!(Log::try_from(r).is_ok());
}

#[test]
fn bad_timestamp_is_reported() {
    let mut r = raw();
    r.created_at = Some("yesterday".to_string());
    assert_eq!(Log::try_from(r).err(), Some(LogError::BadTimestamp));
}

#[test]
fn event_types_are_classified() {
    assert_eq!(classify(&"group.user.ban".to_string()), EventKind::Ban);
    assert_eq!(classify(&"group.user.unban".to_string()), EventKind::Unban);
    assert_eq!(classify(&"group.instance.kick".to_string()), EventKind::Kick);
    assert_eq!(classify(&"group.instance.warn".to_string()), EventKind::Warn);
    assert_eq!(classify(&"group.member.join".to_string()), EventKind::Other);
}

#[test]
fn aliases_are_deterministic() {
    let mut m = AliasMap::new();
    m.add("usr_alt".to_string(), "usr_main".to_string());
    m.add("usr_alt".to_string(), "usr_later".to_string());
    let id = "usr_alt".to_string();
    assert_eq!(m.canonical(&id), "usr_main");
    assert_eq!(m.canonical(&id), m.canonical(&id));
    assert_eq!(m.canonical(&"usr_other".to_string()), "usr_other");
    assert_eq!(AliasMap::new().canonical(&id), "usr_alt");
}

#[test]
fn browse_controls() {
    assert_eq!(controls(0, 3, Some(true)), vec![Control::Next, Control::Pardon]);
    assert_eq!(controls(1, 3, Some(false)), vec![Control::Previous, Control::Next, Control::Ban]);
    assert_eq!(controls(2, 3, None), vec![Control::Previous]);
    assert_eq!(controls(0, 1, None), Vec::<Control>::new());
}

#[test]
fn browse_moves_and_acts() {
    assert!(Browser::new(0).is_none());
    let mut r = Browser::new(2).unwrap();
    assert_eq!(r.press(Control::Previous), BrowseStep::Ignore);
    assert_eq!(r.press(Control::Next), BrowseStep::Show(1));
    assert_eq!(r.press(Control::Next), BrowseStep::Ignore);
    assert_eq!(r.press(Control::Previous), BrowseStep::Show(0));
    assert_eq!(r.press(Control::Ban), BrowseStep::Ban(0));
    assert_eq!(r.press(Control::Pardon), BrowseStep::Ignore);
}

#[test]
fn parsed_time_is_taken_as_given() {
    assert_eq!(Log::from_parts(raw(), Some(5)).unwrap().created_at, 5);
    assert_eq!(Log::from_parts(raw(), None).err(), Some(LogError::BadTimestamp));
    let mut r = raw();
    r.created_at = None;
    assert_eq!(Log::from_parts(r, Some(5)).err(), Some(LogError::Missing(LogField::CreatedAt)));
    let mut r = raw();
    r.id = None;
    assert_eq!(Log::from_parts(r, None).err(), Some(LogError::Missing(LogField::Id)));
    let mut r = raw();
    r.group_id = None;
    assert_eq!(Log::from_parts(r, None).err(), Some(LogError::BadTimestamp));
}
