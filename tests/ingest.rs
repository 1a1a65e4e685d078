use vrc_ban::ingest::{ingest, MemoryRemote, Pager, PAGE_SIZE};
use vrc_ban::log::Log;
use vrc_ban::store::LogStore;

fn entry(id: usize, kind: &str, target: &str, created_at: i64) -> Log {
    Log {
        id: format!("gaud_{id}"),
        created_at,
        group_id: "grp_1".to_string(),
        actor_id: "usr_staff".to_string(),
        actor_display_name: Some("Staff".to_string()),
        target_id: Some(target.to_string()),
        event_type: kind.to_string(),
        description: String::new(),
        data: "{}".to_string(),
    }
}

fn history(n: usize) -> Vec<Log> {
    (0..n).map(|i| entry(i, "group.user.ban", "usr_t", 1_000_000 - i as i64)).collect()
}

#[test]
fn inserting_twice_is_a_no_op() {
    let mut store = LogStore::new();
    assert!(store.insert_log(entry(1, "group.user.ban", "usr_t", 10)));
    let mut again = entry(1, "group.user.kick", "usr_other", 20);
    again.description = "changed".to_string();
    assert!(!store.insert_log(again));
    assert_eq!(store.len(), 1);
    assert_eq!(store.entries()[0].event_type, "group.user.ban");
    assert_eq!(store.entries()[0].created_at, 10);
}

#[test]
fn merge_counts_new_entries() {
    let mut store = LogStore::new();
    assert_eq!(store.merge(history(3)), 3);
    assert_eq!(store.merge(history(5)), 2);
    assert_eq!(store.len(), 5);
    assert!(store.contains_id(&"gaud_4".to_string()));
    assert!(!store.contains_id(&"gaud_5".to_string()));
}

#[test]
fn cold_pass_walks_every_page() {
    for (n, pages) in [(1usize, 1usize), (99, 1), (100, 1), (101, 2), (200, 2), (250, 3)] {
        let remote = MemoryRemote { history: history(n) };
        let mut store = LogStore::new();
        assert_eq!(ingest(&remote, &mut store), pages, "history of {n}");
        assert_eq!(store.len(), n);
    }
}

#[test]
fn second_pass_asks_once() {
    let remote = MemoryRemote { history: history(250) };
    let mut store = LogStore::new();
    assert_eq!(ingest(&remote, &mut store), 3);
    assert_eq!(ingest(&remote, &mut store), 1);
    assert_eq!(store.len(), 250);
}

#[test]
fn empty_history_asks_once() {
    let remote = MemoryRemote { history: Vec::new() };
    let mut store = LogStore::new();
    assert_eq!(ingest(&remote, &mut store), 1);
    assert_eq!(store.len(), 0);
}

#[test]
fn new_entries_on_top_are_picked_up() {
    let mut all = history(250);
    let mut store = LogStore::new();
    let remote = MemoryRemote { history: history(250) };
    ingest(&remote, &mut store);
    all.insert(0, entry(900, "group.instance.kick", "usr_x", 2_000_000));
    let remote = MemoryRemote { history: all };
    // The first page brings one new entry, so the pass looks at the second,
    // which brings none.
    assert_eq!(ingest(&remote, &mut store), 2);
    assert_eq!(store.len(), 251);
}

#[test]
fn remote_pages() {
    let remote = MemoryRemote { history: history(150) };
    let (first, more) = remote.page(0);
    assert_eq!(first.len(), PAGE_SIZE);
    assert!(more);
    let (second, more) = remote.page(100);
    assert_eq!(second.len(), 50);
    assert_eq!(second[0].id, "gaud_100");
    assert!(!more);
    let (past, more) = remote.page(300);
    assert!(past.is_empty());
    assert!(!more);
}

#[test]
fn pager_stops_on_each_rule() {
    let mut p = Pager::new();
    assert_eq!(p.next_offset(), Some(0));
    p.on_page(100, true, 100);
    assert_eq!(p.next_offset(), Some(100));
    p.on_page(100, true, 0);
    assert_eq!(p.next_offset(), None);

    let mut p = Pager::new();
    p.on_page(0, true, 0);
    assert!(p.finished());

    let mut p = Pager::new();
    p.on_page(40, false, 40);
    assert!(p.finished());
    assert_eq!(p.offset(), 0);

    let mut p = Pager::new();
    p.abandon();
    assert_eq!(p.next_offset(), None);
}

#[test]
fn recent_actions_newest_first() {
    let mut store = LogStore::new();
    store.insert_log(entry(1, "group.user.ban", "usr_a", 10));
    store.insert_log(entry(2, "group.user.unban", "usr_a", 30));
    store.insert_log(entry(3, "group.instance.kick", "usr_a", 40));
    store.insert_log(entry(4, "group.user.ban", "usr_b", 20));
    store.insert_log(entry(5, "group.user.ban", "usr_a", 10));
    let on_a: Vec<String> = store.get_recent_actions_by_id(&"usr_a".to_string()).into_iter().map(|l| l.id).collect();
    assert_eq!(on_a, vec!["gaud_2", "gaud_1", "gaud_5"]);
    let all: Vec<String> = store.get_all_recent_actions().into_iter().map(|l| l.id).collect();
    assert_eq!(all, vec!["gaud_2", "gaud_4", "gaud_1", "gaud_5"]);
    assert!(store.get_recent_actions_by_id(&"usr_none".to_string()).is_empty());
}
