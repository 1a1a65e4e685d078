use vrc_ban::alias::AliasMap;
use vrc_ban::leaderboard::{in_window, leaderboard, share_tenths, Counts, SharePolicy};
use vrc_ban::log::Log;

const NOW: i64 = 1_700_000_000;

fn entry(id: &str, kind: &str, actor: &str, target: Option<&str>, created_at: i64) -> Log {
    Log {
        id: id.to_string(),
        created_at,
        group_id: "grp_1".to_string(),
        actor_id: actor.to_string(),
        actor_display_name: None,
        target_id: target.map(|t| t.to_string()),
        event_type: kind.to_string(),
        description: String::new(),
        data: "{}".to_string(),
    }
}

fn ban(id: &str, actor: &str, target: &str, t: i64) -> Log {
    entry(id, "group.user.ban", actor, Some(target), t)
}

fn unban(id: &str, actor: &str, target: &str, t: i64) -> Log {
    entry(id, "group.user.unban", actor, Some(target), t)
}

fn kick(id: &str, actor: &str, target: &str, t: i64) -> Log {
    entry(id, "group.instance.kick", actor, Some(target), t)
}

fn warn(id: &str, actor: &str, target: &str, t: i64) -> Log {
    entry(id, "group.instance.warn", actor, Some(target), t)
}

#[test]
fn unban_cancels_earlier_ban() {
    let logs = vec![ban("1", "A", "T", NOW - 10), unban("2", "A", "T", NOW - 5)];
    let board = leaderboard(&logs, &AliasMap::new(), NOW);
    assert!(board.entries.is_empty());
    assert_eq!(board.totals.bans, 0);
}

#[test]
fn lone_ban_counts_once() {
    let logs = vec![ban("1", "A", "T", NOW - 10)];
    let board = leaderboard(&logs, &AliasMap::new(), NOW);
    assert_eq!(board.entries.len(), 1);
    assert_eq!(board.entries[0].actor_id, "A");
    assert_eq!(board.entries[0].counts.bans, 1);
    assert_eq!(board.entries[0].total, 1);
    assert_eq!(board.entries[0].rank, 1);
}

#[test]
fn unban_before_ban_cancels_nothing() {
    let logs = vec![unban("1", "A", "T", NOW - 10), ban("2", "A", "T", NOW - 5)];
    let board = leaderboard(&logs, &AliasMap::new(), NOW);
    assert_eq!(board.entries.len(), 1);
    assert_eq!(board.entries[0].counts.bans, 1);
}

#[test]
fn unban_by_other_actor_cancels_nothing() {
    let logs = vec![ban("1", "A", "T", NOW - 10), unban("2", "B", "T", NOW - 5)];
    let board = leaderboard(&logs, &AliasMap::new(), NOW);
    assert_eq!(board.entries.len(), 1);
    assert_eq!(board.entries[0].actor_id, "A");
    assert_eq!(board.entries[0].counts.bans, 1);
}

#[test]
fn unban_leaves_kicks_of_same_target() {
    let logs = vec![
        kick("1", "A", "T", NOW - 10),
        ban("2", "A", "T", NOW - 9),
        unban("3", "A", "T", NOW - 5),
    ];
    let board = leaderboard(&logs, &AliasMap::new(), NOW);
    assert_eq!(board.entries.len(), 1);
    assert_eq!(board.entries[0].counts.kicks, 1);
    assert_eq!(board.entries[0].counts.bans, 0);
    assert_eq!(board.entries[0].total, 1);
}

#[test]
fn equal_totals_keep_grouping_order() {
    let logs = vec![
        kick("1", "B", "T1", NOW),
        ban("2", "A", "T2", NOW),
        warn("3", "C", "T3", NOW),
        ban("4", "C", "T4", NOW),
    ];
    let board = leaderboard(&logs, &AliasMap::new(), NOW);
    let order: Vec<&str> = board.entries.iter().map(|e| e.actor_id.as_str()).collect();
    assert_eq!(order, vec!["C", "B", "A"]);
    let ranks: Vec<usize> = board.entries.iter().map(|e| e.rank).collect();
    assert_eq!(ranks, vec![1, 2, 3]);
}

#[test]
fn window_excludes_one_second_past_a_day() {
    assert!(!in_window(NOW, NOW - 86_401));
    assert!(in_window(NOW, NOW - (23 * 3600 + 59 * 60)));
    assert!(in_window(NOW, NOW - 86_400));
    let logs = vec![ban("1", "A", "T1", NOW - 86_401), ban("2", "A", "T2", NOW - (23 * 3600 + 59 * 60))];
    let board = leaderboard(&logs, &AliasMap::new(), NOW);
    assert_eq!(board.entries[0].counts.bans, 2);
    assert_eq!(board.entries[0].counts.new_bans, 1);
}

#[test]
fn end_to_end_scenario() {
    let d0 = NOW - 7200;
    let logs = vec![
        ban("1", "A", "T1", d0),
        kick("2", "A", "T2", d0),
        ban("3", "B", "T3", d0),
        unban("4", "A", "T1", d0 + 3600),
    ];
    let board = leaderboard(&logs, &AliasMap::new(), NOW);
    assert_eq!(board.entries.len(), 2);
    assert_eq!(board.entries[0].actor_id, "A");
    assert_eq!(board.entries[0].total, 1);
    assert_eq!(board.entries[0].counts.kicks, 1);
    assert_eq!(board.entries[0].counts.bans, 0);
    assert_eq!(board.entries[1].actor_id, "B");
    assert_eq!(board.entries[1].total, 1);
    assert_eq!(board.entries[1].counts.bans, 1);
    assert_eq!(board.totals.bans, 1);
    assert_eq!(board.totals.kicks, 1);
    assert_eq!(board.totals.new_bans, 1);
}

#[test]
fn aliases_merge_accounts() {
    let mut aliases = AliasMap::new();
    aliases.add("alt".to_string(), "main".to_string());
    aliases.add("bot".to_string(), "Vote Kick".to_string());
    let logs = vec![
        ban("1", "main", "T1", NOW),
        kick("2", "alt", "T2", NOW),
        kick("3", "bot", "T3", NOW),
        unban("4", "alt", "T1", NOW),
    ];
    let board = leaderboard(&logs, &aliases, NOW);
    assert_eq!(board.entries.len(), 2);
    assert_eq!(board.entries[0].actor_id, "main");
    assert_eq!(board.entries[0].counts.kicks, 1);
    assert_eq!(board.entries[0].counts.bans, 0);
    assert_eq!(board.entries[1].actor_id, "Vote Kick");
}

#[test]
fn untracked_events_are_ignored() {
    let logs = vec![
        entry("1", "group.member.join", "A", None, NOW),
        warn("2", "B", "T", NOW),
        warn("3", "B", "T", NOW - 100_000),
    ];
    let board = leaderboard(&logs, &AliasMap::new(), NOW);
    assert_eq!(board.entries.len(), 1);
    assert_eq!(board.entries[0].actor_id, "B");
    assert_eq!(board.entries[0].counts.warns, 2);
    assert_eq!(board.entries[0].counts.new_warns, 1);
    assert_eq!(board.totals.warns, 2);
}

#[test]
fn empty_input_gives_empty_board() {
    let board = leaderboard(&Vec::new(), &AliasMap::new(), NOW);
    assert!(board.entries.is_empty());
    assert_eq!(board.totals, Counts::zero());
}

#[test]
fn share_rounds_to_tenths() {
    let mut part = Counts::zero();
    part.bans = 1;
    part.warns = 1;
    let mut whole = Counts::zero();
    whole.bans = 3;
    whole.warns = 5;
    let keep = SharePolicy { exclude_warnings: false };
    let drop = SharePolicy { exclude_warnings: true };
    assert_eq!(share_tenths(&part, &whole, keep), 250);
    assert_eq!(share_tenths(&part, &whole, drop), 333);
    let mut two = Counts::zero();
    two.kicks = 2;
    assert_eq!(share_tenths(&two, &whole, drop), 667);
    assert_eq!(share_tenths(&part, &Counts::zero(), keep), 0);
}
