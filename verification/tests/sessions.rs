use wake_runner::sessions::{get_active_user_count, watch_active_user_count, WatcherAction};

fn chars(text: &str) -> Vec<char> {
    text.chars().collect()
}

#[test]
fn counts_names_separated_by_white_space() {
    assert_eq!(get_active_user_count(&chars("alice bob carol\n")), 3);
    assert_eq!(get_active_user_count(&chars("alice\n")), 1);
    assert_eq!(get_active_user_count(&chars("  alice \t bob  ")), 2);
    assert_eq!(get_active_user_count(&chars("root root root")), 3);
}

#[test]
fn empty_listing_has_no_sessions() {
    assert_eq!(get_active_user_count(&chars("")), 0);
    assert_eq!(get_active_user_count(&chars("\n")), 0);
    assert_eq!(get_active_user_count(&chars(" \t\r\n")), 0);
}

#[test]
fn count_agrees_with_split_whitespace() {
    for text in ["a\u{00A0}b", "a\u{2003}b\u{3000}c", "x\u{0085}y", "a\u{200B}b", "one\u{000B}two\u{000C}three"] {
        assert_eq!(get_active_user_count(&chars(text)), text.split_whitespace().count());
    }
}

#[test]
fn burst_of_notifications_is_one_query() {
    let mut watcher = watch_active_user_count(&chars("alice bob\n"));
    assert_eq!(watcher.active_user_sessions(), 2);
    assert_eq!(watcher.user_count_update_loop(), WatcherAction::Wait);
    watcher.notify();
    watcher.notify();
    watcher.notify();
    assert_eq!(watcher.user_count_update_loop(), WatcherAction::Requery);
    assert_eq!(watcher.publish(&chars("alice\n"), true), 1);
    assert_eq!(watcher.active_user_sessions(), 1);
    assert_eq!(watcher.user_count_update_loop(), WatcherAction::Wait);
}

#[test]
fn stopped_watcher_exits() {
    let mut watcher = watch_active_user_count(&chars(""));
    watcher.notify();
    watcher.stop();
    assert_eq!(watcher.user_count_update_loop(), WatcherAction::Exit);
    assert_eq!(watcher.user_count_update_loop(), WatcherAction::Exit);
}

#[test]
fn watcher_without_receivers_exits() {
    let mut watcher = watch_active_user_count(&chars("a"));
    watcher.notify();
    assert_eq!(watcher.user_count_update_loop(), WatcherAction::Requery);
    assert_eq!(watcher.publish(&chars("a b"), false), 2);
    assert_eq!(watcher.user_count_update_loop(), WatcherAction::Exit);
}
