use rating_watch::cycle::{collect_snapshots, FetchError, Schedule, Snapshot};
use rating_watch::records::User;

fn user(id: i64) -> User {
    User { id, chat_id: id * 10, username: "u".to_string(), pwd: "p".to_string(), semester: 1 }
}

#[test]
fn failed_fetch_does_not_drop_others() {
    let outcomes = vec![
        Err(FetchError::NetworkError),
        Ok(Snapshot { user: user(2), subjects: vec![] }),
        Err(FetchError::ParseError),
        Ok(Snapshot { user: user(4), subjects: vec![] }),
    ];
    let kept = collect_snapshots(outcomes);
    assert_eq!(kept.len(), 2);
    assert_eq!(kept[0].user.id, 2);
    assert_eq!(kept[1].user.id, 4);
}

#[test]
fn all_failed_gives_nothing() {
    let kept = collect_snapshots(vec![Err(FetchError::AuthenticationFailed)]);
    assert!(kept.is_empty());
}

#[test]
fn delay_depends_on_successes() {
    let s = Schedule { update_secs: 1200, failed_update_secs: 600 };
    assert_eq!(s.next_delay(0), 600);
    assert_eq!(s.next_delay(1), 1200);
    assert_eq!(s.next_delay(30), 1200);
}
