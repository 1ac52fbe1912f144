use rating_watch::diff::{notification_after_writes, reconcile, Reconciliation};
use rating_watch::records::Subject;

fn subject(name: &str, attendance: i64, control: i64, creative: i64, test: i64) -> Subject {
    Subject { name: name.to_string(), attendance, control, creative, test }
}

fn same(a: &Subject, b: &Subject) -> bool {
    a.name == b.name
        && a.attendance == b.attendance
        && a.control == b.control
        && a.creative == b.creative
        && a.test == b.test
}

const INIT: &str = "Рейтинг обновился \\(вероятно это уведомление из\\-за смены семестра\\)";

#[test]
fn empty_baseline_inserts_everything_and_announces() {
    let fetched = vec![subject("Math", 1000, 800, 500, 700), subject("Physics", 100, 0, 0, 0)];
    let r = reconcile(&fetched, &vec![], 42);
    assert_eq!(r.inserts.len(), 2);
    assert!(same(&r.inserts[0], &fetched[0]));
    assert!(same(&r.inserts[1], &fetched[1]));
    assert!(r.updates.is_empty());
    let n = r.notification.expect("initialization notice");
    assert_eq!(n.chat_id, 42);
    assert_eq!(n.message, INIT);
}

#[test]
fn unchanged_values_are_silent() {
    let baseline = vec![subject("Math", 1000, 800, 500, 700), subject("Art", 1, 2, 3, 4)];
    let fetched = vec![subject("Art", 1, 2, 3, 4), subject("Math", 1000, 800, 500, 700)];
    let r = reconcile(&fetched, &baseline, 7);
    assert!(r.inserts.is_empty());
    assert!(r.updates.is_empty());
    assert!(r.notification.is_none());
}

#[test]
fn one_component_change_gives_one_line() {
    let baseline = vec![subject("Math", 1000, 800, 500, 700), subject("Art", 1, 2, 3, 4)];
    let fetched = vec![subject("Math", 1000, 800, 500, 700), subject("Art", 1, 2, 3, 54)];
    let r = reconcile(&fetched, &baseline, 7);
    assert_eq!(r.updates.len(), 1);
    assert!(same(&r.updates[0], &fetched[1]));
    assert_eq!(r.notification.unwrap().message, "||\\+0\\.5|| за экз/тест\nПо Art\n");
}

#[test]
fn delta_is_new_minus_old() {
    let baseline = vec![subject("Math", 1200, 800, 500, 700)];
    let up = reconcile(&vec![subject("Math", 1500, 800, 500, 700)], &baseline, 1);
    assert_eq!(up.notification.unwrap().message, "||\\+3|| за посещение\nПо Math\n");
    let down = reconcile(&vec![subject("Math", 1200, 750, 500, 700)], &baseline, 1);
    assert_eq!(down.notification.unwrap().message, "||\\-0\\.5|| за контрольный\nПо Math\n");
}

#[test]
fn all_changed_components_are_listed_in_order() {
    let baseline = vec![subject("Math", 1000, 800, 500, 700)];
    let fetched = vec![subject("Math", 1100, 900, 600, 725)];
    let r = reconcile(&fetched, &baseline, 3);
    assert_eq!(
        r.notification.unwrap().message,
        "||\\+1|| за посещение\n||\\+1|| по творческому\n||\\+1|| за контрольный\n||\\+0\\.25|| за экз/тест\nПо Math\n"
    );
}

#[test]
fn subjects_without_baseline_row_are_ignored() {
    let baseline = vec![subject("Math", 1000, 800, 500, 700)];
    let fetched = vec![subject("History", 1, 1, 1, 1), subject("Math", 1000, 800, 500, 700)];
    let r = reconcile(&fetched, &baseline, 3);
    assert!(r.updates.is_empty());
    assert!(r.inserts.is_empty());
    assert!(r.notification.is_none());
}

#[test]
fn subject_names_are_escaped() {
    let baseline = vec![subject("Math-1 (adv.)", 0, 0, 0, 0)];
    let fetched = vec![subject("Math-1 (adv.)", 200, 0, 0, 0)];
    let r = reconcile(&fetched, &baseline, 3);
    assert_eq!(r.notification.unwrap().message, "||\\+2|| за посещение\nПо Math\\-1 \\(adv\\.\\)\n");
}

#[test]
fn two_polls_for_one_user() {
    let first = vec![subject("Math", 1000, 800, 500, 700)];
    let r1 = reconcile(&first, &vec![], 99);
    assert_eq!(r1.inserts.len(), 1);
    assert!(same(&r1.inserts[0], &first[0]));
    assert_eq!(r1.notification.unwrap().message, INIT);
    let baseline = r1.inserts;
    let second = vec![subject("Math", 1200, 800, 500, 700)];
    let r2 = reconcile(&second, &baseline, 99);
    assert!(r2.inserts.is_empty());
    assert_eq!(r2.updates.len(), 1);
    assert_eq!(r2.updates[0].attendance, 1200);
    let n = r2.notification.unwrap();
    assert_eq!(n.chat_id, 99);
    assert_eq!(n.message, "||\\+2|| за посещение\nПо Math\n");
}

#[test]
fn failed_writes_withhold_the_notification() {
    let make = || -> Reconciliation { reconcile(&vec![subject("Math", 1, 1, 1, 1)], &vec![], 5) };
    assert!(notification_after_writes(make(), 1).is_none());
    let n = notification_after_writes(make(), 0).unwrap();
    assert_eq!(n.message, INIT);
}
