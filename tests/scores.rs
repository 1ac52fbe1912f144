use rating_watch::records::{Subject, User};
use rating_watch::score::{delta_string, parse_score, score_string};

#[test]
fn parses_portal_values() {
    assert_eq!(parse_score("12"), Some(1200));
    assert_eq!(parse_score(" 12.5 \n"), Some(1250));
    assert_eq!(parse_score("0.25"), Some(25));
    assert_eq!(parse_score("999999.99"), Some(99_999_999));
}

#[test]
fn refuses_malformed_values() {
    assert_eq!(parse_score(""), None);
    assert_eq!(parse_score("abc"), None);
    assert_eq!(parse_score("1.234"), None);
    assert_eq!(parse_score(".5"), None);
    assert_eq!(parse_score("-1"), None);
    assert_eq!(parse_score("1234567"), None);
}

#[test]
fn renders_values() {
    assert_eq!(score_string(1250), "12.5");
    assert_eq!(score_string(1200), "12");
    assert_eq!(score_string(25), "0.25");
    assert_eq!(score_string(0), "0");
}

#[test]
fn renders_signed_deltas() {
    assert_eq!(delta_string(300), "+3");
    assert_eq!(delta_string(-50), "-0.5");
    assert_eq!(delta_string(0), "0");
}

#[test]
fn subject_card_text() {
    let s = Subject { name: "Math".to_string(), attendance: 1000, control: 800, creative: 550, test: 700 };
    assert_eq!(
        s.to_string(),
        "Math:\nПосещаемость: 10\nТворческий: 5.5\nКонтрольный: 8\nЭкз/зачет: 7\nВсего: 30.5"
    );
}

#[test]
fn eligibility_needs_complete_credentials() {
    let mut u = User { id: 1, chat_id: 2, username: "alice".to_string(), pwd: "secret".to_string(), semester: 5 };
    assert!(u.is_eligible());
    u.semester = 0;
    assert!(!u.is_eligible());
    u.semester = 5;
    u.pwd = String::new();
    assert!(!u.is_eligible());
}
