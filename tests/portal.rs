use rating_watch::cycle::FetchError;
use rating_watch::portal::{
    check_login_page, check_titles, login_form, parse_rating_page, semester_label, semester_query,
    subject_from_texts,
};
use rating_watch::records::User;

fn line(name: &str, a: &str, c: &str, k: &str, t: &str) -> String {
    format!(
        "<div class=\"es-rating__line-parent\"><div class=\"es-rating__discipline\"> {} </div>\
         <div class=\"es-rating__attendance\"><a href=\"#\">{}</a></div>\
         <div class=\"es-rating__control\"><a href=\"#\">{}</a></div>\
         <div class=\"es-rating__creative\"><a href=\"#\">{}</a></div>\
         <div class=\"es-rating__form\">{}</div></div>",
        name, a, c, k, t
    )
}

#[test]
fn reads_a_rating_page() {
    let page = format!(
        "<html><body>{}{}</body></html>",
        line("Math", "10", "8", "5", "7"),
        line("Physics", "12.5", "0", "3.25", " 0 ")
    );
    let subjects = parse_rating_page(&page).unwrap();
    assert_eq!(subjects.len(), 2);
    assert_eq!(subjects[0].name, "Math");
    assert_eq!(
        (subjects[0].attendance, subjects[0].control, subjects[0].creative, subjects[0].test),
        (1000, 800, 500, 700)
    );
    assert_eq!(subjects[1].name, "Physics");
    assert_eq!(
        (subjects[1].attendance, subjects[1].control, subjects[1].creative, subjects[1].test),
        (1250, 0, 325, 0)
    );
}

#[test]
fn a_malformed_line_rejects_the_page() {
    let page = format!(
        "<html><body>{}{}</body></html>",
        line("Math", "10", "8", "5", "7"),
        line("Physics", "n/a", "0", "3", "0")
    );
    assert_eq!(parse_rating_page(&page).err(), Some(FetchError::ParseError));
    let missing = "<html><body><div class=\"es-rating__line-parent\"></div></body></html>";
    assert_eq!(parse_rating_page(missing).err(), Some(FetchError::ParseError));
}

#[test]
fn a_page_without_lines_has_no_subjects() {
    assert_eq!(parse_rating_page("<html><body></body></html>").unwrap().len(), 0);
}

#[test]
fn login_page_is_recognized() {
    let ok = "<html><head><title>Информация об обучающемся</title></head><body></body></html>";
    assert!(check_login_page(ok).is_ok());
    let bad = "<html><head><title>Вход</title></head><body></body></html>";
    assert_eq!(check_login_page(bad), Err(FetchError::AuthenticationFailed));
}

#[test]
fn titles_decide_the_login() {
    assert!(check_titles(&vec!["Информация об обучающемся".to_string()]).is_ok());
    assert_eq!(check_titles(&vec![]), Err(FetchError::AuthenticationFailed));
    let two = vec!["Информация об обучающемся".to_string(), "x".to_string()];
    assert_eq!(check_titles(&two), Err(FetchError::AuthenticationFailed));
}

#[test]
fn subject_from_cell_texts() {
    let s = subject_from_texts("  Math \n", "10", "8.5", "0", "7").unwrap();
    assert_eq!(s.name, "Math");
    assert_eq!((s.attendance, s.control, s.creative, s.test), (1000, 850, 0, 700));
    assert!(subject_from_texts("Math", "10", "x", "0", "7").is_none());
}

#[test]
fn login_request_fields() {
    let u = User { id: 1, chat_id: 2, username: "alice".to_string(), pwd: "secret".to_string(), semester: 5 };
    let form = login_form(&u);
    let expected = [
        ("AUTH_FORM", "Y"),
        ("TYPE", "AUTH"),
        ("backurl", "/index.php"),
        ("USER_LOGIN", "alice"),
        ("USER_PASSWORD", "secret"),
        ("Login", "Войти"),
        ("login", "yes"),
    ];
    assert_eq!(form.len(), expected.len());
    for (f, e) in form.iter().zip(expected.iter()) {
        assert_eq!((f.0.as_str(), f.1.as_str()), *e);
    }
    assert_eq!(semester_label(5), "5-й семестр");
    let q = semester_query(&u);
    assert_eq!((q.0.as_str(), q.1.as_str()), ("semester", "5-й семестр"));
}

#[test]
fn names_lose_unicode_spaces() {
    let s = subject_from_texts("\u{A0}\u{C}Math\u{2003}", "1", "2", "3", "4").unwrap();
    assert_eq!(s.name, "Math");
}
