//! The student portal: the login request, the check of the page after login,
//! and reading the rating page into subjects.
use vstd::prelude::*;
use crate::cycle::FetchError;
use crate::diff::texts;
use crate::records::{Subject, User};
use crate::score::{parse_score, score_of};
use crate::text::{decimal, push_decimal, string_of, trim_string, trimmed};

verus! {

/// What `scraper` finds in the HTML document `doc` for the CSS selector
/// `css`: the inner HTML of each matching element, in the order in which
/// the parser created the elements.
pub uninterp spec fn inner_matches(doc: Seq<char>, css: Seq<char>) -> Seq<Seq<char>>;

/// What `scraper` finds in the HTML document `doc` for the CSS selector
/// `css`: the HTML of each matching element itself, in the order in which
/// the parser created the elements.
pub uninterp spec fn outer_matches(doc: Seq<char>, css: Seq<char>) -> Seq<Seq<char>>;

/// Relies on `scraper`'s `Selector::parse`, `Html::parse_document`,
/// `Html::select` and `ElementRef::inner_html`: `None` when the selector does
/// not parse, else the inner HTML of the matches. The selectors that this
/// library passes are plain type and class selectors, which always parse.
#[verifier::external_body]
fn select_inner(doc: &str, css: &str) -> (r: Option<Vec<String>>)
    ensures
        known_css(css@) ==> r is Some,
        r is Some ==> texts(r->0@) == inner_matches(doc@, css@),
{
    let sel = scraper::Selector::parse(css).ok()?;
    Some(scraper::Html::parse_document(doc).select(&sel).map(|e| e.inner_html()).collect())
}

/// Relies on `scraper`'s `Selector::parse`, `Html::parse_document`,
/// `Html::select` and `ElementRef::html`: `None` when the selector does not
/// parse, else the HTML of the matches. The selectors that this library
/// passes are plain type and class selectors, which always parse.
#[verifier::external_body]
fn select_outer(doc: &str, css: &str) -> (r: Option<Vec<String>>)
    ensures
        known_css(css@) ==> r is Some,
        r is Some ==> texts(r->0@) == outer_matches(doc@, css@),
{
    let sel = scraper::Selector::parse(css).ok()?;
    Some(scraper::Html::parse_document(doc).select(&sel).map(|e| e.html()).collect())
}

pub open spec fn title_text() -> Seq<char> { "Информация об обучающемся"@ }
pub open spec fn line_css() -> Seq<char> { "div.es-rating__line-parent"@ }
pub open spec fn name_css() -> Seq<char> { "div.es-rating__discipline"@ }
pub open spec fn attendance_css() -> Seq<char> { "div.es-rating__attendance"@ }
pub open spec fn control_css() -> Seq<char> { "div.es-rating__control"@ }
pub open spec fn creative_css() -> Seq<char> { "div.es-rating__creative"@ }
pub open spec fn form_css() -> Seq<char> { "div.es-rating__form"@ }
pub open spec fn link_css() -> Seq<char> { "a"@ }
pub open spec fn title_css() -> Seq<char> { "title"@ }

/// The selectors the library looks pages up with.
pub open spec fn known_css(css: Seq<char>) -> bool {
    css == title_css() || css == line_css() || css == name_css() || css == attendance_css()
        || css == control_css() || css == creative_css() || css == form_css() || css == link_css()
}

/// The one element of `v`, if it has exactly one.
pub open spec fn single(v: Seq<Seq<char>>) -> Option<Seq<char>> {
    if v.len() == 1 { Some(v[0]) } else { None }
}

/// A component written as the text of the one link inside the one wrapper
/// element that `css` selects in `line`.
pub open spec fn link_value(line: Seq<char>, css: Seq<char>) -> Option<int> {
    match single(outer_matches(line, css)) {
        Some(w) => match single(inner_matches(w, link_css())) {
            Some(t) => score_of(t),
            None => None,
        },
        None => None,
    }
}

/// The exam component, written directly as the text of its wrapper element.
pub open spec fn form_value(line: Seq<char>) -> Option<int> {
    match single(inner_matches(line, form_css())) {
        Some(t) => score_of(t),
        None => None,
    }
}

/// A subject as plain values: name and the components attendance, control,
/// creative and test.
pub type SubjectModel = (Seq<char>, int, int, int, int);

pub open spec fn model(s: Subject) -> SubjectModel {
    (s.name@, s.attendance as int, s.control as int, s.creative as int, s.test as int)
}

/// The subject that one subject line of the rating page shows.
pub open spec fn line_subject(line: Seq<char>) -> Option<SubjectModel> {
    match (single(inner_matches(line, name_css())), link_value(line, attendance_css()),
        link_value(line, control_css()), link_value(line, creative_css()), form_value(line)) {
        (Some(n), Some(a), Some(c), Some(k), Some(t)) => Some((trimmed(n), a, c, k, t)),
        _ => None,
    }
}

/// The subjects of all the lines, or `None` if any line is malformed.
pub open spec fn lines_subjects(lines: Seq<Seq<char>>) -> Option<Seq<SubjectModel>>
    decreases lines.len(),
{
    if lines.len() == 0 {
        Some(Seq::empty())
    } else {
        match (lines_subjects(lines.drop_last()), line_subject(lines.last())) {
            (Some(p), Some(x)) => Some(p.push(x)),
            _ => None,
        }
    }
}

/// The subjects a rating page shows, or `None` if its markup is not as expected.
pub open spec fn page_subjects(page: Seq<char>) -> Option<Seq<SubjectModel>> {
    lines_subjects(outer_matches(page, line_css()))
}

/// The only element of a match list, if it has exactly one.
fn only(r: Option<Vec<String>>) -> (o: Option<String>)
    ensures
        r is None ==> o is None,
        r is Some ==> (o is Some <==> r->0@.len() == 1),
        o is Some ==> o->0@ == r->0@[0]@,
{
    match r {
        Some(v) => {
            if v.len() == 1 {
                Some(v[0].clone())
            } else {
                None
            }
        }
        None => None,
    }
}

/// Builds a subject from the texts of its cells: the name is trimmed, and
/// each component must read as a portal value.
pub fn subject_from_texts(name: &str, attendance: &str, control: &str, creative: &str, test: &str)
    -> (r: Option<Subject>)
    ensures
        r is Some <==> (score_of(attendance@) is Some && score_of(control@) is Some
            && score_of(creative@) is Some && score_of(test@) is Some),
        r is Some ==> r->0.wf() && model(r->0) == (trimmed(name@), score_of(attendance@)->0,
            score_of(control@)->0, score_of(creative@)->0, score_of(test@)->0),
{
    let a = parse_score(attendance);
    let c = parse_score(control);
    let k = parse_score(creative);
    let t = parse_score(test);
    match (a, c, k, t) {
        (Some(a), Some(c), Some(k), Some(t)) => Some(Subject {
            name: trim_string(name),
            attendance: a,
            control: c,
            creative: k,
            test: t,
        }),
        _ => None,
    }
}

/// The text of the one link inside the one wrapper that `css` selects. The
/// wrapper is looked into by parsing its HTML again as a document of its own.
fn link_text(line: &str, css: &str) -> (r: Option<String>)
    requires
        known_css(css@),
    ensures
        single(outer_matches(line@, css@)) is Some
            && single(inner_matches(single(outer_matches(line@, css@))->0, link_css())) is Some
            ==> r is Some,
        r is Some ==> single(outer_matches(line@, css@)) is Some
            && single(inner_matches(single(outer_matches(line@, css@))->0, link_css())) == Some(r->0@),
        single(outer_matches(line@, css@)) is None ==> r is None,
        single(outer_matches(line@, css@)) is Some
            && single(inner_matches(single(outer_matches(line@, css@))->0, link_css())) is None
            ==> r is None,
{
    match only(select_outer(line, css)) {
        Some(w) => only(select_inner(w.as_str(), "a")),
        None => None,
    }
}

/// Reads one subject line of the rating page, given as the line element's
/// HTML, which is parsed again as a document of its own.
fn read_line(line: &str) -> (r: Option<Subject>)
    ensures
        r is Some <==> line_subject(line@) is Some,
        r is Some ==> r->0.wf() && line_subject(line@) == Some(model(r->0)),
{
    let name = match only(select_inner(line, "div.es-rating__discipline")) {
        Some(n) => n,
        None => return None,
    };
    let attendance = match link_text(line, "div.es-rating__attendance") {
        Some(v) => v,
        None => return None,
    };
    let control = match link_text(line, "div.es-rating__control") {
        Some(v) => v,
        None => return None,
    };
    let creative = match link_text(line, "div.es-rating__creative") {
        Some(v) => v,
        None => return None,
    };
    let test = match only(select_inner(line, "div.es-rating__form")) {
        Some(v) => v,
        None => return None,
    };
    subject_from_texts(name.as_str(), attendance.as_str(), control.as_str(), creative.as_str(), test.as_str())
}

/// Reads the rating page: one subject per subject line, in page order. A page
/// with any malformed line is refused as a whole.
pub fn parse_rating_page(page: &str) -> (r: Result<Vec<Subject>, FetchError>)
    ensures
        r is Ok ==> page_subjects(page@) is Some
            && r->Ok_0@.map_values(|s: Subject| model(s)) == page_subjects(page@)->0,
        r is Ok ==> forall|i: int| 0 <= i < r->Ok_0@.len() ==> (#[trigger] r->Ok_0@[i]).wf(),
        page_subjects(page@) is Some ==> r is Ok,
        page_subjects(page@) is None ==> r == Err::<Vec<Subject>, FetchError>(FetchError::ParseError),
        r is Err ==> r == Err::<Vec<Subject>, FetchError>(FetchError::ParseError),
{
    let lines = match select_outer(page, "div.es-rating__line-parent") {
        Some(l) => l,
        None => return Err(FetchError::ParseError),
    };
    let ghost ls = texts(lines@);
    let mut subjects: Vec<Subject> = Vec::new();
    let mut i: usize = 0;
    while i < lines.len()
        invariant
            i <= lines@.len(),
            ls == texts(lines@),
            ls == outer_matches(page@, line_css()),
            lines_subjects(ls.subrange(0, i as int)) is Some,
            subjects@.map_values(|s: Subject| model(s)) == lines_subjects(ls.subrange(0, i as int))->0,
            forall|j: int| 0 <= j < subjects@.len() ==> (#[trigger] subjects@[j]).wf(),
        decreases lines@.len() - i,
    {
        let ghost next = ls.subrange(0, i + 1);
        assert(next.drop_last() =~= ls.subrange(0, i as int));
        assert(next.last() == lines@[i as int]@);
        match read_line(lines[i].as_str()) {
            Some(s) => {
                subjects.push(s);
                assert(subjects@.map_values(|s: Subject| model(s))
                    =~= lines_subjects(next)->0);
            }
            None => {
                proof { lemma_malformed_prefix(ls, i as int + 1); }
                return Err(FetchError::ParseError);
            }
        }
        i = i + 1;
    }
    assert(ls.subrange(0, i as int) =~= ls);
    Ok(subjects)
}

/// A malformed line makes every longer list of lines malformed.
proof fn lemma_malformed_prefix(ls: Seq<Seq<char>>, m: int)
    requires
        0 < m <= ls.len(),
        lines_subjects(ls.subrange(0, m)) is None,
    ensures
        lines_subjects(ls) is None,
    decreases ls.len() - m,
{
    if m < ls.len() {
        let next = ls.subrange(0, m + 1);
        assert(next.drop_last() =~= ls.subrange(0, m));
        lemma_malformed_prefix(ls, m + 1);
    } else {
        assert(ls.subrange(0, m) =~= ls);
    }
}

/// Decides a login from the titles found on the page after it: exactly one,
/// the student information page's.
pub fn check_titles(titles: &Vec<String>) -> (r: Result<(), FetchError>)
    ensures
        r is Ok <==> texts(titles@) == seq![title_text()],
        r is Err ==> r == Err::<(), FetchError>(FetchError::AuthenticationFailed),
{
    if titles.len() == 1 {
        let expected = String::from_str("Информация об обучающемся");
        if titles[0] == expected {
            assert(texts(titles@) =~= seq![title_text()]);
            return Ok(());
        }
        assert(texts(titles@)[0] == titles@[0]@);
        assert(seq![title_text()][0] == title_text());
    }
    assert(texts(titles@).len() == titles@.len());
    Err(FetchError::AuthenticationFailed)
}

/// Checks the page the portal answers a login with: it must hold exactly one
/// title, the student information page's.
pub fn check_login_page(page: &str) -> (r: Result<(), FetchError>)
    ensures
        r is Ok <==> inner_matches(page@, "title"@) == seq![title_text()],
        inner_matches(page@, "title"@) != seq![title_text()]
            ==> r == Err::<(), FetchError>(FetchError::AuthenticationFailed),
        r is Err ==> r == Err::<(), FetchError>(FetchError::AuthenticationFailed),
{
    match select_inner(page, "title") {
        Some(titles) => check_titles(&titles),
        None => Err(FetchError::AuthenticationFailed),
    }
}

/// The semester as the portal names it: `5-й семестр`.
pub fn semester_label(semester: u8) -> (r: String)
    ensures
        r@ == decimal(semester as nat) + "-й семестр"@,
{
    let mut digits: Vec<char> = Vec::new();
    push_decimal(&mut digits, semester as u64);
    let mut r = string_of(&digits);
    r.append("-й семестр");
    r
}

pub open spec fn pair_texts(v: Seq<(String, String)>) -> Seq<(Seq<char>, Seq<char>)> {
    v.map_values(|p: (String, String)| (p.0@, p.1@))
}

/// The login form fields for `user`.
pub open spec fn login_fields(user: User) -> Seq<(Seq<char>, Seq<char>)> {
    seq![
        ("AUTH_FORM"@, "Y"@),
        ("TYPE"@, "AUTH"@),
        ("backurl"@, "/index.php"@),
        ("USER_LOGIN"@, user.username@),
        ("USER_PASSWORD"@, user.pwd@),
        ("Login"@, "Войти"@),
        ("login"@, "yes"@),
    ]
}

fn field(k: &str, v: &str) -> (r: (String, String))
    ensures
        r.0@ == k@,
        r.1@ == v@,
{
    (String::from_str(k), String::from_str(v))
}

/// The form posted to log `user` in.
pub fn login_form(user: &User) -> (r: Vec<(String, String)>)
    ensures
        pair_texts(r@) == login_fields(*user),
{
    let mut r: Vec<(String, String)> = Vec::new();
    r.push(field("AUTH_FORM", "Y"));
    r.push(field("TYPE", "AUTH"));
    r.push(field("backurl", "/index.php"));
    r.push(field("USER_LOGIN", user.username.as_str()));
    r.push(field("USER_PASSWORD", user.pwd.as_str()));
    r.push(field("Login", "Войти"));
    r.push(field("login", "yes"));
    assert(pair_texts(r@) =~= login_fields(*user));
    r
}

/// The query that selects `user`'s semester on the portal's pages.
pub fn semester_query(user: &User) -> (r: (String, String))
    ensures
        r.0@ == "semester"@,
        r.1@ == decimal(user.semester as nat) + "-й семестр"@,
{
    (String::from_str("semester"), semester_label(user.semester))
}

} // verus!
