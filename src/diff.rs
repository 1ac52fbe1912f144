//! Change detection: a fresh scrape of one user against that user's stored
//! baseline gives the rows to insert or update and the notification to send.
use vstd::prelude::*;
use crate::markup::{escape_markup, escaped};
use crate::records::{Subject, in_range};
use crate::score::{delta_string, delta_text};

verus! {

/// A message for one chat.
pub struct Notification {
    pub chat_id: i64,
    pub message: String,
}

/// What one user's reconciliation asks of the store and of the transport.
pub struct Reconciliation {
    /// New baseline rows, written only when the baseline was empty.
    pub inserts: Vec<Subject>,
    /// Subjects whose stored row is overwritten with all four components.
    pub updates: Vec<Subject>,
    pub notification: Option<Notification>,
}

pub open spec fn all_wf(s: Seq<Subject>) -> bool {
    forall|i: int| 0 <= i < s.len() ==> (#[trigger] s[i]).wf()
}

pub open spec fn texts(v: Seq<String>) -> Seq<Seq<char>> {
    v.map_values(|s: String| s@)
}

/// The first baseline row stored under `name`. The store keeps at most one
/// row per subject name and user, so that row is the only one.
pub open spec fn lookup(baseline: Seq<Subject>, name: Seq<char>) -> Option<Subject>
    decreases baseline.len(),
{
    if baseline.len() == 0 {
        None
    } else if baseline[0].name@ == name {
        Some(baseline[0])
    } else {
        lookup(baseline.drop_first(), name)
    }
}

/// The informational text sent when a baseline is first recorded.
pub open spec fn init_text() -> Seq<char> {
    "Рейтинг обновился (вероятно это уведомление из-за смены семестра)"@
}

/// The line reporting a difference `d` in one component.
pub open spec fn delta_line(d: int, label: Seq<char>) -> Seq<char> {
    "||"@ + escaped(delta_text(d)) + "|| "@ + label
}

/// The line naming a subject whose components changed.
pub open spec fn header_line(name: Seq<char>) -> Seq<char> {
    "По "@ + escaped(name) + "\n"@
}

pub open spec fn attendance_label() -> Seq<char> { "за посещение"@ }
pub open spec fn creative_label() -> Seq<char> { "по творческому"@ }
pub open spec fn control_label() -> Seq<char> { "за контрольный"@ }
pub open spec fn test_label() -> Seq<char> { "за экз/тест"@ }

/// The line for one component, if its value changed from `prev` to `new`.
pub open spec fn component_line(new: i64, prev: i64, label: Seq<char>) -> Seq<Seq<char>> {
    if new != prev { seq![delta_line(new - prev, label)] } else { Seq::empty() }
}

/// The lines for one subject: a line per changed component (attendance,
/// creative, control, test), then a header naming it; none if nothing changed.
pub open spec fn subject_lines(new: Subject, prev: Subject) -> Seq<Seq<char>> {
    if new.same_values(prev) {
        Seq::empty()
    } else {
        component_line(new.attendance, prev.attendance, attendance_label())
            + component_line(new.creative, prev.creative, creative_label())
            + component_line(new.control, prev.control, control_label())
            + component_line(new.test, prev.test, test_label())
            + seq![header_line(new.name@)]
    }
}

/// The notification lines for a scrape against a non-empty baseline, in the
/// order of the scrape; subjects without a baseline row are passed over.
pub open spec fn diff_lines(fetched: Seq<Subject>, baseline: Seq<Subject>) -> Seq<Seq<char>>
    decreases fetched.len(),
{
    if fetched.len() == 0 {
        Seq::empty()
    } else {
        diff_lines(fetched.drop_last(), baseline) + match lookup(baseline, fetched.last().name@) {
            Some(prev) => subject_lines(fetched.last(), prev),
            None => Seq::empty(),
        }
    }
}

/// The scraped subjects whose baseline row exists and differs.
pub open spec fn diff_updates(fetched: Seq<Subject>, baseline: Seq<Subject>) -> Seq<Subject>
    decreases fetched.len(),
{
    if fetched.len() == 0 {
        Seq::empty()
    } else {
        diff_updates(fetched.drop_last(), baseline) + match lookup(baseline, fetched.last().name@) {
            Some(prev) => if fetched.last().same_values(prev) { Seq::empty() } else { seq![fetched.last()] },
            None => Seq::empty(),
        }
    }
}

/// The lines joined by line breaks.
pub open spec fn join_lines(lines: Seq<Seq<char>>) -> Seq<char>
    decreases lines.len(),
{
    if lines.len() == 0 {
        Seq::empty()
    } else if lines.len() == 1 {
        lines[0]
    } else {
        join_lines(lines.drop_last()) + "\n"@ + lines.last()
    }
}

/// The index of the first baseline row stored under `name`.
fn find_row(baseline: &Vec<Subject>, name: &String) -> (r: Option<usize>)
    ensures
        r is None ==> lookup(baseline@, name@) is None,
        r is Some ==> r->0 < baseline@.len() && lookup(baseline@, name@) == Some(baseline@[r->0 as int]),
{
    let mut i: usize = 0;
    assert(baseline@.skip(0) =~= baseline@);
    while i < baseline.len()
        invariant
            i <= baseline@.len(),
            lookup(baseline@, name@) == lookup(baseline@.skip(i as int), name@),
        decreases baseline@.len() - i,
    {
        assert(baseline@.skip(i as int).drop_first() =~= baseline@.skip(i + 1));
        if baseline[i].name == *name {
            return Some(i);
        }
        i = i + 1;
    }
    None
}

fn component_delta(lines: &mut Vec<String>, new: i64, prev: i64, label: &str)
    requires
        in_range(new),
        in_range(prev),
    ensures
        texts(final(lines)@) == texts(old(lines)@) + component_line(new, prev, label@),
{
    if new != prev {
        let mut s = String::new();
        s.append("||");
        let d = delta_string(new - prev);
        let e = escape_markup(d.as_str());
        s.append(e.as_str());
        s.append("|| ");
        s.append(label);
        lines.push(s);
        assert(texts(final(lines)@) =~= texts(old(lines)@) + component_line(new, prev, label@));
    } else {
        assert(texts(final(lines)@) =~= texts(old(lines)@) + component_line(new, prev, label@));
    }
}

/// Appends the lines for one subject compared with its baseline row.
fn push_subject_lines(lines: &mut Vec<String>, new: &Subject, prev: &Subject)
    requires
        new.wf(),
        prev.wf(),
    ensures
        texts(final(lines)@) == texts(old(lines)@) + subject_lines(*new, *prev),
{
    if new.attendance == prev.attendance && new.control == prev.control
        && new.creative == prev.creative && new.test == prev.test {
        assert(texts(final(lines)@) =~= texts(old(lines)@) + subject_lines(*new, *prev));
        return;
    }
    let ghost l0 = texts(lines@);
    component_delta(lines, new.attendance, prev.attendance, "за посещение");
    component_delta(lines, new.creative, prev.creative, "по творческому");
    component_delta(lines, new.control, prev.control, "за контрольный");
    component_delta(lines, new.test, prev.test, "за экз/тест");
    let mut h = String::new();
    h.append("По ");
    let e = escape_markup(new.name.as_str());
    h.append(e.as_str());
    h.append("\n");
    assert(h@ =~= header_line(new.name@));
    let ghost l4 = texts(lines@);
    assert(l4 =~= l0 + component_line(new.attendance, prev.attendance, attendance_label())
        + component_line(new.creative, prev.creative, creative_label())
        + component_line(new.control, prev.control, control_label())
        + component_line(new.test, prev.test, test_label()));
    lines.push(h);
    assert(texts(lines@) =~= l4 + seq![h@]);
    assert(texts(final(lines)@) =~= texts(old(lines)@) + subject_lines(*new, *prev));
}

/// The lines joined by line breaks.
pub fn join(lines: &Vec<String>) -> (r: String)
    ensures
        r@ == join_lines(texts(lines@)),
{
    let mut r = String::new();
    let mut i: usize = 0;
    while i < lines.len()
        invariant
            i <= lines@.len(),
            r@ == join_lines(texts(lines@.subrange(0, i as int))),
        decreases lines@.len() - i,
    {
        let ghost before = texts(lines@.subrange(0, i as int));
        assert(texts(lines@.subrange(0, i + 1)).drop_last() =~= before);
        if i > 0 {
            r.append("\n");
        } else {
            assert(texts(lines@.subrange(0, 0)) =~= Seq::<Seq<char>>::empty());
        }
        r.append(lines[i].as_str());
        i = i + 1;
    }
    assert(lines@.subrange(0, i as int) =~= lines@);
    r
}

/// Compares a fresh scrape with the stored baseline of the user whose chat is
/// `chat_id`. With no baseline every scraped subject is inserted and the
/// initialization text is sent. Otherwise each subject with a stored row is
/// compared component by component: changed ones are updated and reported,
/// and nothing is sent when nothing changed. The baseline holds one row per
/// subject name; should a name repeat, its first row is the one compared.
pub fn reconcile(fetched: &Vec<Subject>, baseline: &Vec<Subject>, chat_id: i64) -> (r: Reconciliation)
    requires
        all_wf(fetched@),
        all_wf(baseline@),
    ensures
        baseline@.len() == 0 ==> {
            &&& r.inserts@ == fetched@
            &&& r.updates@.len() == 0
            &&& r.notification is Some
            &&& r.notification->0.chat_id == chat_id
            &&& r.notification->0.message@ == escaped(init_text())
        },
        baseline@.len() > 0 ==> {
            &&& r.inserts@.len() == 0
            &&& r.updates@ == diff_updates(fetched@, baseline@)
            &&& (r.notification is Some <==> diff_lines(fetched@, baseline@).len() > 0)
            &&& r.notification is Some ==> r.notification->0.chat_id == chat_id
            &&& r.notification is Some ==> r.notification->0.message@ == join_lines(diff_lines(fetched@, baseline@))
        },
{
    if baseline.len() == 0 {
        let mut inserts: Vec<Subject> = Vec::new();
        let mut i: usize = 0;
        while i < fetched.len()
            invariant
                i <= fetched@.len(),
                inserts@ == fetched@.subrange(0, i as int),
            decreases fetched@.len() - i,
        {
            inserts.push(fetched[i].duplicate());
            assert(inserts@ =~= fetched@.subrange(0, i + 1));
            i = i + 1;
        }
        assert(inserts@ =~= fetched@);
        let message = escape_markup("Рейтинг обновился (вероятно это уведомление из-за смены семестра)");
        return Reconciliation {
            inserts,
            updates: Vec::new(),
            notification: Some(Notification { chat_id, message }),
        };
    }
    let mut lines: Vec<String> = Vec::new();
    let mut updates: Vec<Subject> = Vec::new();
    let mut i: usize = 0;
    while i < fetched.len()
        invariant
            i <= fetched@.len(),
            all_wf(fetched@),
            all_wf(baseline@),
            texts(lines@) == diff_lines(fetched@.subrange(0, i as int), baseline@),
            updates@ == diff_updates(fetched@.subrange(0, i as int), baseline@),
        decreases fetched@.len() - i,
    {
        let ghost pre = fetched@.subrange(0, i as int);
        let ghost next = fetched@.subrange(0, i + 1);
        assert(next.drop_last() =~= pre);
        assert(next.last() == fetched@[i as int]);
        let s = &fetched[i];
        match find_row(baseline, &s.name) {
            Some(k) => {
                let prev = &baseline[k];
                push_subject_lines(&mut lines, s, prev);
                if !(s.attendance == prev.attendance && s.control == prev.control
                    && s.creative == prev.creative && s.test == prev.test) {
                    updates.push(s.duplicate());
                }
                assert(updates@ =~= diff_updates(next, baseline@));
            }
            None => {
                assert(texts(lines@) =~= diff_lines(next, baseline@));
                assert(updates@ =~= diff_updates(next, baseline@));
            }
        }
        i = i + 1;
    }
    assert(fetched@.subrange(0, i as int) =~= fetched@);
    let notification = if lines.len() == 0 {
        None
    } else {
        Some(Notification { chat_id, message: join(&lines) })
    };
    Reconciliation { inserts: Vec::new(), updates, notification }
}

/// The notification to send once the store has taken the reconciliation's
/// writes: none if any of them failed, so that no user hears of an update
/// that was not recorded.
pub fn notification_after_writes(r: Reconciliation, failed_writes: usize) -> (n: Option<Notification>)
    ensures
        failed_writes == 0 ==> n == r.notification,
        failed_writes > 0 ==> n is None,
{
    if failed_writes == 0 {
        r.notification
    } else {
        None
    }
}

/// Every scraped subject whose baseline row, if any, holds the same values.
pub open spec fn unchanged(fetched: Seq<Subject>, baseline: Seq<Subject>) -> bool {
    forall|j: int| 0 <= j < fetched.len() ==> match #[trigger] lookup(baseline, fetched[j].name@) {
        Some(prev) => fetched[j].same_values(prev),
        None => true,
    }
}

/// How many of the four components differ between `a` and `b`.
pub open spec fn changed_count(a: Subject, b: Subject) -> int {
    (if a.attendance != b.attendance { 1int } else { 0int })
        + (if a.control != b.control { 1int } else { 0int })
        + (if a.creative != b.creative { 1int } else { 0int })
        + (if a.test != b.test { 1int } else { 0int })
}

/// The one delta line for `new` against `prev` when a single component differs.
pub open spec fn sole_delta_line(new: Subject, prev: Subject) -> Seq<char> {
    if new.attendance != prev.attendance {
        delta_line(new.attendance - prev.attendance, attendance_label())
    } else if new.creative != prev.creative {
        delta_line(new.creative - prev.creative, creative_label())
    } else if new.control != prev.control {
        delta_line(new.control - prev.control, control_label())
    } else {
        delta_line(new.test - prev.test, test_label())
    }
}

/// A scrape in which no stored subject changed yields no notification lines
/// and no writes.
pub proof fn lemma_unchanged_is_silent(fetched: Seq<Subject>, baseline: Seq<Subject>)
    requires
        unchanged(fetched, baseline),
    ensures
        diff_lines(fetched, baseline).len() == 0,
        diff_updates(fetched, baseline).len() == 0,
    decreases fetched.len(),
{
    if fetched.len() > 0 {
        let pre = fetched.drop_last();
        assert forall|j: int| 0 <= j < pre.len() implies match #[trigger] lookup(baseline, pre[j].name@) {
            Some(prev) => pre[j].same_values(prev),
            None => true,
        } by {
            assert(pre[j] == fetched[j]);
            assert(lookup(baseline, fetched[j].name@) == lookup(baseline, pre[j].name@));
        }
        lemma_unchanged_is_silent(pre, baseline);
        let k = fetched.len() - 1;
        assert(lookup(baseline, fetched[k].name@) == lookup(baseline, fetched.last().name@));
    }
}

proof fn lemma_single_change_prefix(
    fetched: Seq<Subject>,
    baseline: Seq<Subject>,
    i: int,
    prev: Subject,
    m: int,
)
    requires
        0 <= i < fetched.len(),
        0 <= m <= fetched.len(),
        lookup(baseline, fetched[i].name@) == Some(prev),
        !fetched[i].same_values(prev),
        forall|j: int| 0 <= j < fetched.len() && j != i ==> match #[trigger] lookup(baseline, fetched[j].name@) {
            Some(p) => fetched[j].same_values(p),
            None => true,
        },
    ensures
        diff_lines(fetched.subrange(0, m), baseline)
            == (if m <= i { Seq::<Seq<char>>::empty() } else { subject_lines(fetched[i], prev) }),
        diff_updates(fetched.subrange(0, m), baseline)
            == (if m <= i { Seq::<Subject>::empty() } else { seq![fetched[i]] }),
    decreases m,
{
    if m > 0 {
        let cur = fetched.subrange(0, m);
        assert(cur.drop_last() =~= fetched.subrange(0, m - 1));
        assert(cur.last() == fetched[m - 1]);
        lemma_single_change_prefix(fetched, baseline, i, prev, m - 1);
        assert(lookup(baseline, fetched[m - 1].name@) == lookup(baseline, cur.last().name@));
        if m - 1 == i {
            assert(diff_lines(cur, baseline) =~= subject_lines(fetched[i], prev));
            assert(diff_updates(cur, baseline) =~= seq![fetched[i]]);
        } else {
            assert(diff_lines(cur, baseline) =~= diff_lines(fetched.subrange(0, m - 1), baseline));
            assert(diff_updates(cur, baseline) =~= diff_updates(fetched.subrange(0, m - 1), baseline));
        }
    } else {
        assert(fetched.subrange(0, 0) =~= Seq::<Subject>::empty());
    }
}

/// When exactly one component of one stored subject changed and nothing else
/// did, the notification holds one delta line for that component followed by
/// the subject's header, and that subject alone is updated.
pub proof fn lemma_single_change(fetched: Seq<Subject>, baseline: Seq<Subject>, i: int)
    requires
        0 <= i < fetched.len(),
        lookup(baseline, fetched[i].name@) is Some,
        changed_count(fetched[i], lookup(baseline, fetched[i].name@)->0) == 1,
        forall|j: int| 0 <= j < fetched.len() && j != i ==> match #[trigger] lookup(baseline, fetched[j].name@) {
            Some(p) => fetched[j].same_values(p),
            None => true,
        },
    ensures
        diff_updates(fetched, baseline) == seq![fetched[i]],
        diff_lines(fetched, baseline) == subject_lines(fetched[i], lookup(baseline, fetched[i].name@)->0),
        diff_lines(fetched, baseline)
            == seq![sole_delta_line(fetched[i], lookup(baseline, fetched[i].name@)->0),
                header_line(fetched[i].name@)],
{
    let prev = lookup(baseline, fetched[i].name@)->0;
    let n = fetched[i];
    assert(subject_lines(n, prev) =~= seq![sole_delta_line(n, prev), header_line(n.name@)]);
    lemma_single_change_prefix(fetched, baseline, i, prev, fetched.len() as int);
    assert(fetched.subrange(0, fetched.len() as int) =~= fetched);
}

pub open spec fn is_label(label: Seq<char>) -> bool {
    label == attendance_label() || label == creative_label() || label == control_label()
        || label == test_label()
}

/// A notification line as reconciliation writes it: a component label after
/// an escaped delta between spoiler marks, or a header over the escaped name
/// of a scraped subject. Nothing else of the scrape reaches a line.
pub open spec fn is_report_line(fetched: Seq<Subject>, line: Seq<char>) -> bool {
    (exists|d: int, label: Seq<char>| is_label(label) && line == #[trigger] delta_line(d, label))
        || (exists|j: int| 0 <= j < fetched.len() && line == header_line(#[trigger] fetched[j].name@))
}

proof fn lemma_subject_lines_shape(fetched: Seq<Subject>, j: int, prev: Subject)
    requires
        0 <= j < fetched.len(),
    ensures
        forall|i: int| 0 <= i < subject_lines(fetched[j], prev).len()
            ==> is_report_line(fetched, #[trigger] subject_lines(fetched[j], prev)[i]),
{
    let n = fetched[j];
    let ls = subject_lines(n, prev);
    assert forall|i: int| 0 <= i < ls.len() implies is_report_line(fetched, #[trigger] ls[i]) by {
        if i == ls.len() - 1 {
            assert(ls[i] == header_line(fetched[j].name@));
        } else {
            let a = component_line(n.attendance, prev.attendance, attendance_label());
            let c = component_line(n.creative, prev.creative, creative_label());
            let k = component_line(n.control, prev.control, control_label());
            let t = component_line(n.test, prev.test, test_label());
            assert(ls == a + c + k + t + seq![header_line(n.name@)]);
            let body = a + c + k + t;
            assert(ls[i] == body[i]);
            if i < a.len() {
                assert(ls[i] == delta_line(n.attendance - prev.attendance, attendance_label()));
            } else if i < a.len() + c.len() {
                assert(ls[i] == delta_line(n.creative - prev.creative, creative_label()));
            } else if i < a.len() + c.len() + k.len() {
                assert(ls[i] == delta_line(n.control - prev.control, control_label()));
            } else {
                assert(ls[i] == delta_line(n.test - prev.test, test_label()));
            }
        }
    }
}

/// Every notification line is a report line: the deltas and subject names
/// in it stand escaped, and the only markup is the template's own.
pub proof fn lemma_lines_are_escaped(fetched: Seq<Subject>, baseline: Seq<Subject>)
    ensures
        forall|i: int| 0 <= i < diff_lines(fetched, baseline).len()
            ==> is_report_line(fetched, #[trigger] diff_lines(fetched, baseline)[i]),
    decreases fetched.len(),
{
    if fetched.len() > 0 {
        let pre = fetched.drop_last();
        lemma_lines_are_escaped(pre, baseline);
        let last = fetched.len() - 1;
        let part = match lookup(baseline, fetched.last().name@) {
            Some(prev) => subject_lines(fetched.last(), prev),
            None => Seq::empty(),
        };
        let all = diff_lines(fetched, baseline);
        let head = diff_lines(pre, baseline);
        assert(all == head + part);
        match lookup(baseline, fetched.last().name@) {
            Some(prev) => { lemma_subject_lines_shape(fetched, last, prev); }
            None => {}
        }
        assert forall|i: int| 0 <= i < all.len() implies is_report_line(fetched, #[trigger] all[i]) by {
            if i < head.len() {
                assert(all[i] == head[i]);
                assert(is_report_line(pre, head[i]));
                if exists|j: int| 0 <= j < pre.len() && head[i] == header_line(#[trigger] pre[j].name@) {
                    let j = choose|j: int| 0 <= j < pre.len() && head[i] == header_line(#[trigger] pre[j].name@);
                    assert(pre[j] == fetched[j]);
                }
            } else {
                assert(all[i] == part[i - head.len()]);
            }
        }
    }
}

} // verus!
