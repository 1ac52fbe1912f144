//! The registered users and the subject measurements scraped for them.
use vstd::prelude::*;
use crate::score::{score_string, score_text, MAX_SCORE};

verus! {

/// A registered user with the portal credential the poller logs in with.
pub struct User {
    pub id: i64,
    pub chat_id: i64,
    pub username: String,
    pub pwd: String,
    pub semester: u8,
}

impl User {
    /// A user can be polled once login, password and semester are all set.
    pub open spec fn spec_is_eligible(&self) -> bool {
        self.username@.len() > 0 && self.pwd@.len() > 0 && self.semester != 0
    }

    #[verifier::when_used_as_spec(spec_is_eligible)]
    pub fn is_eligible(&self) -> (r: bool)
        ensures
            r == self.spec_is_eligible(),
    {
        !self.username.as_str().is_empty() && !self.pwd.as_str().is_empty() && self.semester != 0
    }

    pub fn duplicate(&self) -> (r: User)
        ensures
            r == *self,
    {
        User {
            id: self.id,
            chat_id: self.chat_id,
            username: self.username.clone(),
            pwd: self.pwd.clone(),
            semester: self.semester,
        }
    }
}

/// One subject's rating components, each in hundredths of a point.
pub struct Subject {
    pub name: String,
    pub attendance: i64,
    pub control: i64,
    pub creative: i64,
    pub test: i64,
}

pub open spec fn in_range(v: i64) -> bool {
    0 <= v <= MAX_SCORE
}

/// The text of a subject card: name, each component and their total.
pub open spec fn subject_text(s: Subject) -> Seq<char> {
    s.name@ + ":\nПосещаемость: "@ + score_text(s.attendance as nat)
        + "\nТворческий: "@ + score_text(s.creative as nat)
        + "\nКонтрольный: "@ + score_text(s.control as nat)
        + "\nЭкз/зачет: "@ + score_text(s.test as nat)
        + "\nВсего: "@ + score_text((s.attendance + s.control + s.creative + s.test) as nat)
}

impl Subject {
    /// Every component lies between zero and the largest portal value.
    pub open spec fn wf(&self) -> bool {
        in_range(self.attendance) && in_range(self.control) && in_range(self.creative)
            && in_range(self.test)
    }

    /// The sum of the four components; it is not stored.
    pub open spec fn total(&self) -> int {
        self.attendance + self.control + self.creative + self.test
    }

    /// All four components equal those of `o`.
    pub open spec fn same_values(&self, o: Subject) -> bool {
        self.attendance == o.attendance && self.control == o.control
            && self.creative == o.creative && self.test == o.test
    }

    pub fn duplicate(&self) -> (r: Subject)
        ensures
            r == *self,
    {
        Subject {
            name: self.name.clone(),
            attendance: self.attendance,
            control: self.control,
            creative: self.creative,
            test: self.test,
        }
    }

    /// The subject card: name, each component and their total, one per line.
    pub fn to_string(&self) -> (r: String)
        requires
            self.wf(),
        ensures
            r@ == subject_text(*self),
    {
        let mut r = self.name.clone();
        r.append(":\nПосещаемость: ");
        r.append(score_string(self.attendance).as_str());
        r.append("\nТворческий: ");
        r.append(score_string(self.creative).as_str());
        r.append("\nКонтрольный: ");
        r.append(score_string(self.control).as_str());
        r.append("\nЭкз/зачет: ");
        r.append(score_string(self.test).as_str());
        r.append("\nВсего: ");
        r.append(score_string(self.attendance + self.control + self.creative + self.test).as_str());
        r
    }
}

/// Whether `v` is a component value the library accepts: zero up to the
/// largest portal value, in hundredths.
pub fn valid_score(v: i64) -> (r: bool)
    ensures
        r == in_range(v),
{
    0 <= v && v <= MAX_SCORE
}

/// Whether `s` names one of the eight semesters.
pub fn semester_in_range(s: i64) -> (r: bool)
    ensures
        r == (1 <= s <= 8),
{
    1 <= s && s <= 8
}

} // verus!
