//! The person record and the calendar date it carries.
//!
//! A date is held as plain year, month and day numbers together with a
//! validity predicate, so that everything that reads one is checked. The
//! serialized `YYYY-MM-DD` form is the concern of the transport layer.

use vstd::prelude::*;
use crate::validation::{Name, Nickname, Tech, NAME_MAX, NICKNAME_MAX, TECH_MAX};

verus! {

/// Largest year a date may carry (four decimal digits).
pub const YEAR_MAX: u16 = 9999;

/// Whether `y` is a leap year of the proleptic Gregorian calendar.
pub open spec fn spec_is_leap_year(y: int) -> bool {
    (y % 4 == 0 && y % 100 != 0) || y % 400 == 0
}

/// Number of days in month `m` of year `y`, for `1 <= m <= 12`.
pub open spec fn spec_days_in_month(y: int, m: int) -> int {
    if m == 2 {
        if spec_is_leap_year(y) {
            29
        } else {
            28
        }
    } else if m == 4 || m == 6 || m == 9 || m == 11 {
        30
    } else {
        31
    }
}

/// Whether year `y`, month `m`, day `d` name a real calendar date.
pub open spec fn spec_valid_date(y: int, m: int, d: int) -> bool {
    &&& 0 <= y <= YEAR_MAX
    &&& 1 <= m <= 12
    &&& 1 <= d <= spec_days_in_month(y, m)
}

/// A calendar date: year, month and day of the proleptic Gregorian calendar.
#[derive(Clone, Copy, PartialEq, Eq, Structural, Debug)]
pub struct Date {
    pub year: u16,
    pub month: u8,
    pub day: u8,
}

impl Date {
    /// Whether the three fields name a real calendar date.
    pub open spec fn wf(&self) -> bool {
        spec_valid_date(self.year as int, self.month as int, self.day as int)
    }

    /// Builds the date when the fields name a real calendar date, and
    /// rejects them otherwise.
    pub fn new(year: u16, month: u8, day: u8) -> (r: Option<Date>)
        ensures
            r is Some <==> spec_valid_date(year as int, month as int, day as int),
            r matches Some(d) ==> d == (Date { year, month, day }) && d.wf(),
    {
        if year > YEAR_MAX || month < 1 || month > 12 || day < 1 {
            return None;
        }
        let leap: bool = (year % 4 == 0 && year % 100 != 0) || year % 400 == 0;
        let days: u8 = if month == 2 {
            if leap {
                29
            } else {
                28
            }
        } else if month == 4 || month == 6 || month == 9 || month == 11 {
            30
        } else {
            31
        };
        if day <= days {
            Some(Date { year, month, day })
        } else {
            None
        }
    }
}

/// The mathematical image of a person record: every free-text field as a
/// character sequence.
pub struct PersonView {
    pub id: u128,
    pub name: Seq<char>,
    pub nickname: Seq<char>,
    pub birthdate: Date,
    pub stack: Option<Seq<Seq<char>>>,
}

/// Character sequences of a list of strings, in order.
pub open spec fn strings_view(v: Seq<String>) -> Seq<Seq<char>> {
    v.map_values(|s: String| s@)
}

/// A stored person record. The `id` is assigned at creation and unique
/// within a store; the text fields obeyed the validation limits when the
/// record was created.
#[derive(Debug)]
pub struct Person {
    pub id: u128,
    pub name: String,
    pub nickname: String,
    pub birthdate: Date,
    pub stack: Option<Vec<String>>,
}

impl View for Person {
    type V = PersonView;

    open spec fn view(&self) -> PersonView {
        PersonView {
            id: self.id,
            name: self.name@,
            nickname: self.nickname@,
            birthdate: self.birthdate,
            stack: match self.stack {
                Option::None => Option::None,
                Option::Some(v) => Option::Some(strings_view(v@)),
            },
        }
    }
}

/// Whether every entry of a stack is within the length limit.
pub open spec fn entries_within_limit(s: Seq<Seq<char>>) -> bool {
    forall|i: int| 0 <= i < s.len() ==> (#[trigger] s[i]).len() <= TECH_MAX
}

/// Whether every entry of an optional stack is within the length limit.
pub open spec fn stack_within_limit(stack: Option<Seq<Seq<char>>>) -> bool {
    match stack {
        Option::None => true,
        Option::Some(s) => entries_within_limit(s),
    }
}

impl Person {
    /// Whether the record obeys every creation-time rule: text fields within
    /// their limits and a real birth date.
    pub open spec fn wf(&self) -> bool {
        &&& self@.name.len() <= NAME_MAX
        &&& self@.nickname.len() <= NICKNAME_MAX
        &&& stack_within_limit(self@.stack)
        &&& self.birthdate.wf()
    }
}

fn clone_string_vec(v: &Vec<String>) -> (r: Vec<String>)
    ensures
        r@ == v@,
{
    let mut r: Vec<String> = Vec::new();
    let mut i: usize = 0;
    while i < v.len()
        invariant
            i <= v@.len(),
            r@.len() == i,
            forall|j: int| 0 <= j < i ==> r@[j] == v@[j],
        decreases v@.len() - i,
    {
        r.push(v[i].clone());
        i += 1;
    }
    proof {
        assert(r@ =~= v@);
    }
    r
}

impl Clone for Person {
    /// A copy of the record, equal to the original field for field.
    fn clone(&self) -> (r: Self)
        ensures
            r@ == self@,
            r.id == self.id,
    {
        Person {
            id: self.id,
            name: self.name.clone(),
            nickname: self.nickname.clone(),
            birthdate: self.birthdate,
            stack: match &self.stack {
                Option::None => Option::None,
                Option::Some(v) => Option::Some(clone_string_vec(v)),
            },
        }
    }
}

/// A fully validated request to create a person: each text field has already
/// passed its length check, and the date is a real calendar date whenever
/// `wf()` holds.
pub struct NewPerson {
    pub name: Name,
    pub nickname: Nickname,
    pub birthdate: Date,
    pub stack: Option<Vec<Tech>>,
}

/// Character sequences of a list of validated technology names, in order.
pub open spec fn techs_view(v: Seq<Tech>) -> Seq<Seq<char>> {
    v.map_values(|t: Tech| t@)
}

impl NewPerson {
    /// The stack entries as character sequences.
    pub open spec fn stack_view(&self) -> Option<Seq<Seq<char>>> {
        match self.stack {
            Option::None => Option::None,
            Option::Some(v) => Option::Some(techs_view(v@)),
        }
    }

    /// Whether the request obeys every creation-time rule.
    pub open spec fn wf(&self) -> bool {
        &&& self.name.wf()
        &&& self.nickname.wf()
        &&& stack_within_limit(self.stack_view())
        &&& self.birthdate.wf()
    }

    /// Validates a candidate payload. Fails exactly when the name, the
    /// nickname or a stack entry is over its limit, naming the first field
    /// (in declaration order) that is; succeeds with the fields unchanged
    /// otherwise, and then the store will take the record.
    pub fn new(name: String, nickname: String, birthdate: Date, stack: Option<Vec<String>>) -> (r:
        Result<NewPerson, &'static str>)
        requires
            birthdate.wf(),
        ensures
            r is Ok <==> name@.len() <= NAME_MAX && nickname@.len() <= NICKNAME_MAX
                && stack_within_limit(opt_strings_view(stack)),
            r matches Ok(np) ==> np.name@ == name@ && np.nickname@ == nickname@ && np.birthdate
                == birthdate && np.stack_view() == opt_strings_view(stack) && np.wf(),
            name@.len() > NAME_MAX ==> (r matches Err(e)
                && e@ == "Name should contain less than 100 characters!"@),
            name@.len() <= NAME_MAX && nickname@.len() > NICKNAME_MAX ==> (r matches Err(e)
                && e@ == "Nickname should contain less than 32 characters!"@),
            name@.len() <= NAME_MAX && nickname@.len() <= NICKNAME_MAX && !stack_within_limit(
                opt_strings_view(stack),
            ) ==> (r matches Err(e)
                && e@ == "Each stack should contain less than 32 characters!"@),
    {
        let name = match Name::try_from(name) {
            Ok(n) => n,
            Err(e) => {
                return Err(e);
            },
        };
        let nickname = match Nickname::try_from(nickname) {
            Ok(n) => n,
            Err(e) => {
                return Err(e);
            },
        };
        let stack: Option<Vec<Tech>> = match stack {
            Option::None => Option::None,
            Option::Some(entries) => match validate_stack(entries) {
                Ok(techs) => Option::Some(techs),
                Err(e) => {
                    return Err(e);
                },
            },
        };
        Ok(NewPerson { name, nickname, birthdate, stack })
    }
}

/// Validates every entry of a stack in order. Fails exactly when some entry
/// is over the limit; succeeds with the entries unchanged otherwise.
fn validate_stack(entries: Vec<String>) -> (r: Result<Vec<Tech>, &'static str>)
    ensures
        r is Ok <==> stack_within_limit(Option::Some(strings_view(entries@))),
        r matches Ok(ts) ==> techs_view(ts@) == strings_view(entries@),
        r matches Err(e) ==> e@ == "Each stack should contain less than 32 characters!"@,
{
    let mut techs: Vec<Tech> = Vec::new();
    let mut i: usize = 0;
    while i < entries.len()
        invariant
            i <= entries@.len(),
            techs@.len() == i,
            forall|j: int| 0 <= j < i ==> #[trigger] techs@[j]@ == entries@[j]@,
            forall|j: int| 0 <= j < i ==> #[trigger] entries@[j]@.len() <= TECH_MAX,
        decreases entries@.len() - i,
    {
        match Tech::try_from(entries[i].clone()) {
            Ok(t) => {
                techs.push(t);
            },
            Err(e) => {
                proof {
                    let s = strings_view(entries@);
                    assert(s.len() == entries@.len());
                    assert(s[i as int] == entries@[i as int]@);
                    assert(s[i as int].len() > TECH_MAX);
                    assert(!stack_within_limit(Option::Some(s))) by {
                        if stack_within_limit(Option::Some(s)) {
                            assert(s[i as int].len() <= TECH_MAX);
                        }
                    }
                }
                return Err(e);
            },
        }
        i += 1;
    }
    proof {
        assert(techs_view(techs@) =~= strings_view(entries@));
        assert forall|i: int| 0 <= i < strings_view(entries@).len() implies #[trigger] strings_view(
            entries@,
        )[i].len() <= TECH_MAX by {
            assert(entries@[i]@.len() <= TECH_MAX);
        }
    }
    Ok(techs)
}

/// Character sequences of the entries of an optional stack, in order.
pub open spec fn opt_strings_view(stack: Option<Vec<String>>) -> Option<Seq<Seq<char>>> {
    match stack {
        Option::None => Option::None,
        Option::Some(v) => Option::Some(strings_view(v@)),
    }
}

} // verus!
