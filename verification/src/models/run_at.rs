//! `RunAt` - a cron-like structure that says when a job should run.
//!
//! Each field lists the accepted values for one component of a
//! timestamp; an empty list is a wildcard that accepts every value.
//! A timestamp matches only when all six components are accepted.

use vstd::prelude::*;

verus! {

/// One timestamp, decomposed into the components the matcher reads.
/// `day_of_week` counts from Sunday, so Sunday is 0 and Saturday is 6.
#[derive(Debug, Clone, Copy, PartialEq, Eq, Structural)]
pub struct DateTime {
    pub year: u16,
    pub month: u8,
    pub day: u8,
    pub hour: u8,
    pub minute: u8,
    pub day_of_week: u8,
}

impl DateTime {
    /// Bundle the components of one timestamp.
    pub fn new(year: u16, month: u8, day: u8, hour: u8, minute: u8, day_of_week: u8) -> (dt:
        DateTime)
        ensures
            dt == (DateTime { year, month, day, hour, minute, day_of_week }),
    {
        DateTime { year, month, day, hour, minute, day_of_week }
    }
}

/// A cron-like structure that says when a job should run.
#[derive(Debug, Default, Hash, PartialEq, Eq, PartialOrd, Ord)]
pub struct RunAt {
    /// range of 0..59 inclusive
    pub minutes: Vec<u8>,
    /// range of 0..23 inclusive
    pub hours: Vec<u8>,
    /// range of 1..31 inclusive
    pub days_of_month: Vec<u8>,
    /// range of 0..7 inclusive (sunday == 0 or 7)
    pub days_of_week: Vec<u8>,
    /// range of 1..12 inclusive
    pub months: Vec<u8>,
    /// range of the current year up to 2999
    pub years: Vec<u16>,
}

/// The mathematical content of a `RunAt`: the six lists of accepted
/// component values.
#[verifier::ext_equal]
pub ghost struct RunAtV {
    pub minutes: Seq<u8>,
    pub hours: Seq<u8>,
    pub days_of_month: Seq<u8>,
    pub days_of_week: Seq<u8>,
    pub months: Seq<u8>,
    pub years: Seq<u16>,
}

impl View for RunAt {
    type V = RunAtV;

    open spec fn view(&self) -> RunAtV {
        RunAtV {
            minutes: self.minutes@,
            hours: self.hours@,
            days_of_month: self.days_of_month@,
            days_of_week: self.days_of_week@,
            months: self.months@,
            years: self.years@,
        }
    }
}

impl DeepView for RunAt {
    type V = RunAtV;

    open spec fn deep_view(&self) -> RunAtV {
        self.view()
    }
}

impl Clone for RunAt {
    /// A clone keeps all six lists.
    fn clone(&self) -> (res: Self)
        ensures
            res@ == self@,
    {
        let res = RunAt {
            minutes: self.minutes.clone(),
            hours: self.hours.clone(),
            days_of_month: self.days_of_month.clone(),
            days_of_week: self.days_of_week.clone(),
            months: self.months.clone(),
            years: self.years.clone(),
        };
        proof {
            assert(res.minutes@ =~= self.minutes@);
            assert(res.hours@ =~= self.hours@);
            assert(res.days_of_month@ =~= self.days_of_month@);
            assert(res.days_of_week@ =~= self.days_of_week@);
            assert(res.months@ =~= self.months@);
            assert(res.years@ =~= self.years@);
            assert(res@ =~= self@);
        }
        res
    }
}

/// An empty list accepts every value; a non-empty list accepts exactly
/// its members.
pub open spec fn spec_in_list(value: u8, list: Seq<u8>) -> bool {
    list.len() == 0 || list.contains(value)
}

/// The same wildcard rule for the year list.
pub open spec fn spec_in_years(value: u16, list: Seq<u16>) -> bool {
    list.len() == 0 || list.contains(value)
}

/// return true if the vector is empty or the value is in the list
fn match_list(value: u8, list: &Vec<u8>) -> (r: bool)
    ensures
        r == spec_in_list(value, list@),
{
    if list.len() == 0 {
        return true;
    }
    let mut i: usize = 0;
    while i < list.len()
        invariant
            i <= list@.len(),
            forall|j: int| 0 <= j < i ==> list@[j] != value,
        decreases list@.len() - i,
    {
        if list[i] == value {
            return true;
        }
        i += 1;
    }
    false
}

/// return true if the vector is empty or the value is in the list
fn match_years(value: u16, list: &Vec<u16>) -> (r: bool)
    ensures
        r == spec_in_years(value, list@),
{
    if list.len() == 0 {
        return true;
    }
    let mut i: usize = 0;
    while i < list.len()
        invariant
            i <= list@.len(),
            forall|j: int| 0 <= j < i ==> list@[j] != value,
        decreases list@.len() - i,
    {
        if list[i] == value {
            return true;
        }
        i += 1;
    }
    false
}

/// Every element of the list lies between `min` and `max`, inclusive.
pub open spec fn spec_all_in_range(list: Seq<u8>, min: u8, max: u8) -> bool {
    forall|i: int| 0 <= i < list.len() ==> min <= #[trigger] list[i] && list[i] <= max
}

fn all_in_range(list: &Vec<u8>, min: u8, max: u8) -> (r: bool)
    ensures
        r == spec_all_in_range(list@, min, max),
{
    let mut i: usize = 0;
    while i < list.len()
        invariant
            i <= list@.len(),
            forall|j: int| 0 <= j < i ==> min <= #[trigger] list@[j] && list@[j] <= max,
        decreases list@.len() - i,
    {
        if list[i] < min || list[i] > max {
            return false;
        }
        i += 1;
    }
    true
}

/// The minutes that construction keeps: the input sequence with every
/// value above 59 dropped, order preserved.
pub open spec fn spec_valid_minutes(s: Seq<u8>) -> Seq<u8>
    decreases s.len(),
{
    if s.len() == 0 {
        Seq::empty()
    } else if s.last() <= 59 {
        spec_valid_minutes(s.drop_last()).push(s.last())
    } else {
        spec_valid_minutes(s.drop_last())
    }
}

proof fn lemma_valid_minutes_step(s: Seq<u8>, i: int)
    requires
        0 <= i < s.len(),
    ensures
        spec_valid_minutes(s.take(i + 1)) == if s[i] <= 59 {
            spec_valid_minutes(s.take(i)).push(s[i])
        } else {
            spec_valid_minutes(s.take(i))
        },
{
    assert(s.take(i + 1).drop_last() =~= s.take(i));
    assert(s.take(i + 1).last() == s[i]);
}

impl RunAt {
    /// create a new RunAt struct with zero length vec values
    pub fn new() -> (at: RunAt)
        ensures
            at@ =~= (RunAtV {
                minutes: Seq::empty(),
                hours: Seq::empty(),
                days_of_month: Seq::empty(),
                days_of_week: Seq::empty(),
                months: Seq::empty(),
                years: Seq::empty(),
            }),
    {
        RunAt {
            minutes: Vec::new(),
            hours: Vec::new(),
            days_of_month: Vec::new(),
            days_of_week: Vec::new(),
            months: Vec::new(),
            years: Vec::new(),
        }
    }

    /// create a new RunAt struct with the supplied minutes; minutes are
    /// validated for 0..59 inclusive. values outside that range are ignored
    pub fn with_minutes(minutes: &Vec<u8>) -> (at: RunAt)
        ensures
            at.minutes@ == spec_valid_minutes(minutes@),
            at.hours@ == Seq::<u8>::empty(),
            at.days_of_month@ == Seq::<u8>::empty(),
            at.days_of_week@ == Seq::<u8>::empty(),
            at.months@ == Seq::<u8>::empty(),
            at.years@ == Seq::<u16>::empty(),
    {
        let mut at = RunAt::new();

        proof {
            assert(minutes@.take(0) =~= Seq::<u8>::empty());
        }
        let mut i: usize = 0;
        while i < minutes.len()
            invariant
                i <= minutes@.len(),
                at.minutes@ == spec_valid_minutes(minutes@.take(i as int)),
                at.hours@.len() == 0,
                at.days_of_month@.len() == 0,
                at.days_of_week@.len() == 0,
                at.months@.len() == 0,
                at.years@.len() == 0,
            decreases minutes@.len() - i,
        {
            let minute = minutes[i];
            if at.valid_minute(minute) {
                at.minutes.push(minute);
            }
            proof {
                lemma_valid_minutes_step(minutes@, i as int);
            }
            i += 1;
        }
        proof {
            assert(minutes@.take(minutes@.len() as int) =~= minutes@);
        }
        at
    }

    /// Every stored value lies in the range documented for its field.
    /// The year list's lower bound is the clock at construction time,
    /// which a pure check cannot read, so only the upper bound is checked.
    pub open spec fn spec_valid(self) -> bool {
        &&& spec_all_in_range(self.minutes@, 0, 59)
        &&& spec_all_in_range(self.hours@, 0, 23)
        &&& spec_all_in_range(self.days_of_month@, 1, 31)
        &&& spec_all_in_range(self.days_of_week@, 0, 7)
        &&& spec_all_in_range(self.months@, 1, 12)
        &&& (forall|i: int| 0 <= i < self.years@.len() ==> #[trigger] self.years@[i] <= 2999)
    }

    /// returns true if the RunAt struct is valid. checks all vec values for
    /// the proper range.
    pub fn is_valid(&self) -> (r: bool)
        ensures
            r == self.spec_valid(),
    {
        let mut ok = all_in_range(&self.minutes, 0, 59);
        ok = ok && all_in_range(&self.hours, 0, 23);
        ok = ok && all_in_range(&self.days_of_month, 1, 31);
        ok = ok && all_in_range(&self.days_of_week, 0, 7);
        ok = ok && all_in_range(&self.months, 1, 12);
        if !ok {
            return false;
        }
        let mut i: usize = 0;
        while i < self.years.len()
            invariant
                i <= self.years@.len(),
                forall|j: int| 0 <= j < i ==> #[trigger] self.years@[j] <= 2999,
                spec_all_in_range(self.minutes@, 0, 59),
                spec_all_in_range(self.hours@, 0, 23),
                spec_all_in_range(self.days_of_month@, 1, 31),
                spec_all_in_range(self.days_of_week@, 0, 7),
                spec_all_in_range(self.months@, 1, 12),
            decreases self.years@.len() - i,
        {
            if self.years[i] > 2999 {
                return false;
            }
            i += 1;
        }
        true
    }

    /// return true if minute value is in the range of 0..59 inclusive, else false.
    pub fn valid_minute(&self, minute: u8) -> (r: bool)
        ensures
            r == (minute <= 59),
    {
        self.validate_range(minute, 0u8, 59u8)
    }

    /// return true if hour value is in the range of 0..23 inclusive, else false.
    pub fn valid_hour(&self, hour: u8) -> (r: bool)
        ensures
            r == (hour <= 23),
    {
        self.validate_range(hour, 0u8, 23u8)
    }

    fn validate_range(&self, value: u8, min: u8, max: u8) -> (r: bool)
        ensures
            r == (min <= value && value <= max),
    {
        value >= min && value <= max
    }

    /// A timestamp matches when every one of the six components is
    /// accepted by its list, an empty list accepting everything.
    /// Day-of-month and day-of-week are both required to accept
    /// (they are combined with AND, not with cron's customary OR).
    pub open spec fn spec_matches(self, dt: DateTime) -> bool {
        &&& spec_in_years(dt.year, self.years@)
        &&& spec_in_list(dt.month, self.months@)
        &&& spec_in_list(dt.day, self.days_of_month@)
        &&& spec_in_list(dt.day_of_week, self.days_of_week@)
        &&& spec_in_list(dt.hour, self.hours@)
        &&& spec_in_list(dt.minute, self.minutes@)
    }

    /// return true if the supplied date matches this schedule
    pub fn match_datetime(&self, dt: &DateTime) -> (r: bool)
        ensures
            r == self.spec_matches(*dt),
    {
        if !match_years(dt.year, &self.years) {
            return false;
        }
        if !match_list(dt.month, &self.months) {
            return false;
        }
        if !match_list(dt.day, &self.days_of_month) {
            return false;
        }
        if !match_list(dt.day_of_week, &self.days_of_week) {
            return false;
        }
        if match_list(dt.hour, &self.hours) && match_list(dt.minute, &self.minutes) {
            return true;
        }
        false
    }
}

} // verus!
