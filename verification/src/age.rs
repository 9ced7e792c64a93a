//! How long ago something happened, told in the largest unit that applies.

use crate::decimal::{decimal, push_decimal};
use vstd::prelude::*;
use vstd::string::StringExecFns;

verus! {

/// The unit in which an age is told, from the shortest to the longest.
#[derive(Clone, Copy, Debug, PartialEq, Eq, Structural)]
pub enum AgeUnit {
    /// Less than one second.
    JustNow,
    Seconds,
    Minutes,
    Hours,
    Days,
    /// Years of 365 days.
    Years,
}

/// An age as it is shown: a whole number of one unit.
#[derive(Clone, Copy, Debug, PartialEq, Eq, Structural)]
pub struct RelativeAge {
    pub unit: AgeUnit,
    /// How many of the unit; zero for `JustNow`.
    pub count: u64,
}

pub const SECONDS_PER_MINUTE: u64 = 60;

pub const SECONDS_PER_HOUR: u64 = 3_600;

pub const SECONDS_PER_DAY: u64 = 86_400;

/// A year counts as 365 days.
pub const SECONDS_PER_YEAR: u64 = 31_536_000;

impl AgeUnit {
    /// The place of the unit in the order from shortest to longest.
    pub open spec fn rank(self) -> nat {
        match self {
            AgeUnit::JustNow => 0,
            AgeUnit::Seconds => 1,
            AgeUnit::Minutes => 2,
            AgeUnit::Hours => 3,
            AgeUnit::Days => 4,
            AgeUnit::Years => 5,
        }
    }

    /// The length of one unit in seconds.
    pub open spec fn seconds(self) -> nat {
        match self {
            AgeUnit::JustNow => 0,
            AgeUnit::Seconds => 1,
            AgeUnit::Minutes => SECONDS_PER_MINUTE as nat,
            AgeUnit::Hours => SECONDS_PER_HOUR as nat,
            AgeUnit::Days => SECONDS_PER_DAY as nat,
            AgeUnit::Years => SECONDS_PER_YEAR as nat,
        }
    }
}

impl RelativeAge {
    /// The age shown for a time that lies `elapsed_millis` milliseconds
    /// back: whole seconds below a minute, whole minutes below an hour,
    /// whole hours below a day, whole days below 365 days, whole years of
    /// 365 days from there on. Fractions of the unit are dropped.
    pub open spec fn of(elapsed_millis: u64) -> RelativeAge {
        let seconds = elapsed_millis / 1000;
        if seconds < 1 {
            RelativeAge { unit: AgeUnit::JustNow, count: 0 }
        } else if seconds < SECONDS_PER_MINUTE {
            RelativeAge { unit: AgeUnit::Seconds, count: seconds }
        } else if seconds < SECONDS_PER_HOUR {
            RelativeAge { unit: AgeUnit::Minutes, count: seconds / SECONDS_PER_MINUTE }
        } else if seconds < SECONDS_PER_DAY {
            RelativeAge { unit: AgeUnit::Hours, count: seconds / SECONDS_PER_HOUR }
        } else if seconds < SECONDS_PER_YEAR {
            RelativeAge { unit: AgeUnit::Days, count: seconds / SECONDS_PER_DAY }
        } else {
            RelativeAge { unit: AgeUnit::Years, count: seconds / SECONDS_PER_YEAR }
        }
    }

    /// The words for the age: `Just now`, or the count, the unit's name in
    /// the plural whatever the count, and `ago`.
    pub open spec fn text(self) -> Seq<char> {
        match self.unit {
            AgeUnit::JustNow => "Just now"@,
            AgeUnit::Seconds => decimal(self.count as nat) + " seconds ago"@,
            AgeUnit::Minutes => decimal(self.count as nat) + " minutes ago"@,
            AgeUnit::Hours => decimal(self.count as nat) + " hours ago"@,
            AgeUnit::Days => decimal(self.count as nat) + " days ago"@,
            AgeUnit::Years => decimal(self.count as nat) + " years ago"@,
        }
    }

    /// The time that the age tells, in seconds.
    pub open spec fn seconds(self) -> nat {
        match self.unit {
            AgeUnit::JustNow => 0,
            AgeUnit::Seconds => self.count as nat,
            AgeUnit::Minutes => self.count as nat * SECONDS_PER_MINUTE as nat,
            AgeUnit::Hours => self.count as nat * SECONDS_PER_HOUR as nat,
            AgeUnit::Days => self.count as nat * SECONDS_PER_DAY as nat,
            AgeUnit::Years => self.count as nat * SECONDS_PER_YEAR as nat,
        }
    }

    /// The age shown for a time that lies `elapsed_millis` back.
    pub fn since(elapsed_millis: u64) -> (age: RelativeAge)
        ensures
            age == RelativeAge::of(elapsed_millis),
    {
        let seconds: u64 = elapsed_millis / 1000;
        if seconds == 0 {
            return RelativeAge { unit: AgeUnit::JustNow, count: 0 };
        }
        if seconds < 60 {
            return RelativeAge { unit: AgeUnit::Seconds, count: seconds };
        }
        let minutes: u64 = seconds / 60;
        if minutes < 60 {
            return RelativeAge { unit: AgeUnit::Minutes, count: minutes };
        }
        let hours: u64 = seconds / 3_600;
        if hours < 24 {
            return RelativeAge { unit: AgeUnit::Hours, count: hours };
        }
        let days: u64 = seconds / 86_400;
        if days < 365 {
            return RelativeAge { unit: AgeUnit::Days, count: days };
        }
        let years: u64 = days / 365;
        RelativeAge { unit: AgeUnit::Years, count: years }
    }

    /// The words for the age.
    pub fn to_text(&self) -> (s: String)
        ensures
            s@ == self.text(),
    {
        let mut s = String::new();
        match self.unit {
            AgeUnit::JustNow => {
                s.append("Just now");
            },
            AgeUnit::Seconds => {
                push_decimal(&mut s, self.count);
                s.append(" seconds ago");
            },
            AgeUnit::Minutes => {
                push_decimal(&mut s, self.count);
                s.append(" minutes ago");
            },
            AgeUnit::Hours => {
                push_decimal(&mut s, self.count);
                s.append(" hours ago");
            },
            AgeUnit::Days => {
                push_decimal(&mut s, self.count);
                s.append(" days ago");
            },
            AgeUnit::Years => {
                push_decimal(&mut s, self.count);
                s.append(" years ago");
            },
        }
        s
    }
}

/// The unit is chosen by the elapsed time alone, with these bounds in
/// milliseconds.
pub proof fn lemma_age_unit_bounds(elapsed_millis: u64)
    ensures
        ({
            let unit = RelativeAge::of(elapsed_millis).unit;
            &&& unit == AgeUnit::JustNow <==> elapsed_millis < 1_000
            &&& unit == AgeUnit::Seconds <==> 1_000 <= elapsed_millis < 60_000
            &&& unit == AgeUnit::Minutes <==> 60_000 <= elapsed_millis < 3_600_000
            &&& unit == AgeUnit::Hours <==> 3_600_000 <= elapsed_millis < 86_400_000
            &&& unit == AgeUnit::Days <==> 86_400_000 <= elapsed_millis < 31_536_000_000
            &&& unit == AgeUnit::Years <==> 31_536_000_000 <= elapsed_millis
        }),
{
}

/// The age shown never tells more than the time that has passed, and less
/// by under one unit.
pub proof fn lemma_age_rounds_down(elapsed_millis: u64)
    ensures
        ({
            let age = RelativeAge::of(elapsed_millis);
            let seconds = elapsed_millis / 1000;
            &&& age.seconds() <= seconds
            &&& age.unit != AgeUnit::JustNow ==> seconds < age.seconds() + age.unit.seconds()
        }),
{
}

/// From the second on, the age shown tells at least one whole unit.
pub proof fn lemma_age_at_least_one_unit(elapsed_millis: u64)
    ensures
        ({
            let age = RelativeAge::of(elapsed_millis);
            &&& age.unit != AgeUnit::JustNow ==> age.count >= 1
            &&& age.seconds() >= age.unit.seconds()
        }),
{
}

/// As more time passes the age shown never gets smaller: the unit stays or
/// gets longer, within one unit the count stays or grows, and the time told
/// stays or grows.
pub proof fn lemma_age_monotonic(earlier: u64, later: u64)
    requires
        earlier <= later,
    ensures
        ({
            let before = RelativeAge::of(earlier);
            let after = RelativeAge::of(later);
            &&& before.unit.rank() <= after.unit.rank()
            &&& before.unit == after.unit ==> before.count <= after.count
            &&& before.seconds() <= after.seconds()
        }),
{
    let before = RelativeAge::of(earlier);
    let after = RelativeAge::of(later);
    if before.unit == after.unit {
        assert(before.count <= after.count);
    } else {
        lemma_age_unit_bounds(earlier);
        lemma_age_unit_bounds(later);
        lemma_age_rounds_down(earlier);
        lemma_age_at_least_one_unit(later);
    }
}

} // verus!
