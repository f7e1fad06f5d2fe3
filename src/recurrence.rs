//! Normalizing the three raw layouts of schedule rows into `RecurringOutage`.
use vstd::prelude::*;

use crate::calendar::{parse_calendar_date, parse_clock_time, parsed_clock_time, parsed_date};
use crate::structs::{
    ClockTime, Column, Errors, RawMonthlyShedding, RawPeriodicShedding, RawShedding,
    RawWeeklyShedding, Recurrence, RecurringOutage,
};

verus! {

/// Start and finish of a window, both written `HH:MM`.
pub open spec fn window_outcome(start: Seq<char>, finsh: Seq<char>) -> Result<
    (ClockTime, ClockTime),
    Errors,
> {
    match (parsed_clock_time(start), parsed_clock_time(finsh)) {
        (Some(s), Some(f)) => Ok((s, f)),
        (None, _) => Err(Errors::BadField(Column::StartTime)),
        (Some(_), None) => Err(Errors::BadField(Column::FinshTime)),
    }
}

/// A weekly row: the day of the week must lie in `1..=7`.
pub open spec fn weekly_outcome(start: Seq<char>, finsh: Seq<char>, stage: u8, day: u8) -> Result<
    RecurringOutage,
    Errors,
> {
    if !(1 <= day <= 7) {
        Err(Errors::DayOutOfRange { day, max: 7 })
    } else {
        match window_outcome(start, finsh) {
            Ok(w) => Ok(
                RecurringOutage {
                    start_time: w.0,
                    finsh_time: w.1,
                    stage,
                    recurrence: Recurrence::Weekly,
                    day1_of_recurrence: day,
                },
            ),
            Err(e) => Err(e),
        }
    }
}

/// A monthly row: the date of the month must lie in `1..=31`.
pub open spec fn monthly_outcome(start: Seq<char>, finsh: Seq<char>, stage: u8, day: u8) -> Result<
    RecurringOutage,
    Errors,
> {
    if !(1 <= day <= 31) {
        Err(Errors::DayOutOfRange { day, max: 31 })
    } else {
        match window_outcome(start, finsh) {
            Ok(w) => Ok(
                RecurringOutage {
                    start_time: w.0,
                    finsh_time: w.1,
                    stage,
                    recurrence: Recurrence::Monthly,
                    day1_of_recurrence: day,
                },
            ),
            Err(e) => Err(e),
        }
    }
}

/// A periodic row: the day of the cycle must lie in `1..=period`, and the cycle's first day
/// is written `YYYY-MM-DD`.
pub open spec fn periodic_outcome(
    start: Seq<char>,
    finsh: Seq<char>,
    stage: u8,
    day: u8,
    period: u8,
    first_day: Seq<char>,
) -> Result<RecurringOutage, Errors> {
    if day == 0 || day > period {
        Err(Errors::DayOutOfRange { day, max: period })
    } else {
        match parsed_date(first_day) {
            None => Err(Errors::BadField(Column::StartOfCycle)),
            Some(offset) => match window_outcome(start, finsh) {
                Ok(w) => Ok(
                    RecurringOutage {
                        start_time: w.0,
                        finsh_time: w.1,
                        stage,
                        recurrence: Recurrence::Periodic { offset, period_days: period },
                        day1_of_recurrence: day,
                    },
                ),
                Err(e) => Err(e),
            },
        }
    }
}

/// What a raw row of any layout normalizes to.
pub open spec fn shedding_outcome(raw: RawShedding) -> Result<RecurringOutage, Errors> {
    match raw {
        RawShedding::Weekly(w) => weekly_outcome(
            w.start_time@,
            w.finsh_time@,
            w.stage,
            w.day_of_week,
        ),
        RawShedding::Monthly(m) => monthly_outcome(
            m.start_time@,
            m.finsh_time@,
            m.stage,
            m.date_of_month,
        ),
        RawShedding::Periodic(p) => periodic_outcome(
            p.start_time@,
            p.finsh_time@,
            p.stage,
            p.day_of_cycle,
            p.period_of_cycle,
            p.start_of_cycle@,
        ),
    }
}

fn read_window(start: &str, finsh: &str) -> (r: Result<(ClockTime, ClockTime), Errors>)
    ensures
        r == window_outcome(start@, finsh@),
        r matches Ok(w) ==> w.0.wf() && w.1.wf(),
{
    match parse_clock_time(start) {
        None => Err(Errors::BadField(Column::StartTime)),
        Some(s) => match parse_clock_time(finsh) {
            None => Err(Errors::BadField(Column::FinshTime)),
            Some(f) => Ok((s, f)),
        },
    }
}

impl RecurringOutage {
    /// Normalizes a weekly row; a day of the week outside `1..=7` is a validation error.
    pub fn from_weekly(raw: RawWeeklyShedding) -> (r: Result<RecurringOutage, Errors>)
        ensures
            r == weekly_outcome(raw.start_time@, raw.finsh_time@, raw.stage, raw.day_of_week),
            r matches Ok(o) ==> o.wf(),
    {
        if !(1 <= raw.day_of_week && raw.day_of_week <= 7) {
            return Err(Errors::DayOutOfRange { day: raw.day_of_week, max: 7 });
        }
        let (start_time, finsh_time) = read_window(raw.start_time.as_str(), raw.finsh_time.as_str())?;
        Ok(
            RecurringOutage {
                start_time,
                finsh_time,
                stage: raw.stage,
                recurrence: Recurrence::Weekly,
                day1_of_recurrence: raw.day_of_week,
            },
        )
    }

    /// Normalizes a monthly row; a date of the month outside `1..=31` is a validation error.
    pub fn from_monthly(raw: RawMonthlyShedding) -> (r: Result<RecurringOutage, Errors>)
        ensures
            r == monthly_outcome(raw.start_time@, raw.finsh_time@, raw.stage, raw.date_of_month),
            r matches Ok(o) ==> o.wf(),
    {
        if !(1 <= raw.date_of_month && raw.date_of_month <= 31) {
            return Err(Errors::DayOutOfRange { day: raw.date_of_month, max: 31 });
        }
        let (start_time, finsh_time) = read_window(raw.start_time.as_str(), raw.finsh_time.as_str())?;
        Ok(
            RecurringOutage {
                start_time,
                finsh_time,
                stage: raw.stage,
                recurrence: Recurrence::Monthly,
                day1_of_recurrence: raw.date_of_month,
            },
        )
    }

    /// Normalizes a periodic row; a day of the cycle beyond the period is a validation error.
    pub fn from_periodic(raw: RawPeriodicShedding) -> (r: Result<RecurringOutage, Errors>)
        ensures
            r == periodic_outcome(
                raw.start_time@,
                raw.finsh_time@,
                raw.stage,
                raw.day_of_cycle,
                raw.period_of_cycle,
                raw.start_of_cycle@,
            ),
            r matches Ok(o) ==> o.wf(),
    {
        if raw.day_of_cycle == 0 || raw.day_of_cycle > raw.period_of_cycle {
            return Err(Errors::DayOutOfRange { day: raw.day_of_cycle, max: raw.period_of_cycle });
        }
        let offset = match parse_calendar_date(raw.start_of_cycle.as_str()) {
            Some(d) => d,
            None => {
                return Err(Errors::BadField(Column::StartOfCycle));
            },
        };
        let (start_time, finsh_time) = read_window(raw.start_time.as_str(), raw.finsh_time.as_str())?;
        Ok(
            RecurringOutage {
                start_time,
                finsh_time,
                stage: raw.stage,
                recurrence: Recurrence::Periodic { offset, period_days: raw.period_of_cycle },
                day1_of_recurrence: raw.day_of_cycle,
            },
        )
    }
}

impl RawShedding {
    /// Normalizes a row of any of the three layouts.
    pub fn normalize(self) -> (r: Result<RecurringOutage, Errors>)
        ensures
            r == shedding_outcome(self),
            r matches Ok(o) ==> o.wf(),
    {
        match self {
            RawShedding::Weekly(w) => RecurringOutage::from_weekly(w),
            RawShedding::Monthly(m) => RecurringOutage::from_monthly(m),
            RawShedding::Periodic(p) => RecurringOutage::from_periodic(p),
        }
    }
}

} // verus!
