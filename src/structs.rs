//! The data model of the service.
use vstd::prelude::*;

use crate::region::{Municipality, Province};

verus! {

/// A named column of one of the CSV feeds.
#[derive(Debug, Clone, Copy, PartialEq, Eq, Structural)]
pub enum Column {
    AreaName,
    Stage,
    Start,
    Finsh,
    Source,
    StartTime,
    FinshTime,
    DayOfWeek,
    DateOfMonth,
    DayOfCycle,
    PeriodOfCycle,
    StartOfCycle,
}

impl Column {
    /// The header text of this column.
    pub open spec fn spec_name(self) -> Seq<char> {
        match self {
            Column::AreaName => "area_name"@,
            Column::Stage => "stage"@,
            Column::Start => "start"@,
            Column::Finsh => "finsh"@,
            Column::Source => "source"@,
            Column::StartTime => "start_time"@,
            Column::FinshTime => "finsh_time"@,
            Column::DayOfWeek => "day_of_week"@,
            Column::DateOfMonth => "date_of_month"@,
            Column::DayOfCycle => "day_of_cycle"@,
            Column::PeriodOfCycle => "period_of_cycle"@,
            Column::StartOfCycle => "start_of_cycle"@,
        }
    }

    pub fn name(&self) -> (r: &'static str)
        ensures
            r@ == self.spec_name(),
    {
        match self {
            Column::AreaName => "area_name",
            Column::Stage => "stage",
            Column::Start => "start",
            Column::Finsh => "finsh",
            Column::Source => "source",
            Column::StartTime => "start_time",
            Column::FinshTime => "finsh_time",
            Column::DayOfWeek => "day_of_week",
            Column::DateOfMonth => "date_of_month",
            Column::DayOfCycle => "day_of_cycle",
            Column::PeriodOfCycle => "period_of_cycle",
            Column::StartOfCycle => "start_of_cycle",
        }
    }
}

/// Everything that can go wrong while fetching, decoding or querying the feeds.
#[derive(Debug)]
pub enum Errors {
    /// A failure with nothing more specific to say about it.
    Unspecified(String),
    /// The upstream resource could not be fetched; the text says why.
    Fetch(String),
    /// The text is not well-formed CSV (for instance, records of differing lengths).
    MalformedCsv,
    /// A column that the records need is absent from the header row.
    MissingColumn(Column),
    /// A field does not have the strict format its column asks for.
    BadField(Column),
    /// The header row of a schedule matches none of the known layouts.
    UnknownHeaders(Vec<String>),
    /// A day of the recurrence lies outside `1..=max`.
    DayOutOfRange { day: u8, max: u8 },
    /// No outage in the feed names this area.
    NotFound(String),
    /// The pattern does not compile as a regular expression.
    InvalidPattern { pattern: String, reason: String },
}

/// The unique ID of a schedule.
#[derive(Debug, Clone, Copy, PartialEq, Eq, Structural)]
pub struct ScheduleId(pub i64);

/// The ID of an `Area`.
#[derive(Debug, Clone, Copy, PartialEq, Eq, Structural)]
pub struct AreaId(pub i64);

/// A day of the proleptic Gregorian calendar.
#[derive(Debug, Clone, Copy, PartialEq, Eq, Structural)]
pub struct CalendarDate {
    pub year: i32,
    /// 1 to 12.
    pub month: u8,
    /// 1 to 31.
    pub day: u8,
}

/// Whether `year` of the proleptic Gregorian calendar has a 29th of February.
pub open spec fn is_leap_year(year: int) -> bool {
    (year % 4 == 0 && year % 100 != 0) || year % 400 == 0
}

/// The number of days in `month` (1 to 12) of `year`.
pub open spec fn days_in_month(year: int, month: int) -> int {
    if month == 2 {
        if is_leap_year(year) {
            29
        } else {
            28
        }
    } else if month == 4 || month == 6 || month == 9 || month == 11 {
        30
    } else {
        31
    }
}

impl CalendarDate {
    /// A real day, within the years that chrono's `NaiveDate` covers.
    pub open spec fn wf(self) -> bool {
        &&& -262143 <= self.year <= 262142
        &&& 1 <= self.month <= 12
        &&& 1 <= self.day <= days_in_month(self.year as int, self.month as int)
    }
}

/// A time of day.
#[derive(Debug, Clone, Copy, PartialEq, Eq, Structural)]
pub struct ClockTime {
    /// 0 to 23.
    pub hour: u8,
    /// 0 to 59.
    pub minute: u8,
    /// 0 to 59.
    pub second: u8,
}

impl ClockTime {
    pub open spec fn wf(self) -> bool {
        self.hour < 24 && self.minute < 60 && self.second < 60
    }
}

/// A date and a time of day, without a time zone.
#[derive(Debug, Clone, Copy, PartialEq, Eq, Structural)]
pub struct LocalDateTime {
    pub date: CalendarDate,
    pub time: ClockTime,
}

impl LocalDateTime {
    pub open spec fn wf(self) -> bool {
        self.date.wf() && self.time.wf()
    }
}

/// An instant, written as the local date and time at a fixed offset from UTC.
#[derive(Debug, Clone, Copy, PartialEq, Eq, Structural)]
pub struct Timestamp {
    pub date: CalendarDate,
    pub time: ClockTime,
    /// Fraction of the second; values of a billion and over mark a leap second.
    pub nanosecond: u32,
    /// Seconds east of UTC.
    pub offset_seconds: i32,
}

impl Timestamp {
    /// Every field in its range; a leap second can only follow second 59.
    pub open spec fn wf(self) -> bool {
        &&& self.date.wf()
        &&& self.time.wf()
        &&& self.nanosecond < 2_000_000_000
        &&& self.nanosecond >= 1_000_000_000 ==> self.time.second == 59
        &&& -86400 < self.offset_seconds < 86400
    }
}

/// How often a recurring outage repeats.
#[derive(Debug, Clone, Copy, PartialEq, Eq, Structural)]
pub enum Recurrence {
    /// Repeat every week.
    Weekly,
    /// Repeat every month.
    Monthly,
    /// Repeat every `period_days` days, counting from the date `offset`.
    Periodic { offset: CalendarDate, period_days: u8 },
}

/// A recurring window during which the power *could* be out, depending on the stage.
///
/// `finsh_time` may be earlier in the day than `start_time`: the window then runs over
/// midnight.
#[derive(Debug, Clone, Copy, PartialEq, Eq, Structural)]
pub struct RecurringOutage {
    pub start_time: ClockTime,
    pub finsh_time: ClockTime,
    pub stage: u8,
    pub recurrence: Recurrence,
    /// Day of the week (1 is Monday), of the month, or of the cycle on which the window starts.
    pub day1_of_recurrence: u8,
}

impl RecurringOutage {
    /// The range invariant of `day1_of_recurrence`, with valid times and cycle start.
    pub open spec fn wf(self) -> bool {
        &&& self.start_time.wf()
        &&& self.finsh_time.wf()
        &&& match self.recurrence {
            Recurrence::Weekly => 1 <= self.day1_of_recurrence <= 7,
            Recurrence::Monthly => 1 <= self.day1_of_recurrence <= 31,
            Recurrence::Periodic { offset, period_days } => offset.wf() && 1
                <= self.day1_of_recurrence <= period_days,
        }
    }
}

/// A loadshedding schedule that repeats over some period.
#[derive(Debug)]
pub struct RecurringSchedule {
    pub id: ScheduleId,
    /// All the recurring outages of this schedule.
    pub outages: Vec<RecurringOutage>,
    /// Where this schedule came from.
    pub source: Vec<String>,
    /// Pages that describe `source`.
    pub info: Vec<String>,
    pub last_updated: Option<LocalDateTime>,
    pub valid_from: Option<LocalDateTime>,
    pub valid_until: Option<LocalDateTime>,
}

impl RecurringSchedule {
    /// Every outage and every date is valid.
    pub open spec fn wf(&self) -> bool {
        &&& forall|i: int| 0 <= i < self.outages@.len() ==> (#[trigger] self.outages@[i]).wf()
        &&& self.last_updated matches Some(t) ==> t.wf()
        &&& self.valid_from matches Some(t) ==> t.wf()
        &&& self.valid_until matches Some(t) ==> t.wf()
    }

    /// Every field but `outages` holds its default.
    pub open spec fn has_defaults(&self) -> bool {
        &&& self.id == ScheduleId(0)
        &&& self.source@.len() == 0
        &&& self.info@.len() == 0
        &&& self.last_updated is None
        &&& self.valid_from is None
        &&& self.valid_until is None
    }

    /// A schedule of these outages, with nothing else known about it.
    pub fn with_outages(outages: Vec<RecurringOutage>) -> (r: RecurringSchedule)
        ensures
            r.outages@ == outages@,
            r.has_defaults(),
    {
        RecurringSchedule {
            id: ScheduleId(0),
            outages,
            source: Vec::new(),
            info: Vec::new(),
            last_updated: None,
            valid_from: None,
            valid_until: None,
        }
    }
}

/// A geographical area which has a loadshedding schedule.
#[derive(Debug)]
pub struct Area {
    /// The standardised name of this area.
    pub name: String,
    pub id: AreaId,
    /// The schedule that this area follows.
    pub schedule: ScheduleId,
    /// Other names for this area.
    pub aliases: Vec<String>,
    pub province: Option<Province>,
    pub municipality: Option<Municipality>,
}

impl Area {
    /// An area known only by its name: every other field holds its default.
    pub open spec fn is_name_only(self) -> bool {
        &&& self.id == AreaId(0)
        &&& self.schedule == ScheduleId(0)
        &&& self.aliases@.len() == 0
        &&& self.province is None
        &&& self.municipality is None
    }

    pub fn from_name(name: String) -> (r: Area)
        ensures
            r.name@ == name@,
            r.is_name_only(),
    {
        Area {
            name,
            id: AreaId(0),
            schedule: ScheduleId(0),
            aliases: Vec::new(),
            province: None,
            municipality: None,
        }
    }
}

/// One row of a schedule that repeats every `period_of_cycle` days.
#[derive(Debug)]
pub struct RawPeriodicShedding {
    /// When loadshedding starts, as `HH:MM`.
    pub start_time: String,
    /// When loadshedding finishes, as `HH:MM`.
    pub finsh_time: String,
    pub stage: u8,
    /// The day of the cycle, the first day being 1.
    pub day_of_cycle: u8,
    pub period_of_cycle: u8,
    /// The date of the first day of the first cycle, as `YYYY-MM-DD`.
    pub start_of_cycle: String,
}

/// One row of a schedule that repeats every week.
#[derive(Debug)]
pub struct RawWeeklyShedding {
    pub start_time: String,
    pub finsh_time: String,
    pub stage: u8,
    /// The day of the week, Monday being 1.
    pub day_of_week: u8,
}

/// One row of a schedule that repeats every month.
#[derive(Debug)]
pub struct RawMonthlyShedding {
    pub start_time: String,
    pub finsh_time: String,
    pub stage: u8,
    pub date_of_month: u8,
}

/// One row of a schedule, in the layout that the header row selected.
#[derive(Debug)]
pub enum RawShedding {
    Weekly(RawWeeklyShedding),
    Monthly(RawMonthlyShedding),
    Periodic(RawPeriodicShedding),
}

/// A time span during which the power will be out in an area.
#[derive(Debug)]
pub struct PowerOutage {
    pub area_name: String,
    pub stage: u8,
    pub start: Timestamp,
    pub finsh: Timestamp,
    /// Where this information came from.
    pub source: String,
}

/// The mathematical content of a `PowerOutage`.
pub struct OutageRecord {
    pub area_name: Seq<char>,
    pub stage: u8,
    pub start: Timestamp,
    pub finsh: Timestamp,
    pub source: Seq<char>,
}

impl View for PowerOutage {
    type V = OutageRecord;

    open spec fn view(&self) -> OutageRecord {
        OutageRecord {
            area_name: self.area_name@,
            stage: self.stage,
            start: self.start,
            finsh: self.finsh,
            source: self.source@,
        }
    }
}

impl PowerOutage {
    /// Both ends are valid instants.
    pub open spec fn wf(&self) -> bool {
        self.start.wf() && self.finsh.wf()
    }

    pub fn duplicate(&self) -> (r: PowerOutage)
        ensures
            r@ == self@,
    {
        PowerOutage {
            area_name: self.area_name.clone(),
            stage: self.stage,
            start: self.start,
            finsh: self.finsh,
            source: self.source.clone(),
        }
    }
}

/// The records of a sequence of outages.
pub open spec fn records(s: Seq<PowerOutage>) -> Seq<OutageRecord> {
    s.map_values(|o: PowerOutage| o@)
}

/// Something that was searched for, with how well it matched: higher is better.
///
/// Results compare by `score` alone.
#[derive(Debug)]
pub struct SearchResult<T> {
    pub score: i64,
    pub result: T,
}

impl<T> PartialEq for SearchResult<T> {
    fn eq(&self, other: &Self) -> (r: bool) {
        self.score == other.score
    }
}

impl<T> vstd::std_specs::cmp::PartialEqSpecImpl for SearchResult<T> {
    open spec fn obeys_eq_spec() -> bool {
        true
    }

    open spec fn eq_spec(&self, other: &SearchResult<T>) -> bool {
        self.score == other.score
    }
}

impl<T> Eq for SearchResult<T> {

}

impl<T> PartialOrd for SearchResult<T> {
    fn partial_cmp(&self, other: &Self) -> (r: Option<core::cmp::Ordering>) {
        if self.score < other.score {
            Some(core::cmp::Ordering::Less)
        } else if self.score == other.score {
            Some(core::cmp::Ordering::Equal)
        } else {
            Some(core::cmp::Ordering::Greater)
        }
    }
}

impl<T> vstd::std_specs::cmp::PartialOrdSpecImpl for SearchResult<T> {
    open spec fn obeys_partial_cmp_spec() -> bool {
        true
    }

    open spec fn partial_cmp_spec(&self, other: &SearchResult<T>) -> Option<core::cmp::Ordering> {
        if self.score < other.score {
            Some(core::cmp::Ordering::Less)
        } else if self.score == other.score {
            Some(core::cmp::Ordering::Equal)
        } else {
            Some(core::cmp::Ordering::Greater)
        }
    }
}

} // verus!
