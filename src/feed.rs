//! Decoding the outage feed and the records of schedule feeds.
use vstd::prelude::*;

use crate::calendar::{parse_timestamp, parsed_timestamp};
use crate::recurrence::{monthly_outcome, periodic_outcome, shedding_outcome, weekly_outcome};
use crate::structs::{
    Column, Errors, RecurringSchedule, OutageRecord, PowerOutage, RawMonthlyShedding, RawPeriodicShedding,
    RawShedding, RawWeeklyShedding, RecurringOutage, Timestamp,
    records,
};
use crate::table::{CsvTable, csv_table_of, field, field_of, has_column, has_header, read_csv};
use crate::text::{parse_u8_field, u8_field_of};

verus! {

// ---------------------------------------------------------------------------------------------
// Fields
// ---------------------------------------------------------------------------------------------

/// A text field.
pub open spec fn text_field(header: Seq<Seq<char>>, row: Seq<Seq<char>>, c: Column) -> Result<
    Seq<char>,
    Errors,
> {
    match field_of(header, row, c) {
        Some(f) => Ok(f),
        None => Err(Errors::MissingColumn(c)),
    }
}

/// A byte-sized number field.
pub open spec fn u8_field(header: Seq<Seq<char>>, row: Seq<Seq<char>>, c: Column) -> Result<
    u8,
    Errors,
> {
    match field_of(header, row, c) {
        Some(f) => match u8_field_of(f) {
            Some(v) => Ok(v),
            None => Err(Errors::BadField(c)),
        },
        None => Err(Errors::MissingColumn(c)),
    }
}

/// An RFC 3339 instant field.
pub open spec fn timestamp_field(header: Seq<Seq<char>>, row: Seq<Seq<char>>, c: Column) -> Result<
    Timestamp,
    Errors,
> {
    match field_of(header, row, c) {
        Some(f) => match parsed_timestamp(f) {
            Some(t) => Ok(t),
            None => Err(Errors::BadField(c)),
        },
        None => Err(Errors::MissingColumn(c)),
    }
}

fn read_text(table: &CsvTable, row: usize, c: Column) -> (r: Result<String, Errors>)
    requires
        row < table.rows@.len(),
    ensures
        match r {
            Ok(s) => text_field(table@.0, table@.1[row as int], c) == Ok::<Seq<char>, Errors>(s@),
            Err(e) => text_field(table@.0, table@.1[row as int], c) == Err::<Seq<char>, Errors>(e),
        },
{
    match field(table, row, c) {
        Some(f) => Ok(f.clone()),
        None => Err(Errors::MissingColumn(c)),
    }
}

fn read_u8(table: &CsvTable, row: usize, c: Column) -> (r: Result<u8, Errors>)
    requires
        row < table.rows@.len(),
    ensures
        r == u8_field(table@.0, table@.1[row as int], c),
{
    match field(table, row, c) {
        Some(f) => match parse_u8_field(f.as_str()) {
            Some(v) => Ok(v),
            None => Err(Errors::BadField(c)),
        },
        None => Err(Errors::MissingColumn(c)),
    }
}

fn read_timestamp(table: &CsvTable, row: usize, c: Column) -> (r: Result<Timestamp, Errors>)
    requires
        row < table.rows@.len(),
    ensures
        r == timestamp_field(table@.0, table@.1[row as int], c),
        r matches Ok(t) ==> t.wf(),
{
    match field(table, row, c) {
        Some(f) => match parse_timestamp(f.as_str()) {
            Some(t) => Ok(t),
            None => Err(Errors::BadField(c)),
        },
        None => Err(Errors::MissingColumn(c)),
    }
}

// ---------------------------------------------------------------------------------------------
// The outage feed
// ---------------------------------------------------------------------------------------------

/// One record of the outage feed; the columns are read in the order of the fields of
/// `PowerOutage`, and the first that is missing or malformed is the error.
pub open spec fn outage_of_row(header: Seq<Seq<char>>, row: Seq<Seq<char>>) -> Result<
    OutageRecord,
    Errors,
> {
    match text_field(header, row, Column::AreaName) {
        Err(e) => Err(e),
        Ok(area_name) => match u8_field(header, row, Column::Stage) {
            Err(e) => Err(e),
            Ok(stage) => match timestamp_field(header, row, Column::Start) {
                Err(e) => Err(e),
                Ok(start) => match timestamp_field(header, row, Column::Finsh) {
                    Err(e) => Err(e),
                    Ok(finsh) => match text_field(header, row, Column::Source) {
                        Err(e) => Err(e),
                        Ok(source) => Ok(OutageRecord { area_name, stage, start, finsh, source }),
                    },
                },
            },
        },
    }
}

/// All records of the outage feed, or the error of the first record that fails.
pub open spec fn outages_of_rows(header: Seq<Seq<char>>, rows: Seq<Seq<Seq<char>>>) -> Result<
    Seq<OutageRecord>,
    Errors,
>
    decreases rows.len(),
{
    if rows.len() == 0 {
        Ok(Seq::empty())
    } else {
        match outages_of_rows(header, rows.drop_last()) {
            Err(e) => Err(e),
            Ok(prev) => match outage_of_row(header, rows.last()) {
                Ok(o) => Ok(prev.push(o)),
                Err(e) => Err(e),
            },
        }
    }
}

/// What the outage feed `text` decodes to.
pub open spec fn feed_outcome(text: Seq<char>) -> Result<Seq<OutageRecord>, Errors> {
    match csv_table_of(text) {
        None => Err(Errors::MalformedCsv),
        Some(t) => outages_of_rows(t.0, t.1),
    }
}

fn outage_from_row(table: &CsvTable, row: usize) -> (r: Result<PowerOutage, Errors>)
    requires
        row < table.rows@.len(),
    ensures
        match r {
            Ok(o) => outage_of_row(table@.0, table@.1[row as int]) == Ok::<OutageRecord, Errors>(o@),
            Err(e) => outage_of_row(table@.0, table@.1[row as int]) == Err::<OutageRecord, Errors>(e),
        },
        r matches Ok(o) ==> o.wf(),
{
    let area_name = read_text(table, row, Column::AreaName)?;
    let stage = read_u8(table, row, Column::Stage)?;
    let start = read_timestamp(table, row, Column::Start)?;
    let finsh = read_timestamp(table, row, Column::Finsh)?;
    let source = read_text(table, row, Column::Source)?;
    Ok(PowerOutage { area_name, stage, start, finsh, source })
}

/// Decodes the records of the outage feed, whose header row names the columns `area_name`,
/// `stage`, `start`, `finsh` and `source`. Any malformed record fails the whole feed.
pub fn outages_from_table(table: &CsvTable) -> (r: Result<Vec<PowerOutage>, Errors>)
    ensures
        match r {
            Ok(v) => outages_of_rows(table@.0, table@.1) == Ok::<Seq<OutageRecord>, Errors>(
                records(v@),
            ),
            Err(e) => outages_of_rows(table@.0, table@.1) == Err::<Seq<OutageRecord>, Errors>(e),
        },
        r matches Ok(v) ==> forall|i: int| 0 <= i < v@.len() ==> (#[trigger] v@[i]).wf(),
{
    let ghost header = table@.0;
    let ghost rows = table@.1;
    let mut out: Vec<PowerOutage> = Vec::new();
    let mut i: usize = 0;
    assert(records(out@) =~= Seq::<OutageRecord>::empty());
    assert(rows.subrange(0, 0) =~= Seq::<Seq<Seq<char>>>::empty());
    while i < table.rows.len()
        invariant
            i <= rows.len(),
            table@.0 == header,
            table@.1 == rows,
            rows.len() == table.rows@.len(),
            outages_of_rows(header, rows.subrange(0, i as int)) == Ok::<Seq<OutageRecord>, Errors>(
                records(out@),
            ),
            forall|j: int| 0 <= j < out@.len() ==> (#[trigger] out@[j]).wf(),
        decreases rows.len() - i,
    {
        let ghost prefix = rows.subrange(0, i as int + 1);
        assert(prefix.drop_last() =~= rows.subrange(0, i as int));
        assert(prefix.last() == rows[i as int]);
        match outage_from_row(table, i) {
            Ok(o) => {
                let ghost before = records(out@);
                out.push(o);
                assert(records(out@) =~= before.push(o@));
                assert(outages_of_rows(header, prefix) == Ok::<Seq<OutageRecord>, Errors>(
                    before.push(o@),
                ));
            },
            Err(e) => {
                proof {
                    lemma_outages_prefix_error(header, rows, i as int + 1);
                }
                return Err(e);
            },
        }
        i = i + 1;
    }
    assert(rows.subrange(0, i as int) =~= rows);
    Ok(out)
}

/// Decodes the outage feed: a CSV text whose header row names the columns `area_name`,
/// `stage`, `start`, `finsh` and `source`.
pub fn parse_outages(text: &str) -> (r: Result<Vec<PowerOutage>, Errors>)
    ensures
        match r {
            Ok(v) => feed_outcome(text@) == Ok::<Seq<OutageRecord>, Errors>(records(v@)),
            Err(e) => feed_outcome(text@) == Err::<Seq<OutageRecord>, Errors>(e),
        },
        r matches Ok(v) ==> forall|i: int| 0 <= i < v@.len() ==> (#[trigger] v@[i]).wf(),
{
    match read_csv(text) {
        Ok(table) => outages_from_table(&table),
        Err(_) => Err(Errors::MalformedCsv),
    }
}

proof fn lemma_outages_prefix_error(header: Seq<Seq<char>>, rows: Seq<Seq<Seq<char>>>, k: int)
    requires
        0 <= k <= rows.len(),
        outages_of_rows(header, rows.subrange(0, k)) is Err,
    ensures
        outages_of_rows(header, rows) == outages_of_rows(header, rows.subrange(0, k)),
    decreases rows.len() - k,
{
    if k < rows.len() {
        let next = rows.subrange(0, k + 1);
        assert(next.drop_last() =~= rows.subrange(0, k));
        lemma_outages_prefix_error(header, rows, k + 1);
    } else {
        assert(rows.subrange(0, k) =~= rows);
    }
}

// ---------------------------------------------------------------------------------------------
// Schedule feeds
// ---------------------------------------------------------------------------------------------

/// The three layouts of a schedule feed, told apart by their header rows.
#[derive(Debug, Clone, Copy, PartialEq, Eq, Structural)]
pub enum ScheduleLayout {
    Monthly,
    Weekly,
    Periodic,
}

/// The layout that a header row selects: the first of `date_of_month`, `day_of_week` and
/// `day_of_20_day_cycle` that it has.
pub open spec fn layout_of(header: Seq<Seq<char>>) -> Option<ScheduleLayout> {
    if has_column(header, "date_of_month"@) {
        Some(ScheduleLayout::Monthly)
    } else if has_column(header, "day_of_week"@) {
        Some(ScheduleLayout::Weekly)
    } else if has_column(header, "day_of_20_day_cycle"@) {
        Some(ScheduleLayout::Periodic)
    } else {
        None
    }
}

/// Picks the layout of a schedule from its header row.
pub fn detect_layout(header: &Vec<String>) -> (r: Option<ScheduleLayout>)
    ensures
        r == layout_of(header.deep_view()),
{
    if has_header(header, "date_of_month") {
        Some(ScheduleLayout::Monthly)
    } else if has_header(header, "day_of_week") {
        Some(ScheduleLayout::Weekly)
    } else if has_header(header, "day_of_20_day_cycle") {
        Some(ScheduleLayout::Periodic)
    } else {
        None
    }
}

/// One record of a schedule: its fields are read in the order of the raw row's fields (the
/// first that is missing or malformed is the error), then the row is normalized.
pub open spec fn schedule_row_outcome(
    layout: ScheduleLayout,
    header: Seq<Seq<char>>,
    row: Seq<Seq<char>>,
) -> Result<RecurringOutage, Errors> {
    match text_field(header, row, Column::StartTime) {
        Err(e) => Err(e),
        Ok(start) => match text_field(header, row, Column::FinshTime) {
            Err(e) => Err(e),
            Ok(finsh) => match u8_field(header, row, Column::Stage) {
                Err(e) => Err(e),
                Ok(stage) => match layout {
                    ScheduleLayout::Monthly => match u8_field(header, row, Column::DateOfMonth) {
                        Err(e) => Err(e),
                        Ok(day) => monthly_outcome(start, finsh, stage, day),
                    },
                    ScheduleLayout::Weekly => match u8_field(header, row, Column::DayOfWeek) {
                        Err(e) => Err(e),
                        Ok(day) => weekly_outcome(start, finsh, stage, day),
                    },
                    ScheduleLayout::Periodic => match u8_field(header, row, Column::DayOfCycle) {
                        Err(e) => Err(e),
                        Ok(day) => match u8_field(header, row, Column::PeriodOfCycle) {
                            Err(e) => Err(e),
                            Ok(period) => match text_field(header, row, Column::StartOfCycle) {
                                Err(e) => Err(e),
                                Ok(first) => periodic_outcome(start, finsh, stage, day, period, first),
                            },
                        },
                    },
                },
            },
        },
    }
}

/// All records of a schedule, or the error of the first record that fails.
pub open spec fn schedule_rows_outcome(
    layout: ScheduleLayout,
    header: Seq<Seq<char>>,
    rows: Seq<Seq<Seq<char>>>,
) -> Result<Seq<RecurringOutage>, Errors>
    decreases rows.len(),
{
    if rows.len() == 0 {
        Ok(Seq::empty())
    } else {
        match schedule_rows_outcome(layout, header, rows.drop_last()) {
            Err(e) => Err(e),
            Ok(prev) => match schedule_row_outcome(layout, header, rows.last()) {
                Ok(o) => Ok(prev.push(o)),
                Err(e) => Err(e),
            },
        }
    }
}

fn raw_from_row(layout: ScheduleLayout, table: &CsvTable, row: usize) -> (r: Result<
    RawShedding,
    Errors,
>)
    requires
        row < table.rows@.len(),
    ensures
        match r {
            Ok(raw) => shedding_outcome(raw) == schedule_row_outcome(
                layout,
                table@.0,
                table@.1[row as int],
            ),
            Err(e) => schedule_row_outcome(layout, table@.0, table@.1[row as int]) == Err::<
                RecurringOutage,
                Errors,
            >(e),
        },
{
    let start_time = read_text(table, row, Column::StartTime)?;
    let finsh_time = read_text(table, row, Column::FinshTime)?;
    let stage = read_u8(table, row, Column::Stage)?;
    match layout {
        ScheduleLayout::Monthly => {
            let date_of_month = read_u8(table, row, Column::DateOfMonth)?;
            Ok(RawShedding::Monthly(RawMonthlyShedding { start_time, finsh_time, stage, date_of_month }))
        },
        ScheduleLayout::Weekly => {
            let day_of_week = read_u8(table, row, Column::DayOfWeek)?;
            Ok(RawShedding::Weekly(RawWeeklyShedding { start_time, finsh_time, stage, day_of_week }))
        },
        ScheduleLayout::Periodic => {
            let day_of_cycle = read_u8(table, row, Column::DayOfCycle)?;
            let period_of_cycle = read_u8(table, row, Column::PeriodOfCycle)?;
            let start_of_cycle = read_text(table, row, Column::StartOfCycle)?;
            Ok(
                RawShedding::Periodic(
                    RawPeriodicShedding {
                        start_time,
                        finsh_time,
                        stage,
                        day_of_cycle,
                        period_of_cycle,
                        start_of_cycle,
                    },
                ),
            )
        },
    }
}

proof fn lemma_schedule_prefix_error(
    layout: ScheduleLayout,
    header: Seq<Seq<char>>,
    rows: Seq<Seq<Seq<char>>>,
    k: int,
)
    requires
        0 <= k <= rows.len(),
        schedule_rows_outcome(layout, header, rows.subrange(0, k)) is Err,
    ensures
        schedule_rows_outcome(layout, header, rows) == schedule_rows_outcome(
            layout,
            header,
            rows.subrange(0, k),
        ),
    decreases rows.len() - k,
{
    if k < rows.len() {
        let next = rows.subrange(0, k + 1);
        assert(next.drop_last() =~= rows.subrange(0, k));
        lemma_schedule_prefix_error(layout, header, rows, k + 1);
    } else {
        assert(rows.subrange(0, k) =~= rows);
    }
}

/// Decodes and normalizes the records of a schedule feed whose layout is known.
pub fn parse_schedule_rows(layout: ScheduleLayout, table: &CsvTable) -> (r: Result<
    Vec<RecurringOutage>,
    Errors,
>)
    ensures
        match r {
            Ok(v) => schedule_rows_outcome(layout, table@.0, table@.1) == Ok::<
                Seq<RecurringOutage>,
                Errors,
            >(v@),
            Err(e) => schedule_rows_outcome(layout, table@.0, table@.1) == Err::<
                Seq<RecurringOutage>,
                Errors,
            >(e),
        },
        r matches Ok(v) ==> forall|i: int| 0 <= i < v@.len() ==> (#[trigger] v@[i]).wf(),
{
    let ghost header = table@.0;
    let ghost rows = table@.1;
    let mut out: Vec<RecurringOutage> = Vec::new();
    let mut i: usize = 0;
    assert(rows.subrange(0, 0) =~= Seq::<Seq<Seq<char>>>::empty());
    while i < table.rows.len()
        invariant
            i <= rows.len(),
            table@.0 == header,
            table@.1 == rows,
            rows.len() == table.rows@.len(),
            schedule_rows_outcome(layout, header, rows.subrange(0, i as int)) == Ok::<
                Seq<RecurringOutage>,
                Errors,
            >(out@),
            forall|j: int| 0 <= j < out@.len() ==> (#[trigger] out@[j]).wf(),
        decreases rows.len() - i,
    {
        let ghost prefix = rows.subrange(0, i as int + 1);
        assert(prefix.drop_last() =~= rows.subrange(0, i as int));
        assert(prefix.last() == rows[i as int]);
        let outcome = match raw_from_row(layout, table, i) {
            Ok(raw) => raw.normalize(),
            Err(e) => Err(e),
        };
        match outcome {
            Ok(o) => {
                out.push(o);
            },
            Err(e) => {
                proof {
                    lemma_schedule_prefix_error(layout, header, rows, i as int + 1);
                }
                return Err(e);
            },
        }
        i = i + 1;
    }
    assert(rows.subrange(0, i as int) =~= rows);
    Ok(out)
}

/// The recurring schedule that a schedule table describes: the header row selects the
/// layout, and every record is decoded and normalized. Only `outages` is filled in; the other
/// fields keep their defaults.
pub fn schedule_from_table(table: CsvTable) -> (r: Result<RecurringSchedule, Errors>)
    ensures
        match layout_of(table@.0) {
            None => r matches Err(Errors::UnknownHeaders(h)) && h.deep_view() == table@.0,
            Some(layout) => match schedule_rows_outcome(layout, table@.0, table@.1) {
                Ok(outages) => r matches Ok(s) && s.outages@ == outages && s.has_defaults(),
                Err(e) => r == Err::<RecurringSchedule, Errors>(e),
            },
        },
        r matches Ok(s) ==> s.wf(),
{
    let layout = match detect_layout(&table.header) {
        Some(l) => l,
        None => {
            let CsvTable { header, rows: _ } = table;
            return Err(Errors::UnknownHeaders(header));
        },
    };
    let outages = parse_schedule_rows(layout, &table)?;
    Ok(RecurringSchedule::with_outages(outages))
}

} // verus!
