use eskom_calendar_api::api::{Cors, Operation};
use eskom_calendar_api::areas::sort_names;
use eskom_calendar_api::feed::{
    detect_layout, outages_from_table, parse_outages, schedule_from_table, ScheduleLayout,
};
use eskom_calendar_api::table::CsvTable;
use eskom_calendar_api::structs::{
    AreaId, CalendarDate, ClockTime, Column, Errors, PowerOutage, RawMonthlyShedding,
    RawPeriodicShedding, RawShedding, RawWeeklyShedding, Recurrence, RecurringOutage, ScheduleId,
    SearchResult,
};
use eskom_calendar_api::text::{chars_less, parse_u8_field, to_search_form};
use eskom_calendar_api::{latest, v0_0_1};

const FEED: &str = "\
area_name,stage,start,finsh,source
western-cape-stellenbosch,6,2023-06-01T18:00:00+02:00,2023-06-01T20:30:00+02:00,https://example.org/a
city-of-cape-town-area-15,4,2023-06-01T22:00:00+02:00,2023-06-02T00:30:00+02:00,https://example.org/b
western-cape-stellenbosch,2,2023-06-02T10:00:00+02:00,2023-06-02T12:30:00+02:00,https://example.org/c
eastern-cape-gqeberha,3,2023-06-03T08:00:00+02:00,2023-06-03T10:30:00+02:00,https://example.org/d
";

fn feed() -> Vec<PowerOutage> {
    parse_outages(FEED).expect("the sample feed decodes")
}

fn weekly(day: u8, start: &str, finsh: &str, stage: u8) -> RawWeeklyShedding {
    RawWeeklyShedding {
        start_time: start.to_string(),
        finsh_time: finsh.to_string(),
        stage,
        day_of_week: day,
    }
}

#[test]
fn non_empty_all_areas() {
    let list_of_areas = latest::list_all_areas(&feed()).expect("listing all areas succeeds");
    assert!(
        !list_of_areas.is_empty(),
        "All areas length was {} which is not >0",
        list_of_areas.len()
    );
}

#[test]
fn outage_feed_decodes_every_field() {
    let all = feed();
    assert_eq!(all.len(), 4);
    let first = &all[0];
    assert_eq!(first.area_name, "western-cape-stellenbosch");
    assert_eq!(first.stage, 6);
    assert_eq!(first.start.date, CalendarDate { year: 2023, month: 6, day: 1 });
    assert_eq!(first.start.time, ClockTime { hour: 18, minute: 0, second: 0 });
    assert_eq!(first.start.nanosecond, 0);
    assert_eq!(first.start.offset_seconds, 7200);
    assert_eq!(first.finsh.time, ClockTime { hour: 20, minute: 30, second: 0 });
    assert_eq!(first.source, "https://example.org/a");
    assert_eq!(all[1].finsh.date, CalendarDate { year: 2023, month: 6, day: 2 });
}

#[test]
fn outage_feed_empty_text_has_no_outages() {
    assert_eq!(parse_outages("").expect("empty feed decodes").len(), 0);
}

#[test]
fn outage_feed_reads_hex_stage() {
    let text = "area_name,stage,start,finsh,source\na,0x0A,2023-06-01T18:00:00Z,2023-06-01T20:00:00Z,s\n";
    let all = parse_outages(text).expect("hex stage decodes");
    assert_eq!(all[0].stage, 10);
    assert_eq!(all[0].start.offset_seconds, 0);
}

#[test]
fn outage_feed_rejects_bad_stage() {
    let text = "area_name,stage,start,finsh,source\na,high,2023-06-01T18:00:00Z,2023-06-01T20:00:00Z,s\n";
    assert!(matches!(parse_outages(text), Err(Errors::BadField(Column::Stage))));
    let text = "area_name,stage,start,finsh,source\na,256,2023-06-01T18:00:00Z,2023-06-01T20:00:00Z,s\n";
    assert!(matches!(parse_outages(text), Err(Errors::BadField(Column::Stage))));
}

#[test]
fn outage_feed_rejects_bad_timestamp() {
    let text = "area_name,stage,start,finsh,source\na,1,yesterday,2023-06-01T20:00:00Z,s\n";
    assert!(matches!(parse_outages(text), Err(Errors::BadField(Column::Start))));
}

#[test]
fn outage_feed_rejects_missing_column() {
    let text = "area_name,stage,start,finsh\na,1,2023-06-01T18:00:00Z,2023-06-01T20:00:00Z\n";
    assert!(matches!(parse_outages(text), Err(Errors::MissingColumn(Column::Source))));
}

#[test]
fn outage_feed_rejects_ragged_csv() {
    let text = "area_name,stage,start,finsh,source\na,1\n";
    assert!(matches!(parse_outages(text), Err(Errors::MalformedCsv)));
}

#[test]
fn outages_of_present_area() {
    let all = feed();
    let found = v0_0_1::outages(&all, "western-cape-stellenbosch").expect("area is present");
    assert_eq!(found.len(), 2);
    assert!(found.iter().all(|o| o.area_name == "western-cape-stellenbosch"));
    assert_eq!(found[0].stage, 6);
    assert_eq!(found[1].stage, 2);
}

#[test]
fn outages_of_unknown_area_is_not_found() {
    match latest::outages(&feed(), "nowhere") {
        Err(Errors::NotFound(name)) => assert_eq!(name, "nowhere"),
        other => panic!("expected NotFound, got {:?}", other.map(|v| v.len())),
    }
}

#[test]
fn list_all_matches_distinct_sorted_names() {
    let all = feed();
    let everything = v0_0_1::list_areas(&all, ".*").expect("`.*` compiles");
    assert_eq!(
        everything,
        vec![
            "city-of-cape-town-area-15".to_string(),
            "eastern-cape-gqeberha".to_string(),
            "western-cape-stellenbosch".to_string(),
        ]
    );
    assert_eq!(v0_0_1::list_all_areas(&all).unwrap(), everything);
}

#[test]
fn list_areas_filters_by_pattern() {
    let all = feed();
    let west = latest::list_areas(&all, "^western").expect("pattern compiles");
    assert_eq!(west, vec!["western-cape-stellenbosch".to_string()]);
    let cape = latest::list_areas(&all, "cape-(stell|gq)").expect("pattern compiles");
    assert_eq!(
        cape,
        vec!["eastern-cape-gqeberha".to_string(), "western-cape-stellenbosch".to_string()]
    );
    assert!(latest::list_areas(&all, "^zzz").unwrap().is_empty());
}

#[test]
fn list_areas_rejects_invalid_pattern() {
    match v0_0_1::list_areas(&feed(), "(") {
        Err(Errors::InvalidPattern { pattern, reason }) => {
            assert_eq!(pattern, "(");
            assert!(!reason.is_empty());
        }
        other => panic!("expected InvalidPattern, got {:?}", other),
    }
}

#[test]
fn fuzzy_search_finds_stellenbosch() {
    let results = v0_0_1::fuzzy_search(&feed(), "stellenbosch");
    let hit = results
        .iter()
        .find(|r| r.result.name == "western-cape-stellenbosch")
        .expect("stellenbosch is found");
    assert!(hit.score > 0);
    assert_eq!(hit.result.id, AreaId(0));
    assert_eq!(hit.result.schedule, ScheduleId(0));
    assert!(hit.result.aliases.is_empty());
    assert!(hit.result.province.is_none());
    assert!(hit.result.municipality.is_none());
}

#[test]
fn fuzzy_search_unrelated_query_is_empty() {
    assert!(latest::fuzzy_search(&feed(), "zzzqqqxxx").is_empty());
}

#[test]
fn fuzzy_search_ranks_best_first() {
    let results = v0_0_1::fuzzy_search(&feed(), "Cape");
    assert_eq!(results.len(), 3);
    for pair in results.windows(2) {
        assert!(pair[0].score >= pair[1].score);
    }
}

#[test]
fn fuzzy_search_empty_query_scores_every_area_zero() {
    let results = v0_0_1::fuzzy_search(&feed(), "");
    assert_eq!(results.len(), 3);
    assert!(results.iter().all(|r| r.score == 0));
    let names: Vec<&str> = results.iter().map(|r| r.result.name.as_str()).collect();
    assert_eq!(
        names,
        vec!["western-cape-stellenbosch", "city-of-cape-town-area-15", "eastern-cape-gqeberha"]
    );
}

#[test]
fn repeated_calls_give_identical_results() {
    let all = feed();
    assert_eq!(v0_0_1::list_all_areas(&all).unwrap(), v0_0_1::list_all_areas(&all).unwrap());
    let a = v0_0_1::fuzzy_search(&all, "cape");
    let b = v0_0_1::fuzzy_search(&all, "cape");
    assert_eq!(a.len(), b.len());
    for (x, y) in a.iter().zip(b.iter()) {
        assert_eq!(x.score, y.score);
        assert_eq!(x.result.name, y.result.name);
    }
    let o1 = v0_0_1::outages(&all, "eastern-cape-gqeberha").unwrap();
    let o2 = v0_0_1::outages(&all, "eastern-cape-gqeberha").unwrap();
    assert_eq!(o1.len(), o2.len());
    assert_eq!(o1[0].start, o2[0].start);
    assert_eq!(parse_outages(FEED).unwrap().len(), parse_outages(FEED).unwrap().len());
}

#[test]
fn weekly_overnight_window_is_kept() {
    let outage = RecurringOutage::from_weekly(weekly(3, "22:00", "00:30", 4)).expect("valid row");
    assert_eq!(
        outage,
        RecurringOutage {
            start_time: ClockTime { hour: 22, minute: 0, second: 0 },
            finsh_time: ClockTime { hour: 0, minute: 30, second: 0 },
            stage: 4,
            recurrence: Recurrence::Weekly,
            day1_of_recurrence: 3,
        }
    );
}

#[test]
fn weekly_day_out_of_range_is_rejected() {
    assert!(matches!(
        RecurringOutage::from_weekly(weekly(0, "22:00", "00:30", 4)),
        Err(Errors::DayOutOfRange { day: 0, max: 7 })
    ));
    assert!(matches!(
        RecurringOutage::from_weekly(weekly(8, "22:00", "00:30", 4)),
        Err(Errors::DayOutOfRange { day: 8, max: 7 })
    ));
}

#[test]
fn weekly_bad_time_is_rejected() {
    assert!(matches!(
        RecurringOutage::from_weekly(weekly(1, "25:00", "00:30", 4)),
        Err(Errors::BadField(Column::StartTime))
    ));
    assert!(matches!(
        RecurringOutage::from_weekly(weekly(1, "22:00", "noon", 4)),
        Err(Errors::BadField(Column::FinshTime))
    ));
}

#[test]
fn monthly_date_32_is_rejected() {
    let raw = RawMonthlyShedding {
        start_time: "10:00".to_string(),
        finsh_time: "12:30".to_string(),
        stage: 1,
        date_of_month: 32,
    };
    assert!(matches!(
        RecurringOutage::from_monthly(raw),
        Err(Errors::DayOutOfRange { day: 32, max: 31 })
    ));
}

#[test]
fn monthly_row_normalizes() {
    let raw = RawMonthlyShedding {
        start_time: "10:00".to_string(),
        finsh_time: "12:30".to_string(),
        stage: 1,
        date_of_month: 31,
    };
    let outage = RecurringOutage::from_monthly(raw).expect("valid row");
    assert_eq!(outage.recurrence, Recurrence::Monthly);
    assert_eq!(outage.day1_of_recurrence, 31);
    assert_eq!(outage.finsh_time, ClockTime { hour: 12, minute: 30, second: 0 });
}

#[test]
fn periodic_day_beyond_period_is_rejected() {
    let raw = RawPeriodicShedding {
        start_time: "10:00".to_string(),
        finsh_time: "12:30".to_string(),
        stage: 2,
        day_of_cycle: 5,
        period_of_cycle: 3,
        start_of_cycle: "2023-01-01".to_string(),
    };
    assert!(matches!(
        RecurringOutage::from_periodic(raw),
        Err(Errors::DayOutOfRange { day: 5, max: 3 })
    ));
}

#[test]
fn periodic_row_normalizes() {
    let raw = RawPeriodicShedding {
        start_time: "06:00".to_string(),
        finsh_time: "08:30".to_string(),
        stage: 2,
        day_of_cycle: 20,
        period_of_cycle: 20,
        start_of_cycle: "2023-02-18".to_string(),
    };
    let outage = RawShedding::Periodic(raw).normalize().expect("valid row");
    assert_eq!(
        outage.recurrence,
        Recurrence::Periodic { offset: CalendarDate { year: 2023, month: 2, day: 18 }, period_days: 20 }
    );
    assert_eq!(outage.day1_of_recurrence, 20);
}

#[test]
fn periodic_bad_date_is_rejected() {
    let raw = RawPeriodicShedding {
        start_time: "06:00".to_string(),
        finsh_time: "08:30".to_string(),
        stage: 2,
        day_of_cycle: 1,
        period_of_cycle: 20,
        start_of_cycle: "18/02/2023".to_string(),
    };
    assert!(matches!(
        RecurringOutage::from_periodic(raw),
        Err(Errors::BadField(Column::StartOfCycle))
    ));
}

#[test]
fn schedule_with_unknown_headers_names_them() {
    match v0_0_1::schedules("start_time,finsh_time,stage,weekday\n22:00,00:30,4,3\n") {
        Err(Errors::UnknownHeaders(headers)) => assert_eq!(
            headers,
            vec![
                "start_time".to_string(),
                "finsh_time".to_string(),
                "stage".to_string(),
                "weekday".to_string(),
            ]
        ),
        other => panic!("expected UnknownHeaders, got {:?}", other),
    }
}

#[test]
fn weekly_schedule_parses() {
    let text = "day_of_week,start_time,finsh_time,stage\n3,22:00,00:30,4\n1,06:00,08:30,1\n";
    let schedule = latest::schedules(text).expect("schedule decodes");
    assert_eq!(schedule.outages.len(), 2);
    assert_eq!(schedule.outages[0].day1_of_recurrence, 3);
    assert_eq!(schedule.outages[0].recurrence, Recurrence::Weekly);
    assert_eq!(schedule.outages[1].start_time, ClockTime { hour: 6, minute: 0, second: 0 });
    assert_eq!(schedule.id, ScheduleId(0));
    assert!(schedule.source.is_empty() && schedule.info.is_empty());
    assert!(schedule.last_updated.is_none() && schedule.valid_from.is_none());
    assert!(schedule.valid_until.is_none());
}

#[test]
fn monthly_schedule_takes_precedence() {
    let text = "date_of_month,day_of_week,start_time,finsh_time,stage\n15,2,10:00,12:00,5\n";
    let schedule = v0_0_1::schedules(text).expect("schedule decodes");
    assert_eq!(schedule.outages[0].recurrence, Recurrence::Monthly);
    assert_eq!(schedule.outages[0].day1_of_recurrence, 15);
}

#[test]
fn periodic_schedule_parses() {
    let text = "day_of_20_day_cycle,day_of_cycle,period_of_cycle,start_of_cycle,start_time,finsh_time,stage\n\
                4,4,20,2023-02-18,14:00,16:30,3\n";
    let schedule = v0_0_1::schedules(text).expect("schedule decodes");
    assert_eq!(
        schedule.outages[0].recurrence,
        Recurrence::Periodic { offset: CalendarDate { year: 2023, month: 2, day: 18 }, period_days: 20 }
    );
}

#[test]
fn schedule_row_validation_fails_the_schedule() {
    let text = "date_of_month,start_time,finsh_time,stage\n1,10:00,12:00,5\n40,10:00,12:00,5\n";
    assert!(matches!(
        v0_0_1::schedules(text),
        Err(Errors::DayOutOfRange { day: 40, max: 31 })
    ));
}

#[test]
fn schedule_missing_column_is_reported() {
    let text = "day_of_week,start_time,stage\n3,22:00,4\n";
    assert!(matches!(
        v0_0_1::schedules(text),
        Err(Errors::MissingColumn(Column::FinshTime))
    ));
}

#[test]
fn layout_detection() {
    let header = |names: &[&str]| names.iter().map(|n| n.to_string()).collect::<Vec<_>>();
    assert_eq!(detect_layout(&header(&["day_of_week"])), Some(ScheduleLayout::Weekly));
    assert_eq!(detect_layout(&header(&["a", "date_of_month"])), Some(ScheduleLayout::Monthly));
    assert_eq!(detect_layout(&header(&["day_of_20_day_cycle"])), Some(ScheduleLayout::Periodic));
    assert_eq!(detect_layout(&header(&["day"])), None);
}

#[test]
fn byte_fields() {
    assert_eq!(parse_u8_field("0"), Some(0));
    assert_eq!(parse_u8_field("+7"), Some(7));
    assert_eq!(parse_u8_field("255"), Some(255));
    assert_eq!(parse_u8_field("256"), None);
    assert_eq!(parse_u8_field("0xff"), Some(255));
    assert_eq!(parse_u8_field("0xFF"), Some(255));
    assert_eq!(parse_u8_field("0x100"), None);
    assert_eq!(parse_u8_field(""), None);
    assert_eq!(parse_u8_field("+"), None);
    assert_eq!(parse_u8_field("-1"), None);
    assert_eq!(parse_u8_field(" 1"), None);
}

#[test]
fn search_form_of_names() {
    let form: String = to_search_form("Western-Cape_Stellenbosch!é").into_iter().collect();
    assert_eq!(form, "western cape_stellenbosch  ");
}

#[test]
fn character_order() {
    let v = |s: &str| s.chars().collect::<Vec<char>>();
    assert!(chars_less(&v("abc"), &v("abd")));
    assert!(chars_less(&v("ab"), &v("abc")));
    assert!(!chars_less(&v("abc"), &v("abc")));
    assert!(!chars_less(&v("b"), &v("abc")));
    assert!(chars_less(&v("Z"), &v("a")));
}

#[test]
fn search_results_compare_by_score() {
    let a = SearchResult { score: 3, result: "x" };
    let b = SearchResult { score: 3, result: "y" };
    let c = SearchResult { score: 5, result: "x" };
    assert!(a == b);
    assert!(a < c);
    assert!(c > b);
}

#[test]
fn namespaces_offer_the_same_operations() {
    let pinned = v0_0_1::routes();
    assert_eq!(pinned, latest::routes());
    let paths: Vec<&str> = pinned.iter().map(|op| op.path()).collect();
    assert_eq!(
        paths,
        vec![
            "/fuzzy_search/<query>",
            "/list_areas",
            "/list_areas/<regex>",
            "/outages/<area_name>",
            "/schedules/<area_name>",
        ]
    );
    assert_eq!(pinned[0], Operation::FuzzySearch);
}

#[test]
fn cors_headers() {
    let headers = Cors.headers();
    assert_eq!(headers.len(), 4);
    assert_eq!(headers[0], ("Access-Control-Allow-Origin", "*"));
    assert_eq!(
        headers[1],
        ("Access-Control-Allow-Methods", "POST, PATCH, PUT, DELETE, HEAD, OPTIONS, GET")
    );
    assert_eq!(headers[3], ("Access-Control-Allow-Credentials", "true"));
    assert_eq!(Cors.name(), "Cross-Origin-Resource-Sharing Fairing");
}

fn table(header: &[&str], rows: &[&[&str]]) -> CsvTable {
    CsvTable {
        header: header.iter().map(|h| h.to_string()).collect(),
        rows: rows.iter().map(|r| r.iter().map(|f| f.to_string()).collect()).collect(),
    }
}

#[test]
fn ranking_is_descending_and_keeps_ties_in_order() {
    let ranked = v0_0_1::rank_by_score(vec![
        (10, "b".to_string()),
        (30, "a".to_string()),
        (10, "c".to_string()),
        (-5, "d".to_string()),
        (30, "e".to_string()),
    ]);
    let got: Vec<(i64, &str)> = ranked.iter().map(|r| (r.score, r.result.name.as_str())).collect();
    assert_eq!(got, vec![(30, "a"), (30, "e"), (10, "b"), (10, "c"), (-5, "d")]);
    assert!(ranked.iter().all(|r| r.result.aliases.is_empty() && r.result.id == AreaId(0)));
    assert!(v0_0_1::rank_by_score(vec![]).is_empty());
}

#[test]
fn names_sort_by_code_point() {
    let sorted = sort_names(vec![
        "b".to_string(),
        "Z".to_string(),
        "a".to_string(),
        "ab".to_string(),
        "é".to_string(),
    ]);
    assert_eq!(sorted, vec!["Z", "a", "ab", "b", "é"]);
}

#[test]
fn outage_table_columns_may_come_in_any_order() {
    let t = table(
        &["source", "finsh", "start", "stage", "area_name", "extra"],
        &[&["s", "2023-06-01T20:00:00+02:00", "2023-06-01T18:00:00+02:00", "7", "here", "x"]],
    );
    let all = outages_from_table(&t).expect("table decodes");
    assert_eq!(all.len(), 1);
    assert_eq!(all[0].area_name, "here");
    assert_eq!(all[0].stage, 7);
    assert_eq!(all[0].source, "s");
    assert_eq!(all[0].finsh.time, ClockTime { hour: 20, minute: 0, second: 0 });
}

#[test]
fn outage_table_first_bad_record_is_the_error() {
    let t = table(
        &["area_name", "stage", "start", "finsh", "source"],
        &[
            &["a", "1", "2023-06-01T18:00:00Z", "2023-06-01T20:00:00Z", "s"],
            &["b", "1", "2023-06-01T18:00:00Z", "later", "s"],
            &["c", "x", "2023-06-01T18:00:00Z", "2023-06-01T20:00:00Z", "s"],
        ],
    );
    assert!(matches!(outages_from_table(&t), Err(Errors::BadField(Column::Finsh))));
}

#[test]
fn schedule_table_without_layout_names_headers() {
    let t = table(&["a", "b"], &[]);
    match schedule_from_table(t) {
        Err(Errors::UnknownHeaders(h)) => assert_eq!(h, vec!["a".to_string(), "b".to_string()]),
        other => panic!("expected UnknownHeaders, got {:?}", other),
    }
}

#[test]
fn schedule_table_with_no_records_is_empty() {
    let t = table(&["day_of_week", "start_time", "finsh_time", "stage"], &[]);
    let schedule = schedule_from_table(t).expect("no records to fail");
    assert!(schedule.outages.is_empty());
}

#[test]
fn periodic_day_zero_is_rejected() {
    let raw = RawPeriodicShedding {
        start_time: "10:00".to_string(),
        finsh_time: "12:30".to_string(),
        stage: 2,
        day_of_cycle: 0,
        period_of_cycle: 20,
        start_of_cycle: "2023-01-01".to_string(),
    };
    assert!(matches!(
        RecurringOutage::from_periodic(raw),
        Err(Errors::DayOutOfRange { day: 0, max: 20 })
    ));
}

#[test]
fn failed_listings_give_the_same_reason() {
    let all = feed();
    let reason = |r: Result<Vec<String>, Errors>| match r {
        Err(Errors::InvalidPattern { reason, .. }) => reason,
        other => panic!("expected InvalidPattern, got {:?}", other),
    };
    let first = reason(v0_0_1::list_areas(&all, "(ab"));
    let second = reason(v0_0_1::list_areas(&all, "(ab"));
    assert_eq!(first, second);
    assert!(first.contains("unclosed"), "reason was {first}");
}

#[test]
fn fuzzy_search_matches_letters_in_order_ignoring_case() {
    let all = feed();
    let names = |q: &str| {
        v0_0_1::fuzzy_search(&all, q).into_iter().map(|r| r.result.name).collect::<Vec<_>>()
    };
    let gq = names("GQeberha");
    assert_eq!(gq, vec!["eastern-cape-gqeberha".to_string()]);
    assert!(names("ahrebeqg").is_empty());
}
