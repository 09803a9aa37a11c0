use two_timer::{
    first_moment, last_moment, parsable, parse, resolve, Config, Instant, TimeError, TimeExpr,
};
use two_timer::ast::{
    AdverbDay, FragmentAst, MomentAst, PointAst, SomeDayAst,
};

#[test]
fn universal_ignores_configuration() {
    let odd_now = Instant::from_ymd(-44, 3, 15).unwrap();
    let config = Config::new()
        .now(odd_now)
        .monday_starts_week(false)
        .pay_period_length(3)
        .pay_period_start(Some(Instant::from_ymd(1968, 5, 5).unwrap()))
        .default_to_past(false);
    let (start, end, range) = parse("always", Some(config)).unwrap();
    assert_eq!(start, first_moment());
    assert_eq!(end, last_moment());
    assert!(!range);
}

#[test]
fn universal_tree_resolves_directly() {
    let config = Config::new().now(Instant::from_ymd(2020, 2, 2).unwrap());
    let (start, end, range) = resolve(&TimeExpr::Universal, &config).unwrap();
    assert_eq!(start, first_moment());
    assert_eq!(end, last_moment());
    assert!(!range);
}

#[test]
fn adverb_tree_resolves_directly() {
    let now = Instant::from_ymd(1969, 5, 6).unwrap().with_hms(14, 0, 0).unwrap();
    let config = Config::new().now(now);
    let tree = TimeExpr::One(FragmentAst::Moment(MomentAst {
        adjustment: None,
        point: PointAst::DayPoint {
            time_on: None,
            day: SomeDayAst::Adverb(AdverbDay::Today),
            time_at: None,
        },
    }));
    let (start, end, range) = resolve(&tree, &config).unwrap();
    assert_eq!(start, Instant::from_ymd(1969, 5, 6).unwrap());
    assert_eq!(end, Instant::from_ymd(1969, 5, 7).unwrap());
    assert!(!range);
}

#[test]
fn leap_day_valid_in_leap_year() {
    let (start, end, _) = parse("2020-02-29", None).unwrap();
    assert_eq!(start, Instant::from_ymd(2020, 2, 29).unwrap());
    assert_eq!(end, Instant::from_ymd(2020, 3, 1).unwrap());
}

#[test]
fn leap_day_rejected_in_common_year() {
    match parse("2019-02-29", None) {
        Err(TimeError::ImpossibleDate(_)) => {}
        other => panic!("unexpected result: {:?}", other),
    }
}

#[test]
fn short_year_eleven_in_twenty_ten() {
    let now = Instant::from_ymd(2010, 6, 1).unwrap();
    let config = Config::new().now(now).default_to_past(true);
    let (start, _, _) = parse("May 6, '11", Some(config)).unwrap();
    assert_eq!(start, Instant::from_ymd(1911, 5, 6).unwrap());
}

#[test]
fn short_year_sixty_nine_past_and_future() {
    let now = Instant::from_ymd(2020, 6, 1).unwrap();
    let past = Config::new().now(now).default_to_past(true);
    let (start, _, _) = parse("May 6, '69", Some(past)).unwrap();
    assert_eq!(start, Instant::from_ymd(1969, 5, 6).unwrap());
    let future = Config::new().now(now).default_to_past(false);
    let (start, _, _) = parse("May 6, '69", Some(future)).unwrap();
    assert_eq!(start, Instant::from_ymd(2069, 5, 6).unwrap());
}

#[test]
fn explicit_ranges_are_ordered_or_rejected() {
    let pairs = [
        ("1969-05-06", "1969-05-09"),
        ("1969-05-09", "1969-05-06"),
        ("2014-10-06 08:57:29", "1969-05-06"),
        ("44 BC", "2020"),
        ("2020", "44 BC"),
        ("May 6, 1969", "May 6, 1969"),
    ];
    for (a, b) in pairs.iter() {
        let phrase = format!("{} to {}", a, b);
        match parse(&phrase, None) {
            Ok((start, end, range)) => {
                assert!(range, "{} should be a literal range", phrase);
                assert!(start.le(end), "{} gave a misordered interval", phrase);
            }
            Err(TimeError::Misordered(_)) => {}
            Err(e) => panic!("unexpected error for {}: {:?}", phrase, e),
        }
    }
}

#[test]
fn monday_to_friday_excludes_friday() {
    let now = Instant::from_ymd(1969, 5, 6).unwrap();
    let (start, end, _) = parse("Monday to Friday", Some(Config::new().now(now))).unwrap();
    assert_eq!(start, Instant::from_ymd(1969, 5, 5).unwrap());
    assert_eq!(end, Instant::from_ymd(1969, 5, 9).unwrap());
}

#[test]
fn pay_period_tiling_examples() {
    let config = Config::new()
        .pay_period_start(Some(Instant::from_ymd(1968, 5, 5).unwrap()))
        .pay_period_length(14)
        .now(Instant::from_ymd(1969, 5, 6).unwrap());
    let (s1, e1, _) = parse("this pay period", Some(config)).unwrap();
    assert_eq!(s1, Instant::from_ymd(1969, 5, 4).unwrap());
    assert_eq!(e1, Instant::from_ymd(1969, 5, 18).unwrap());
    let (s2, e2, _) = parse("next pay period", Some(config)).unwrap();
    assert_eq!(s2, e1);
    assert_eq!(e2, Instant::from_ymd(1969, 6, 1).unwrap());
    let (s3, e3, _) = parse("last pay period", Some(config)).unwrap();
    assert_eq!(e3, s1);
    assert_eq!(s3, Instant::from_ymd(1969, 4, 20).unwrap());
}

#[test]
fn same_phrase_and_configuration_twice() {
    let config = Config::new()
        .now(Instant::from_ymd(1969, 5, 6).unwrap())
        .default_to_past(true);
    for phrase in ["last Friday", "3 PM", "May", "Monday through Friday", "since yesterday"]
        .iter()
    {
        let a = parse(phrase, Some(config)).unwrap();
        let b = parse(phrase, Some(config)).unwrap();
        assert_eq!(a, b);
    }
}

#[test]
fn each_error_kind_is_reachable() {
    match parse("completely untimely words", None) {
        Err(TimeError::Parse(m)) => assert!(!m.is_empty()),
        other => panic!("unexpected result: {:?}", other),
    }
    match parse("1969-05-09 to 1969-05-06", None) {
        Err(TimeError::Misordered(m)) => assert!(!m.is_empty()),
        other => panic!("unexpected result: {:?}", other),
    }
    match parse("September 31, 1969", None) {
        Err(TimeError::ImpossibleDate(m)) => assert!(!m.is_empty()),
        other => panic!("unexpected result: {:?}", other),
    }
    match parse("Wednesday, May 6, 1969", None) {
        Err(TimeError::Weekday(m)) => assert!(!m.is_empty()),
        other => panic!("unexpected result: {:?}", other),
    }
    match parse("this pay period", Some(Config::new().now(Instant::from_ymd(1969, 5, 6).unwrap())))
    {
        Err(TimeError::NoPayPeriod(m)) => assert!(!m.is_empty()),
        other => panic!("unexpected result: {:?}", other),
    }
}

#[test]
fn error_messages_are_readable() {
    let e = parse("not a time", None).unwrap_err();
    assert!(!e.msg().is_empty());
    // the parse error names the phrase it rejects
    assert!(e.msg().contains("not a time"));
}

#[test]
fn bce_year_of_the_ides() {
    let (start, end, _) = parse("March 15, 44 BC", None).unwrap();
    assert_eq!(start, Instant::from_ymd(-43, 3, 15).unwrap());
    assert_eq!(end, Instant::from_ymd(-43, 3, 16).unwrap());
}

#[test]
fn calendar_edges_are_dates() {
    assert!(Instant::from_ymd(-262144, 1, 1).is_some());
    assert!(Instant::from_ymd(262143, 12, 31).is_some());
    assert!(Instant::from_ymd(-262145, 12, 31).is_none());
    assert!(Instant::from_ymd(262144, 1, 1).is_none());
    assert_eq!(Instant::from_ymd(-262144, 1, 1).unwrap(), first_moment());
}

#[test]
fn instants_saturate_at_the_edges() {
    let early = first_moment().add_days(-5);
    assert_eq!(early, first_moment());
    let late = last_moment().add_days(5);
    assert_eq!(late, last_moment());
}

#[test]
fn since_terminus_selection() {
    let then = Instant::from_ymd(1969, 5, 1).unwrap();
    let now = then.add_hours(5);
    let config = Config::new().now(now);
    // "since the beginning of may" is inclusive: starts at May 1.
    let (start, end, _) = parse("since the beginning of may", Some(config)).unwrap();
    assert_eq!(start, then);
    assert_eq!(end, now);
    // "since the end of may" is explicitly exclusive and misordered here.
    match parse("since the end of may", Some(config)) {
        Err(TimeError::Misordered(_)) => {}
        other => panic!("unexpected result: {:?}", other),
    }
}

#[test]
fn bare_short_year_resolves_to_a_whole_year() {
    let config = Config::new().now(Instant::from_ymd(2010, 6, 1).unwrap());
    let (start, end, _) = parse("'11", Some(config)).unwrap();
    assert_eq!(start, Instant::from_ymd(1911, 1, 1).unwrap());
    assert_eq!(end, Instant::from_ymd(1912, 1, 1).unwrap());
    let now = Instant::from_ymd(2020, 6, 1).unwrap();
    let (start, _, _) = parse("'69", Some(Config::new().now(now))).unwrap();
    assert_eq!(start, Instant::from_ymd(1969, 1, 1).unwrap());
    let (start, _, _) =
        parse("'69", Some(Config::new().now(now).default_to_past(false))).unwrap();
    assert_eq!(start, Instant::from_ymd(2069, 1, 1).unwrap());
}

#[test]
fn weekday_checked_date_with_clock_time() {
    let (start, end, _) = parse("Tuesday, May 6, 1969 at 3:52 AM", None).unwrap();
    let then = Instant::from_ymd(1969, 5, 6).unwrap().with_hms(3, 52, 0).unwrap();
    assert_eq!(start, then);
    assert_eq!(end, then.add_seconds(1));
}

#[test]
fn minutes_before_and_after_midnight() {
    let now = Instant::from_ymd(2019, 2, 3).unwrap().with_hms(14, 40, 0).unwrap();
    let config = Config::new().now(now);
    let (start, end, _) = parse("five minutes before and after midnight", Some(config)).unwrap();
    assert_eq!(
        start,
        Instant::from_ymd(2019, 2, 2).unwrap().with_hms(23, 55, 0).unwrap()
    );
    assert_eq!(
        end,
        Instant::from_ymd(2019, 2, 3).unwrap().with_hms(0, 5, 0).unwrap()
    );
}

#[test]
fn same_day_terminus_is_the_near_side() {
    // A through-class range whose final interval starts and ends on one
    // calendar day ends at that interval's near side: exactly the clock
    // time, not the end of its second.
    let now = Instant::from_ymd(1969, 5, 6).unwrap();
    let (_, end, _) = parse(
        "Tuesday through 3 PM on Friday",
        Some(Config::new().now(now)),
    )
    .unwrap();
    assert_eq!(
        end,
        Instant::from_ymd(1969, 5, 2).unwrap().with_hms(15, 0, 0).unwrap()
    );
    // Across different calendar days the far side still wins.
    let (_, end, _) = parse("Monday through Friday", Some(Config::new().now(now))).unwrap();
    assert_eq!(end, Instant::from_ymd(1969, 5, 10).unwrap());
}

#[test]
fn weekday_after_anchor_is_strictly_after() {
    // 1969-05-08 was a Thursday; "Thursday" resolved toward the future
    // must be the next Thursday, a full week away, never the anchor's
    // own day.
    let now = Instant::from_ymd(1969, 5, 8).unwrap();
    let config = Config::new().now(now).default_to_past(false);
    let (start, end, _) = parse("Thursday", Some(config)).unwrap();
    assert_eq!(start, Instant::from_ymd(1969, 5, 15).unwrap());
    assert_eq!(end, Instant::from_ymd(1969, 5, 16).unwrap());
}

#[test]
fn weekday_range_with_equal_ends_spans_a_week() {
    // Both sides are relative: the first Friday resolves before the
    // reference moment, the second strictly after the first.
    let now = Instant::from_ymd(1969, 5, 6).unwrap();
    let (start, end, range) = parse("Friday to Friday", Some(Config::new().now(now))).unwrap();
    assert!(range);
    assert_eq!(start, Instant::from_ymd(1969, 5, 2).unwrap());
    assert_eq!(end, Instant::from_ymd(1969, 5, 9).unwrap());
}

#[test]
fn universal_vocabulary_folds_case_and_whitespace() {
    for phrase in ["  ALWAYS  ", "Ever", "all   time", "FOREVER", "From  Beginning  To  End"]
        .iter()
    {
        let (start, end, range) = parse(phrase, None).unwrap();
        assert_eq!(start, first_moment());
        assert_eq!(end, last_moment());
        assert!(!range);
    }
    assert!(!parsable("alwaysx"));
}
