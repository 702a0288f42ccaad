use solkit::stats::{duration_to_human, DAY_SEC, HOUR_SEC, MIN_SEC};

struct Dt {
    d: u64,
    s: &'static str,
}

#[test]
fn human_duration() {
    let day_short = DAY_SEC + 20;
    let day_long = DAY_SEC * 2 + HOUR_SEC * 3 + 150;
    let days_only = DAY_SEC * 101;

    let data: Vec<Dt> = vec![
        Dt { d: 0, s: "" },
        Dt { d: 17, s: "0m17s" },
        Dt { d: 60, s: "1m0s" },
        Dt { d: 130, s: "2m10s" },
        Dt { d: 3600, s: "1h0m" },
        Dt { d: 3620, s: "1h0m" },
        Dt { d: 3640, s: "1h1m" },
        Dt { d: 7203, s: "2h0m" },
        Dt { d: 7383, s: "2h3m" },
        Dt { d: day_short, s: "1d0h" },
        Dt { d: day_long, s: "2d3h" },
        Dt { d: days_only, s: "101d" },
    ];
    for d in data.iter() {
        let dur = Some(d.d);
        let st = duration_to_human(dur);
        assert_eq!(d.s, &st);
    }
}

#[test]
fn no_duration_is_no_text() {
    assert_eq!(duration_to_human(None), "");
    assert_eq!(duration_to_human(Some(0)), "");
}

#[test]
fn durations_round_the_smaller_unit() {
    assert_eq!(MIN_SEC, 60);
    assert_eq!(HOUR_SEC, 3600);
    assert_eq!(DAY_SEC, 86400);
    assert_eq!(duration_to_human(Some(1)), "0m1s");
    assert_eq!(duration_to_human(Some(59)), "0m59s");
    assert_eq!(duration_to_human(Some(3599)), "59m59s");
    assert_eq!(duration_to_human(Some(3600 + 30)), "1h0m");
    assert_eq!(duration_to_human(Some(3600 + 31)), "1h1m");
    assert_eq!(duration_to_human(Some(2 * 3600 - 1)), "1h60m");
    assert_eq!(duration_to_human(Some(86399)), "23h60m");
    assert_eq!(duration_to_human(Some(86400)), "1d0h");
    assert_eq!(duration_to_human(Some(86400 + 1800)), "1d0h");
    assert_eq!(duration_to_human(Some(86400 + 1801)), "1d1h");
    assert_eq!(duration_to_human(Some(10 * 86400 + 12 * 3600)), "10d12h");
    assert_eq!(duration_to_human(Some(98 * 86400 - 1)), "97d24h");
    assert_eq!(duration_to_human(Some(98 * 86400)), "98d");
    assert_eq!(duration_to_human(Some(98 * 86400 + 43200)), "98d");
    assert_eq!(duration_to_human(Some(98 * 86400 + 43201)), "99d");
    assert_eq!(duration_to_human(Some(1000 * 86400)), "1000d");
    assert_eq!(duration_to_human(Some(u64::MAX)), "213503982334601d");
}
