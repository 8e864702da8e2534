use mountain_torrents::auth::{hex_lower, md5_password};
use mountain_torrents::bucket::{bucket_label, bucket_of, buckets, six_timestamps, Buckets, Resolution};
use mountain_torrents::config::Config;
use mountain_torrents::decimal::parse_hundredths;
use mountain_torrents::delta::DeltaCache;
use mountain_torrents::error::Error;
use mountain_torrents::hydro::{
    cal_flow_value, cal_storage, isqrt, next_storage, PriorState, StorageStep, STORAGE_FLOOR,
};
use mountain_torrents::ingest::{store_rainfall, store_water_depth, DepthRecord};
use mountain_torrents::payload::{parse_point_id, DataPoint, PayloadData, Reading};
use mountain_torrents::query::{
    amount_of, build_series, mt_rows, series_since, snapshot_since, Device, SnapshotValues,
};
use mountain_torrents::topic::{device_id_in_topic, topic_for_device, topics};

#[test]
fn it_works() {
    assert_eq!(2 + 2, 4);
}

#[test]
fn error_messages() {
    assert_eq!(Error::DatabaseError("x".to_string()).to_string(), "database error x");
    assert_eq!(Error::MqttError("lost".to_string()).to_string(), "mqtt error lost");
    assert_eq!(Error::WebError("".to_string()).to_string(), "web error ");
    assert_eq!(Error::ExcelError("e".to_string()).to_string(), "excel error e");
}

#[test]
fn config_defaults_and_values() {
    let empty = Config::new(None, None, None, None, None);
    assert_eq!(empty.qos(), 1);
    assert_eq!(empty.host(), "");
    assert_eq!(empty.client_id(), "");
    assert_eq!(empty.user_name(), "");
    assert_eq!(empty.password(), "");
    let full = Config::new(
        Some(2),
        Some("tcp://broker:1883".to_string()),
        Some("client".to_string()),
        Some("user".to_string()),
        Some("secret".to_string()),
    );
    assert_eq!(full.qos(), 2);
    assert_eq!(full.host(), "tcp://broker:1883");
    assert_eq!(full.client_id(), "client");
    assert_eq!(full.user_name(), "user");
    assert_eq!(full.password(), "secret");
}

#[test]
fn parse_decimal_readings() {
    assert_eq!(parse_hundredths("12.5"), Some(1250));
    assert_eq!(parse_hundredths("10"), Some(1000));
    assert_eq!(parse_hundredths("-0.75"), Some(-75));
    assert_eq!(parse_hundredths("+2"), Some(200));
    assert_eq!(parse_hundredths(".5"), Some(50));
    assert_eq!(parse_hundredths("3."), Some(300));
    assert_eq!(parse_hundredths("1.239"), Some(123));
    assert_eq!(parse_hundredths("0"), Some(0));
    assert_eq!(parse_hundredths("1000000"), Some(100_000_000));
    assert_eq!(parse_hundredths("-1000000.00"), Some(-100_000_000));
    assert_eq!(parse_hundredths("1000000.01"), None);
    assert_eq!(parse_hundredths("99999999999999999999999"), None);
    assert_eq!(parse_hundredths(""), None);
    assert_eq!(parse_hundredths("."), None);
    assert_eq!(parse_hundredths("-"), None);
    assert_eq!(parse_hundredths("abc"), None);
    assert_eq!(parse_hundredths("1e3"), None);
    assert_eq!(parse_hundredths("1.2.3"), None);
    assert_eq!(parse_hundredths(" 1"), None);
}

fn point(id: &str, value: &str) -> DataPoint {
    DataPoint {
        point_id: id.to_string(),
        value: value.to_string(),
        slave_index: "1".to_string(),
        slave_addr: "1".to_string(),
    }
}

#[test]
fn point_kinds() {
    assert_eq!(parse_point_id("44266"), Some(44266));
    assert_eq!(parse_point_id("4426"), None);
    assert_eq!(parse_point_id("4426x"), None);
    assert!(point("44266", "1").is_rainfall());
    assert!(!point("44267", "1").is_rainfall());
    assert!(!point("44266", "1").is_depth());
    assert!(point("44271", "1").is_depth());
    assert!(point("44275", "1").is_depth());
    assert!(point("44399", "1").is_depth());
    assert!(!point("44272", "1").is_depth());
    assert!(!point("44267", "1").is_depth());
    assert!(!point("44403", "1").is_depth());
    assert!(!point("044271", "1").is_depth());
    assert_eq!(point("44266", "7.25").get_value(), Some(725));
    assert_eq!(point("44266", "n/a").get_value(), None);
}

#[test]
fn payload_readings_in_order() {
    let payload = PayloadData {
        data_points: vec![
            point("44266", "10.0"),
            point("44271", "1.5"),
            point("12345", "3"),
            point("44275", "bad"),
            point("44266", "12.5"),
        ],
        dev_name: "dev".to_string(),
    };
    assert_eq!(
        payload.readings(),
        vec![Reading::Rainfall(1000), Reading::Depth(150), Reading::Rainfall(1250)]
    );
    let empty = PayloadData { data_points: vec![], dev_name: "".to_string() };
    assert_eq!(empty.readings(), vec![]);
}

#[test]
fn delta_of_monotone_counter() {
    let mut cache = DeltaCache::new();
    let raws = [500, 500, 620, 700, 1000];
    let mut got = vec![];
    for r in raws {
        got.push(cache.observe("t", r));
    }
    assert_eq!(got, vec![0, 0, 120, 80, 300]);
    assert_eq!(cache.last("t"), Some(1000));
    assert_eq!(cache.last("other"), None);
}

#[test]
fn delta_after_reset_is_zero() {
    let mut cache = DeltaCache::new();
    assert_eq!(cache.observe("t", 900), 0);
    assert_eq!(cache.observe("t", 100), 0);
    assert_eq!(cache.observe("t", 150), 50);
    assert_eq!(cache.observe("u", 40), 0);
    assert_eq!(cache.observe("t", 160), 10);
    assert_eq!(cache.last("u"), Some(40));
}

#[test]
fn storage_floor_without_rain() {
    let s = cal_storage(STORAGE_FLOOR, 0, 300);
    assert_eq!(s, StorageStep { excess: 0, storage: STORAGE_FLOOR });
    assert_eq!(STORAGE_FLOOR, -30 * 28800);
}

#[test]
fn storage_bounds() {
    // positive level turns into excess and empties the store
    let s = cal_storage(-100, 10, 300);
    assert_eq!(s, StorageStep { excess: 2880 - 100 - 300, storage: 0 });
    // deep deficit is clamped
    let s = cal_storage(STORAGE_FLOOR, 0, 1_000_000);
    assert_eq!(s.storage, STORAGE_FLOOR);
    assert_eq!(s.excess, 0);
    for (prev, rain, dt) in [(0, 0, 0), (-5000, 30, 60), (STORAGE_FLOOR, 10_000, 300), (0, 1, 1000)] {
        let s = cal_storage(prev, rain, dt);
        assert!(s.storage >= STORAGE_FLOOR && s.storage <= 0);
        assert!(s.excess >= 0);
    }
}

#[test]
fn rainfall_scenario_from_no_prior_state() {
    let mut cache = DeltaCache::new();
    let topic = "$USR/DevJsonTx/D";
    let first = store_rainfall(&mut cache, topic, 1000, None, 1_000_000).unwrap();
    assert_eq!(first.increment, 0);
    let prior = PriorState { storage: first.rain.step.storage, captured_at: 1_000_000 };
    let second = store_rainfall(&mut cache, topic, 1250, None, 1_000_300).unwrap();
    assert_eq!(second.increment, 250);
    assert_eq!(second.rain.interval, 300);
    // S = max(-30 + 2.5 - 300/28800, -30) mm = -27.51 mm, no excess
    assert_eq!(second.rain.step.excess, 0);
    assert_eq!(second.rain.step.storage, -864_000 + 250 * 288 - 300);
    assert_eq!(second.rain.step.storage * 100 / 28800, -2751);
    let chained = next_storage(Some(prior), 1_000_300, 250).unwrap();
    assert_eq!(chained.interval, 300);
}

#[test]
fn next_storage_defaults() {
    let s = next_storage(None, 50, 0).unwrap();
    assert_eq!(s.interval, 300);
    assert_eq!(s.step.storage, STORAGE_FLOOR);
    let p = PriorState { storage: -2000, captured_at: 100 };
    let s = next_storage(Some(p), 160, 5).unwrap();
    assert_eq!(s.interval, 60);
    assert_eq!(s.step.storage, -2000 + 5 * 288 - 60);
    assert_eq!(s.step.excess, 0);
    let p = PriorState { storage: -1000, captured_at: 100 };
    let s = next_storage(Some(p), 160, 5).unwrap();
    assert_eq!(s.step.storage, 0);
    assert_eq!(s.step.excess, -1000 + 5 * 288 - 60);
    let p = PriorState { storage: 0, captured_at: i64::MIN };
    assert_eq!(next_storage(Some(p), i64::MAX, 0), None);
}

#[test]
fn depth_discharge() {
    assert_eq!(store_water_depth(100, Some(500)), DepthRecord { depth: 100, flow: Some(750) });
    assert_eq!(store_water_depth(100, None), DepthRecord { depth: 100, flow: Some(0) });
    assert_eq!(store_water_depth(-1, Some(500)).flow, None);
    // 1.5 * 2 * 0.25^1.5 = 0.375
    assert_eq!(cal_flow_value(Some(200), 25), Some(37));
    // 1.5 * 5 * 2^1.5 = 21.213...
    assert_eq!(cal_flow_value(Some(500), 200), Some(2121));
    assert_eq!(cal_flow_value(Some(500), 100_000_001), None);
}

#[test]
fn integer_square_root() {
    assert_eq!(isqrt(0), 0);
    assert_eq!(isqrt(1), 1);
    assert_eq!(isqrt(15), 3);
    assert_eq!(isqrt(16), 4);
    assert_eq!(isqrt(10_000_000_000), 100_000);
    assert_eq!(isqrt(u128::MAX), u64::MAX);
}

#[test]
fn bucket_ids() {
    let b = buckets(10_800);
    assert_eq!(
        b,
        Buckets { half_hour: 6, one_hour: 3, one_half_hour: 2, two_hour: 1, three_hour: 1 }
    );
    let b = buckets(-1);
    assert_eq!(
        b,
        Buckets { half_hour: -1, one_hour: -1, one_half_hour: -1, two_hour: -1, three_hour: -1 }
    );
    assert_eq!(buckets(1_700_000_000), buckets(1_700_000_000));
    assert_eq!(bucket_of(3600, Resolution::HalfHour), 2);
    assert_eq!(bucket_of(5399, Resolution::HalfHour), 2);
    assert_eq!(bucket_of(5400, Resolution::OneAndHalfHours), 1);
    assert_eq!(bucket_of(5399, Resolution::OneAndHalfHours), 0);
    assert_eq!(b.get(Resolution::TwoHours), -1);
    let s = six_timestamps();
    assert!(s.now >= 0);
    assert_eq!(s.buckets, buckets(s.now));
}

#[test]
fn same_window_same_bucket() {
    for r in [
        Resolution::HalfHour,
        Resolution::OneHour,
        Resolution::OneAndHalfHours,
        Resolution::TwoHours,
        Resolution::ThreeHours,
    ] {
        let w = r.width_secs();
        let k = 944_444;
        assert_eq!(bucket_of(k * w, r), k);
        assert_eq!(bucket_of(k * w + w - 1, r), k);
        assert_eq!(bucket_of(k * w + w, r), k + 1);
    }
}

#[test]
fn labels_and_windows() {
    assert_eq!(bucket_label(0, Resolution::HalfHour, 8 * 3600), "08:00:00");
    assert_eq!(bucket_label(3, Resolution::HalfHour, 0), "01:30:00");
    assert_eq!(bucket_label(-1, Resolution::ThreeHours, 0), "21:00:00");
    assert_eq!(bucket_label(7, Resolution::OneHour, 8 * 3600 + 59), "15:00:59");
    assert_eq!(snapshot_since(7199, Resolution::OneHour), 3600);
    assert_eq!(snapshot_since(5400, Resolution::OneAndHalfHours), 5400);
    assert_eq!(series_since(100_000, Resolution::TwoHours), 100_000 - 16 * 3600);
}

#[test]
fn empty_series_for_no_rows() {
    let s = build_series(&vec![], 1_700_000_000, Resolution::OneHour, 8 * 3600);
    assert!(s.buckets.is_empty());
    assert!(s.values.is_empty());
    assert!(s.times.is_empty());
}

#[test]
fn series_fills_gaps_and_ignores_old_rows() {
    let now: i64 = 100 * 3600 + 10;
    let rows = vec![(95, Some(120)), (97, None), (98, Some(5)), (50, Some(1))];
    let s = build_series(&rows, now, Resolution::OneHour, 0);
    assert_eq!(s.buckets, vec![95, 96, 97, 98]);
    assert_eq!(s.values, vec![Some(120), None, None, Some(5)]);
    assert_eq!(s.times, vec!["23:00:00", "00:00:00", "01:00:00", "02:00:00"]);
}

#[test]
fn topic_round_trip() {
    let t = topic_for_device("A1B2");
    assert_eq!(t, "$USR/DevJsonTx/A1B2");
    assert_eq!(device_id_in_topic(&t), Some("A1B2"));
    assert_eq!(device_id_in_topic("short"), None);
    assert_eq!(device_id_in_topic("$USR/DevJsonTx/"), Some(""));
    assert_eq!(
        topics(&vec!["a".to_string(), "b".to_string()]),
        vec!["$USR/DevJsonTx/a".to_string(), "$USR/DevJsonTx/b".to_string()]
    );
}

#[test]
fn password_digest() {
    assert_eq!(md5_password(""), "d41d8cd98f00b204e9800998ecf8427e");
    assert_eq!(md5_password("abc"), "900150983cd24fb0d6963f7d28e17f72");
    assert_eq!(hex_lower(&vec![0, 15, 16, 255]), "000f10ff");
}

fn device(id: i32, name: &str) -> Device {
    Device {
        id,
        region: "r".to_string(),
        name: name.to_string(),
        device_id: format!("ext{}", id),
        dike_height: 300,
        half_hour_design: 1000,
        one_hour_design: 2000,
        one_half_hour_design: 2500,
        two_hour_design: 3000,
        three_design: 4000,
        stream_width: Some(500),
        rainfall_area: None,
    }
}

#[test]
fn snapshot_rows() {
    let devs = vec![device(1, "one"), device(2, "two")];
    let v = SnapshotValues {
        depths: vec![(2, Some(80)), (1, Some(120))],
        half_rain: vec![(1, Some(50))],
        one_rain: vec![(1, None), (2, Some(7))],
        one_half_rain: vec![],
        two_rain: vec![(2, Some(9))],
        three_rain: vec![(1, Some(11)), (2, Some(12))],
        quantity: vec![(1, Some(3))],
        flow: vec![(2, Some(4))],
    };
    let rows = mt_rows(&devs, &v);
    assert_eq!(rows.len(), 2);
    assert_eq!(rows[0].id, 1);
    assert_eq!(rows[0].name, "one");
    assert_eq!(rows[0].depth, 120);
    assert_eq!(rows[0].depth_def, 300);
    assert_eq!(rows[0].half_rain, 50);
    assert_eq!(rows[0].one_rain, 0);
    assert_eq!(rows[0].one_half_rain, 0);
    assert_eq!(rows[0].three_rain, 11);
    assert_eq!(rows[0].quantity, 3);
    assert_eq!(rows[0].flow, 0);
    assert_eq!(rows[1].depth, 80);
    assert_eq!(rows[1].one_rain, 7);
    assert_eq!(rows[1].two_rain, 9);
    assert_eq!(rows[1].three_rain_def, 4000);
    assert_eq!(amount_of(&vec![(3, Some(1)), (3, Some(2))], 3), 1);
    assert_eq!(devs[0].height_def(), 300);
    assert_eq!(devs[0].three_hour_def(), 4000);
}
