use plugin_statistics::clock::{
    now_ms_u64, now_unix_i64, now_unix_u64, signed_seconds, unix_millis, unix_seconds,
};

#[test]
fn readings_are_counted_in_seconds_and_milliseconds() {
    assert_eq!(unix_seconds(Some((12, 999_999_999))), 12);
    assert_eq!(unix_seconds(None), 0);
    assert_eq!(unix_millis(Some((12, 345_678_901))), 12_345);
    assert_eq!(unix_millis(Some((0, 999_999))), 0);
    assert_eq!(unix_millis(Some((u64::MAX, 0))), u64::MAX);
    assert_eq!(unix_millis(None), 0);
    assert_eq!(signed_seconds(17), 17);
    assert_eq!(signed_seconds(u64::MAX), -1);
}

#[test]
fn the_clock_shows_the_present() {
    let elapsed = || {
        std::time::SystemTime::now()
            .duration_since(std::time::UNIX_EPOCH)
            .unwrap()
    };
    let before = elapsed();
    let seconds = now_unix_u64();
    let signed = now_unix_i64();
    let millis = now_ms_u64();
    let after = elapsed();
    assert!(before.as_secs() <= seconds && seconds <= after.as_secs());
    assert!(before.as_secs() as i64 <= signed && signed <= after.as_secs() as i64);
    assert!(before.as_millis() <= millis as u128 && millis as u128 <= after.as_millis());
}
