use cmdc::config::{
    schedule_interval, start_time, stop_time, vault_url, Cadence, KEEPALIVE, MARKETDATA_ADDRESS,
    MARKETDATA_PW, MARKETDATA_UN, SCHEDULER_TICK, SENTRY_DSN,
};

#[test]
fn cadence_of_the_run() {
    assert_eq!(schedule_interval("Everyday"), Cadence::Everyday);
    assert_eq!(schedule_interval("Weekdays"), Cadence::Weekdays);
    assert_eq!(schedule_interval(""), Cadence::Weekdays);
    assert_eq!(schedule_interval("everyday"), Cadence::Weekdays);
    assert_eq!(schedule_interval("Everyday "), Cadence::Weekdays);
}

#[test]
fn times_of_the_run() {
    assert_eq!(start_time(None), "11:00");
    assert_eq!(stop_time(None), "22:00");
    assert_eq!(start_time(Some("09:30".to_string())), "09:30");
    assert_eq!(stop_time(Some("".to_string())), "");
}

#[test]
fn vault_address() {
    assert_eq!(vault_url(None), "");
    assert_eq!(
        vault_url(Some("https://kv.vault.azure.net/".to_string())),
        "https://kv.vault.azure.net/"
    );
}

#[test]
fn secret_names() {
    assert_eq!(MARKETDATA_ADDRESS, "marketdata-address");
    assert_eq!(MARKETDATA_UN, "marketdata-username");
    assert_eq!(MARKETDATA_PW, "marketdata-password");
    assert_eq!(SENTRY_DSN, "sentry-dsn");
    assert_eq!(KEEPALIVE, 3600);
    assert_eq!(SCHEDULER_TICK, 5);
}
