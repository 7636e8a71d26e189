use config_backup::rotate::{plan_rotation, rotated_path};
use config_backup::timestamp::{commit_message, commit_stamp, now_local, rotation_stamp, Timestamp};

fn ts(year: i32, month: u32, day: u32, hour: u32, minute: u32, second: u32) -> Timestamp {
    Timestamp { year, month, day, hour, minute, second }
}

#[test]
fn rotation_stamp_is_zero_padded() {
    assert_eq!(rotation_stamp(ts(2024, 3, 7, 9, 5, 0)), "2024-03-07_09-05");
    assert_eq!(rotation_stamp(ts(1999, 12, 31, 23, 59, 59)), "1999-12-31_23-59");
}

#[test]
fn rotation_stamp_pads_short_years() {
    assert_eq!(rotation_stamp(ts(33, 1, 2, 0, 0, 0)), "0033-01-02_00-00");
    assert_eq!(rotation_stamp(ts(0, 1, 1, 0, 0, 0)), "0000-01-01_00-00");
}

#[test]
fn rotation_stamp_handles_wide_and_negative_years() {
    assert_eq!(rotation_stamp(ts(12345, 6, 7, 8, 9, 0)), "12345-06-07_08-09");
    assert_eq!(rotation_stamp(ts(-5, 1, 1, 0, 0, 0)), "-0005-01-01_00-00");
}

#[test]
fn commit_stamp_has_seconds() {
    assert_eq!(commit_stamp(ts(2024, 3, 7, 9, 5, 8)), "2024-03-07 09:05:08");
}

#[test]
fn commit_message_carries_the_stamp() {
    assert_eq!(commit_message(ts(2024, 3, 7, 9, 5, 8)), "Backup am 2024-03-07 09:05:08");
}

#[test]
fn rotated_path_appends_dash_and_stamp() {
    assert_eq!(
        rotated_path("/home/u/backup/config", ts(2024, 3, 7, 9, 5, 0)),
        "/home/u/backup/config-2024-03-07_09-05"
    );
}

#[test]
fn rotation_of_existing_directory_names_the_sibling() {
    let r = plan_rotation(true, "/home/u/backup/config", ts(2024, 3, 7, 9, 5, 0));
    assert_eq!(r, Some(String::from("/home/u/backup/config-2024-03-07_09-05")));
}

#[test]
fn rotation_without_backup_is_a_no_op() {
    let r = plan_rotation(false, "/home/u/backup/config", ts(2024, 3, 7, 9, 5, 0));
    assert_eq!(r, None);
}

#[test]
fn clock_reading_is_well_formed() {
    let now = now_local();
    assert!((1..=12).contains(&now.month));
    assert!((1..=31).contains(&now.day));
    assert!(now.hour <= 23);
    assert!(now.minute <= 59);
    assert!(now.second <= 59);
}
