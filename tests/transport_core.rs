use prism_sink::paths::{date_stamp, dated_file_path, rotated_file_path, time_stamp};
use prism_sink::transport::{local_day_of, next_day_start, FileSenderCore, LOW_WATER_MARK, SIZE_LIMIT};

/// 2024-01-01 00:00:00 at UTC+8.
const NEW_YEAR: i64 = 1704038400;

#[test]
fn low_water_mark_flushes_without_truncating() {
    let mut core = FileSenderCore::with_limits(NEW_YEAR, 3, SIZE_LIMIT);
    let due = core.accept(b"foo bar\n");
    assert!(due);
    assert_eq!(core.pending, b"foo bar\n".to_vec());
    let rotate = core.flushed();
    assert!(!rotate);
    assert!(core.pending.is_empty());
    assert_eq!(core.written_size, 8);
}

#[test]
fn standard_thresholds() {
    let mut core = FileSenderCore::new(NEW_YEAR);
    assert_eq!(core.low_water, 16384);
    assert_eq!(LOW_WATER_MARK, 16384);
    assert_eq!(core.size_limit, 512 * 1024 * 1024);
    let small = vec![b'x'; 16384];
    assert!(!core.accept(&small));
    assert!(core.accept(b"y"));
}

#[test]
fn size_rotation_resets_counter() {
    let mut core = FileSenderCore::with_limits(NEW_YEAR, 4, 10);
    assert!(core.accept(b"0123456"));
    assert!(!core.flushed());
    assert!(!core.should_rotate_by_size());
    assert!(core.accept(b"789ab"));
    assert!(core.flushed());
    assert!(core.should_rotate_by_size());
    assert_eq!(core.written_size, 12);
    core.rotated_by_size();
    assert_eq!(core.written_size, 0);
    assert!(!core.should_rotate_by_size());
}

#[test]
fn day_rotation_at_local_midnight() {
    let before = NEW_YEAR - 1;
    let mut core = FileSenderCore::new(before);
    assert_eq!(core.current_day, local_day_of(before));
    assert_eq!(core.next_rotate_time, NEW_YEAR);
    assert!(!core.should_rotate_by_time(before));
    assert!(core.should_rotate_by_time(NEW_YEAR));
    core.accept(b"old day\n");
    core.flushed();
    core.rotated_by_day(NEW_YEAR + 5);
    assert_eq!(core.current_day, local_day_of(NEW_YEAR));
    assert_eq!(core.current_day, local_day_of(before) + 1);
    assert_eq!(core.next_rotate_time, NEW_YEAR + 86400);
    assert_eq!(core.written_size, 0);
}

#[test]
fn local_days_use_fixed_offset() {
    assert_eq!(local_day_of(0), 0);
    assert_eq!(local_day_of(57599), 0);
    assert_eq!(local_day_of(57600), 1);
    assert_eq!(next_day_start(0), 57600);
    assert_eq!(local_day_of(NEW_YEAR), 19723);
}

#[test]
fn day_stamps() {
    assert_eq!(date_stamp(0).unwrap(), b"19700101".to_vec());
    assert_eq!(date_stamp(19723).unwrap(), b"20240101".to_vec());
    assert_eq!(date_stamp(19782).unwrap(), b"20240229".to_vec());
    assert_eq!(time_stamp(NEW_YEAR + 3661).unwrap(), b"20240101_010101".to_vec());
    assert_eq!(time_stamp(NEW_YEAR - 1).unwrap(), b"20231231_235959".to_vec());
}

#[test]
fn dated_paths() {
    assert_eq!(
        dated_file_path(&b"/var/log/agent.csv".to_vec(), &b"20240101".to_vec()),
        b"/var/log/20240101/agent.csv".to_vec()
    );
    assert_eq!(
        dated_file_path(&b"metrics.csv".to_vec(), &b"20240101".to_vec()),
        b"20240101/metrics.csv".to_vec()
    );
    assert_eq!(
        dated_file_path(&b"/data/".to_vec(), &b"20240101".to_vec()),
        b"/20240101/data".to_vec()
    );
    assert_eq!(
        dated_file_path(&b"/".to_vec(), &b"20240101".to_vec()),
        b"20240101/agent.log".to_vec()
    );
}

#[test]
fn rotated_paths() {
    let stamp = b"20240101_120000".to_vec();
    assert_eq!(
        rotated_file_path(&b"/var/log/20240101/agent.csv".to_vec(), &stamp),
        b"/var/log/20240101/agent_20240101_120000.csv".to_vec()
    );
    assert_eq!(
        rotated_file_path(&b"logs/agent".to_vec(), &stamp),
        b"logs/agent_20240101_120000.txt".to_vec()
    );
    assert_eq!(
        rotated_file_path(&b"logs/.hidden".to_vec(), &stamp),
        b"logs/.hidden_20240101_120000.txt".to_vec()
    );
    assert_eq!(
        rotated_file_path(&b"a.tar.gz".to_vec(), &stamp),
        b"a.tar_20240101_120000.gz".to_vec()
    );
    assert_eq!(
        rotated_file_path(&b"dir/name.".to_vec(), &stamp),
        b"dir/name_20240101_120000".to_vec()
    );
}
