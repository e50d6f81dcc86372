use prism_sink::cow::{Cow, Kind, Metadata};
use prism_sink::encoder::CsvEncoderBuilder;
use prism_sink::error::SendError;
use prism_sink::lifecycle::{encode_batch, loop_step, LoopAction, Sender, StartOutcome, StopOutcome};
use prism_sink::tags::MetricTags;
use prism_sink::text::{
    contains_uom_type, filter_result, get_app_name, get_slugified_app_name, procfs_root,
    set_procfs_root, set_sysfs_root, sysfs_root, FormatKind, RootPaths,
};
use std::sync::Arc;

fn actor() -> Sender<u8, u16, u32, u64> {
    Sender::new("file".to_string(), 1, 2, 3)
}

#[test]
fn start_twice_spawns_once() {
    let mut s = actor();
    assert_eq!(s.name(), "file");
    assert!(!s.is_running());
    match s.start() {
        StartOutcome::Spawn(r, t, e) => assert_eq!((r, t, e), (1, 2, 3)),
        _ => panic!("first start must spawn"),
    }
    s.started(9);
    assert!(s.is_running());
    assert!(matches!(s.start(), StartOutcome::AlreadyRunning));
    assert!(s.is_running());
}

#[test]
fn stop_twice_joins_once() {
    let mut s = actor();
    assert!(matches!(s.stop(), StopOutcome::AlreadyStopped));
    let _ = s.start();
    s.started(9);
    match s.stop() {
        StopOutcome::Join(h) => assert_eq!(h, Some(9)),
        _ => panic!("first stop must join"),
    }
    assert!(!s.is_running());
    assert!(matches!(s.stop(), StopOutcome::AlreadyStopped));
    assert!(matches!(s.start(), StartOutcome::Exhausted));
}

#[test]
fn batch_becomes_lines() {
    let mut encoder = CsvEncoderBuilder::new().build().unwrap();
    let batch = vec![b"cpu,,1,{},2024-01-01 00:00:00.000".to_vec(), b"mem,,2,{},2024-01-01 00:00:00.000".to_vec()];
    let out = encode_batch(&mut encoder, &batch).unwrap();
    assert_eq!(
        out,
        b"cpu,,1,{},2024-01-01 00:00:00.000\nmem,,2,{},2024-01-01 00:00:00.000\n".to_vec()
    );
    let mut wide = CsvEncoderBuilder::new().build().unwrap();
    let mut scratch = Vec::new();
    wide.encode_record(&vec![b"a".to_vec(), b"b".to_vec()], &mut scratch).unwrap();
    assert!(matches!(encode_batch(&mut wide, &batch), Err(SendError::Encode(_))));
}

#[test]
fn cow_reads_the_same_in_each_form() {
    let owned = Cow::from_owned("abc".to_string());
    assert_eq!(owned.kind(), Kind::Owned);
    assert_eq!(owned.as_str(), "abc");
    assert_eq!(owned.into_owned(), "abc".to_string());
    let text = String::from("xyz");
    let borrowed = Cow::from_borrowed(text.as_str());
    assert_eq!(borrowed.kind(), Kind::Borrowed);
    assert_eq!(borrowed.into_owned(), "xyz".to_string());
    let shared = Cow::from_shared(Arc::new("s".to_string()));
    assert_eq!(shared.kind(), Kind::Shared);
    assert_eq!(shared.into_owned(), "s".to_string());
}

#[test]
fn metadata_kinds() {
    assert_eq!(Metadata::borrowed(4).kind(), Kind::Borrowed);
    assert_eq!(Metadata::owned(4, 8).kind(), Kind::Owned);
    assert_eq!(Metadata::shared(4).kind(), Kind::Shared);
    assert_eq!(Metadata::owned(4, 8).len(), 4);
    assert_eq!(Metadata::owned(4, 8).capacity(), 8);
}

#[test]
fn tags_keep_one_value_per_name() {
    let mut tags = MetricTags::new();
    tags.insert("cpu".to_string(), "0".to_string());
    tags.insert("host".to_string(), "a".to_string());
    assert_eq!(tags.replace("cpu".to_string(), "1".to_string()), Some("0".to_string()));
    assert_eq!(tags.replace("disk".to_string(), "sda".to_string()), None);
    assert_eq!(tags.entries.len(), 3);
    assert_eq!(tags.entries[0], ("cpu".to_string(), "1".to_string()));
}

#[test]
fn roots_are_set_once() {
    let mut roots = RootPaths::new();
    assert_eq!(procfs_root(&mut roots), "/proc");
    set_procfs_root(&mut roots, "/host/proc".to_string());
    assert_eq!(procfs_root(&mut roots), "/proc");
    set_sysfs_root(&mut roots, "/host/sys".to_string());
    set_sysfs_root(&mut roots, "/other".to_string());
    assert_eq!(sysfs_root(&mut roots), "/host/sys");
}

#[test]
fn names_and_helpers() {
    assert_eq!(get_app_name(), "prism");
    assert_eq!(get_slugified_app_name(), "prism");
    assert!(contains_uom_type("Option < Time >", "Time>"));
    assert!(!contains_uom_type("Length", "Time"));
    assert_eq!(filter_result::<u8, String>(Ok(3), "x"), Some(3));
    assert_eq!(filter_result::<u8, String>(Err("e".to_string()), "x"), None);
    assert_ne!(FormatKind::Kv, FormatKind::Table);
}

#[test]
fn metric_line_escapes_tag_commas() {
    let line = prism_sink::record::metric_line(
        b"cpu.usage",
        b"",
        b"0.5",
        b"{\"cpu\":\"0\",\"host\":\"a\"}",
        b"2024-01-01 00:00:00.000",
    );
    assert_eq!(
        line,
        b"cpu.usage,,0.5,{\"cpu\":\"0\";\"host\":\"a\"},2024-01-01 00:00:00.000".to_vec()
    );
}

#[test]
fn loop_step_decisions() {
    let mut encoder = CsvEncoderBuilder::new().build().unwrap();
    let batch = vec![b"x".to_vec(), b"y".to_vec()];
    assert!(matches!(loop_step(false, Some(&batch), &mut encoder), LoopAction::Finish));
    assert!(matches!(loop_step::<Vec<u8>>(true, None, &mut encoder), LoopAction::Finish));
    match loop_step(true, Some(&batch), &mut encoder) {
        LoopAction::Send(v) => assert_eq!(v, b"x\ny\n".to_vec()),
        _ => panic!("a batch must be sent"),
    }
    let mut wide = CsvEncoderBuilder::new().build().unwrap();
    let mut scratch = Vec::new();
    wide.encode_record(&vec![b"a".to_vec(), b"b".to_vec()], &mut scratch).unwrap();
    assert!(matches!(loop_step(true, Some(&batch), &mut wide), LoopAction::Fail(SendError::Encode(_))));
}
