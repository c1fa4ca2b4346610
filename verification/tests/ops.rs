use btrfs_csi::ops::commands::{BtrfsCommand, CommandLine};
use btrfs_csi::ops::io_priority::{
    device_of_mount, file_name, first_word, io_time_ms, set_io_priority_idle, stat_paths,
    IDLE_IO_PRIORITY,
};
use btrfs_csi::ops::snapshot::{is_retained, parse_snapshot_line, Snapshot, SnapshotManager};
use btrfs_csi::ops::subvolume::{parse_size, parse_subvolume_line, SubvolumeManager};
use btrfs_csi::ops::usage::{
    parse_device_usage, parse_size_from_line, parse_size_value, parse_usage_figures,
    checked_usage_output, parse_usage_output, UsageManager,
};
use btrfs_csi::ops::xattr::{
    get_all_csi_attrs, get_csi_attr, has_conflict, parse_i64_attr, parse_u64_attr,
    read_all_csi_attrs, read_csi_attr, remove_csi_attr, set_csi_attr,
};
use btrfs_csi::time::Moment;

fn text(c: &CommandLine) -> String {
    format!("{} {}", c.program, c.args.join(" "))
}

#[test]
fn test_parse_size_value() {
    assert_eq!(parse_size_value("10.00GiB"), 10 * 1024 * 1024 * 1024);
    assert_eq!(parse_size_value("512MiB"), 512 * 1024 * 1024);
    assert_eq!(parse_size_value("1.5TiB"), (1.5 * 1024.0 * 1024.0 * 1024.0 * 1024.0) as u64);
}

#[test]
fn test_parse_snapshot_line() {
    let line = "ID 258 gen 100 top level 5 path snapshots/snap_20240101";
    let snap = parse_snapshot_line(line).unwrap();
    assert_eq!(snap.id, 258);
    assert_eq!(snap.name, "snap_20240101");
}

#[test]
fn sizes_in_other_forms() {
    assert_eq!(parse_size_value(" 3kb "), 3072);
    assert_eq!(parse_size_value("2KIB"), 2048);
    assert_eq!(parse_size_value("2TB"), 2 << 40);
    assert_eq!(parse_size_value("0.5mb"), 524288);
    assert_eq!(parse_size_value("100"), 0);
    assert_eq!(parse_size_value("100b"), 0);
    assert_eq!(parse_size_value("xGiB"), 0);
    assert_eq!(parse_size_value("-1GiB"), 0);
    assert_eq!(parse_size_value("1 GiB"), 1 << 30);
    assert_eq!(parse_size_value("infTiB"), u64::MAX);
    assert_eq!(parse_size_value("1\u{212a}B"), 1024);
    assert_eq!(parse_size("10.00GiB"), 10 << 30);
    assert_eq!(parse_size("10.00 GiB"), 10 << 30);
    assert_eq!(parse_size("7 bytes"), 7);
    assert_eq!(parse_size("7.9 B"), 7);
    assert_eq!(parse_size("7 parsecs"), 0);
    assert_eq!(parse_size(""), 0);
    assert_eq!(parse_size_from_line("Data: size 10.00GiB"), 10 << 30);
    assert_eq!(parse_size_from_line("Data: size"), 0);
}

#[test]
fn command_lines() {
    let c = BtrfsCommand::run("subvolume", &vec!["list", "/x"]);
    assert_eq!(text(&c), "btrfs subvolume list /x");
    assert_eq!(BtrfsCommand::outcome("x", true, "out".to_string(), ""), Ok("out".to_string()));
    assert_eq!(
        BtrfsCommand::outcome("send", false, String::new(), "no space"),
        Err("btrfs send failed: no space".to_string())
    );
    let m = SubvolumeManager::new("/mnt");
    assert_eq!(text(&m.create("v")), "btrfs subvolume create /mnt/v");
    assert_eq!(text(&m.delete("v")), "btrfs subvolume delete /mnt/v");
    assert_eq!(text(&m.show("v")), "btrfs subvolume show /mnt/v");
    assert_eq!(text(&m.list_command()), "btrfs subvolume list /mnt");
    let (a, b) = m.set_nocow("v");
    assert_eq!(text(&a), "chattr +C /mnt/v");
    assert_eq!(text(&b), "btrfs property set /mnt/v nocow true");
    let s = SnapshotManager::new("/snap");
    assert_eq!(text(&s.create("v", "s")), "btrfs subvolume snapshot -r /snap/v /snap/s");
    assert_eq!(text(&s.create_writable("v", "s")), "btrfs subvolume snapshot /snap/v /snap/s");
    assert_eq!(text(&s.list_command()), "btrfs subvolume list -s /snap");
    assert_eq!(text(&s.delete("s")), "btrfs subvolume delete /snap/s");
    let u = UsageManager::new("/mnt");
    assert_eq!(text(&u.get_usage()), "btrfs filesystem usage -b /mnt");
    assert_eq!(text(&u.get_device_usage()), "btrfs filesystem usage /mnt");
}

#[test]
fn subvolume_descriptions() {
    let m = SubvolumeManager::new("/mnt");
    let v = m.get_info("v", "v\n\tName: v\n\tUUID: abc-1\n\tSubvolume ID: \t258\n\tSize: 3 GiB\n");
    assert_eq!(v.id, 258);
    assert_eq!(v.uuid, "abc-1");
    assert_eq!(v.path, "/mnt/v");
    assert_eq!(v.size, 3 << 30);
    assert_eq!(m.get_info("v", "Size: 4.5KiB").size, 4608);
    assert_eq!(m.get_size("v", "\tSize: \t2 MiB"), 2 << 20);
    assert_eq!(m.get_size("v", "Size: none"), 0);
    let list = m.list("ID 256 gen 7 top level 5 path a/b\nrubbish\nID x gen 7 top level 5 path c\n");
    assert_eq!(list.len(), 1);
    assert_eq!(list[0].name, "b");
    assert_eq!(list[0].path, "a/b");
    assert_eq!(list[0].parent_id, Some(5));
    assert!(parse_subvolume_line("ID 256 gen 7").is_none());
}

#[test]
fn paths_in_listings() {
    let v = parse_subvolume_line("ID 256 gen 10 top level 5 path vol1").unwrap();
    assert_eq!((v.id, v.path.as_str(), v.name.as_str()), (256, "vol1", "vol1"));
    let v = parse_subvolume_line("ID 256 gen 10 top level 5 path my data/vol 1").unwrap();
    assert_eq!((v.path.as_str(), v.name.as_str()), ("my data/vol 1", "vol 1"));
    let v = parse_subvolume_line("ID 256 gen 10 top level a/b c").unwrap();
    assert_eq!((v.path.as_str(), v.name.as_str()), ("a/b c", "b c"));
    let s = parse_snapshot_line("ID 7 gen 10 top level 5 path snap1").unwrap();
    assert_eq!((s.id, s.path.as_str(), s.name.as_str()), (7, "snap1", "snap1"));
}

#[test]
fn snapshot_descriptions() {
    let m = SnapshotManager::new("/snap");
    let now = Moment { secs: 1000, nanos: 5 };
    let s = m.get_info_at("s", "Subvolume ID: 9\nParent ID: 5\nCreation time: 2024-01-01 10:00:00 +0000", now);
    assert_eq!((s.id, s.subvolume_id, s.size), (9, 5, 0));
    assert_eq!(s.path, "/snap/s");
    assert_eq!(s.created_at, Moment { secs: 1_704_103_200, nanos: 0 });
    let s = m.get_info_at("s", "\tCreation time: \t\t2024-01-01 10:00:00 +0200\n", now);
    assert_eq!(s.created_at, Moment { secs: 1_704_096_000, nanos: 0 });
    assert_eq!(m.get_info_at("s", "Creation time: yesterday", now).created_at, now);
    assert_eq!(m.list("ID 1 gen 1 top level 5 path x/one\n\nID 2 gen 1 top level 5 path x/two").len(), 2);
}

fn snap(id: u64, name: &str, secs: i64) -> Snapshot {
    Snapshot {
        id,
        name: name.to_string(),
        path: String::new(),
        subvolume_id: 0,
        created_at: Moment { secs, nanos: 0 },
        size: 0,
    }
}

#[test]
fn cleanup_follows_the_policy() {
    let day = 86_400;
    // 2024-03-31 was a Sunday; 2024-03-01 a Friday.
    let now = Moment { secs: 1_711_886_400 + 20 * day, nanos: 0 };
    let sunday = 1_711_886_400;
    let first_of_march = 1_709_294_400;
    assert!(is_retained(&Moment { secs: now.secs - day, nanos: 0 }, &now, 7, 4, 3));
    assert!(is_retained(&Moment { secs: sunday, nanos: 0 }, &now, 7, 4, 3));
    assert!(!is_retained(&Moment { secs: sunday + day, nanos: 0 }, &now, 7, 4, 0));
    assert!(is_retained(&Moment { secs: first_of_march, nanos: 0 }, &now, 7, 4, 3));
    assert!(!is_retained(&Moment { secs: first_of_march, nanos: 0 }, &now, 7, 4, 1));
    let m = SnapshotManager::new("/snap");
    let all = vec![
        snap(1, "wednesday", sunday + 3 * day),
        snap(2, "tuesday", sunday + 2 * day),
        snap(3, "first of april", sunday + day),
        snap(4, "new", now.secs),
    ];
    assert_eq!(m.cleanup(all, now, 7, 4, 3), vec!["tuesday", "wednesday"]);
}

#[test]
fn days_of_the_week_agree_with_the_calendar() {
    for secs in [0i64, -1, 86_400 * 3, 951_782_400, 1_711_886_400, -2_208_988_800] {
        let t = chrono::DateTime::from_timestamp(secs, 0).unwrap();
        let sunday = chrono::Datelike::weekday(&t) == chrono::Weekday::Sun;
        assert_eq!(Moment { secs, nanos: 0 }.is_on_sunday(), sunday, "{}", secs);
    }
}

#[test]
fn days_of_the_month_agree_with_the_calendar() {
    let first = |secs: i64| Moment { secs, nanos: 0 }.is_on_first_of_month();
    for day in -150_000i64..150_000 {
        let secs = day * 86_400 + 86_399;
        let t = chrono::DateTime::from_timestamp(secs, 0).unwrap();
        assert_eq!(first(secs), chrono::Datelike::day(&t) == 1, "{}", secs);
    }
    let (min, max) = (-8_334_601_228_800i64, 8_210_266_876_799i64);
    assert_eq!(chrono::DateTime::<chrono::Utc>::MIN_UTC.timestamp(), min);
    assert_eq!(chrono::DateTime::<chrono::Utc>::MAX_UTC.timestamp(), max);
    assert!(chrono::DateTime::from_timestamp(min, 0).is_some() && first(min));
    assert!(chrono::DateTime::from_timestamp(max, 0).is_some() && !first(max));
    assert!(!first(min - 1) && !first(max + 1));
    assert!(!first(i64::MIN) && !first(i64::MAX));
}

#[test]
fn parents_for_replication() {
    let m = SnapshotManager::new("/snap");
    let name = m.replication_name("vol");
    assert!(name.starts_with("vol_snap_"));
    assert_eq!(name.len(), "vol_snap_20240101_000000".len());
    assert_eq!(m.replication_name_at("vol", "x"), "vol_snap_x");
    let all = vec![
        snap(1, "vol_snap_a", 10),
        snap(2, "vol_snap_b", 20),
        snap(3, "vol_snap_c", 20),
        snap(4, "other_snap_d", 90),
        snap(5, "vol_snap_e", 99),
    ];
    assert_eq!(m.previous_snapshot(&all, "vol", 5).unwrap().id, 3);
    assert!(m.previous_snapshot(&all, "none", 5).is_none());
}

#[test]
fn usage_overviews() {
    let f = parse_usage_figures("Overall: size 100.00GiB\nOverall: used 1GiB\nData: size 2GiB\nMetadata: size 3MiB\nSystem: size 4KiB");
    assert_eq!((f.total, f.used), (100 << 30, 1 << 30));
    assert_eq!((f.data_size, f.metadata_size, f.system_size), (2 << 30, 3 << 20, 4 << 10));
    assert!(checked_usage_output("Overall: size 1KiB\nOverall: used 2KiB").is_none());
    assert_eq!(checked_usage_output("Overall: size 2KiB").unwrap().free, 2048);
    let u = parse_usage_output("Overall: size 2KiB\nOverall: used 1KiB");
    assert_eq!((u.total, u.used, u.free, u.device_count), (2048, 1024, 1024, 1));
    let d = parse_device_usage("x\n/dev/sda 2KiB 1KiB 50%\n/dev/short 1KiB\n").unwrap();
    assert_eq!(d.len(), 1);
    assert_eq!((d[0].path.as_str(), d[0].size, d[0].used, d[0].free), ("/dev/sda", 2048, 1024, 1024));
    assert!(parse_device_usage("/dev/sda 1KiB 2KiB 50%").is_none());
}

#[test]
fn overall_line_with_both_sizes() {
    let u = parse_usage_output("Overall:    size: 100.00GiB    used: 50.00GiB");
    assert_eq!((u.total, u.used, u.free), (107_374_182_400, 53_687_091_200, 53_687_091_200));
    let u = parse_usage_output("Overall: used 1KiB size 4KiB\n  Overall:\tused: 2KiB\n");
    assert_eq!((u.total, u.used, u.free), (4096, 2048, 2048));
    let f = parse_usage_figures("Overall:\nOverall: size:\nsize: 1KiB");
    assert_eq!((f.total, f.used), (0, 0));
}

#[test]
fn suffixes_of_sizes() {
    for (long, short, k) in [("kib", "kb", 10), ("mib", "mb", 20), ("gib", "gb", 30), ("tib", "tb", 40)] {
        let expected = 3u64 << (k - 1);
        for unit in [long.to_string(), short.to_string(), long.to_uppercase(), short.to_uppercase()] {
            assert_eq!(parse_size_value(&format!("1.5{}", unit)), expected, "{}", unit);
            assert_eq!(parse_size_value(&format!("  1.5 {} ", unit)), expected, "{}", unit);
            assert_eq!(parse_size_value(&format!("x{}", unit)), 0, "{}", unit);
        }
    }
    assert_eq!(parse_size_value("2GiB"), parse_size_value("2gb"));
    assert_eq!(parse_size_value("1gibgib"), 1 << 30);
    assert_eq!(parse_size_value("1gibgb"), 0);
    assert_eq!(parse_size_value("1024"), 0);
    assert_eq!(parse_size_value("5B"), 0);
    assert_eq!(parse_size_value(""), 0);
}

#[test]
fn scrubs_are_due_weekly() {
    let u = UsageManager::new("/mnt");
    assert!(u.needs_scrub_at(None, 0));
    assert!(!u.needs_scrub_at(Some(0), 604_799_999));
    assert!(u.needs_scrub_at(Some(0), 604_800_000));
    assert!(u.needs_scrub(None));
    assert!(!u.needs_scrub(Some(chrono::Utc::now().timestamp_millis())));
}

#[test]
fn attributes() {
    assert_eq!(text(&set_csi_attr("/p", "size", "5")), "setfattr -n user.csi.size -v 5 /p");
    assert_eq!(text(&get_csi_attr("/p", "size")), "getfattr -n user.csi.size --only-values /p");
    assert_eq!(text(&remove_csi_attr("/p", "size")), "setfattr -x user.csi.size /p");
    assert_eq!(text(&get_all_csi_attrs("/p")), "getfattr -d --only-values /p");
    assert_eq!(read_csi_attr(true, " 5\n"), Some("5".to_string()));
    assert_eq!(read_csi_attr(false, "5"), None);
    let t = read_all_csi_attrs(true, "user.csi.size = 5\nother=a=b\nnothing\nuser.csi.size=6");
    assert_eq!(t.len(), 2);
    assert_eq!(t.get("size").unwrap(), "6");
    assert_eq!(t.get("other").unwrap(), "a=b");
    assert_eq!(read_all_csi_attrs(false, "a=b").len(), 0);
    assert_eq!(parse_u64_attr(Some(&"42".to_string())), 42);
    assert_eq!(parse_u64_attr(Some(&"-42".to_string())), 0);
    assert_eq!(parse_u64_attr(None), 0);
    assert_eq!(parse_i64_attr(Some(&"-42".to_string())), -42);
    assert_eq!(parse_i64_attr(Some(&"x".to_string())), 0);
    assert_eq!(parse_i64_attr(None), 0);
}

fn clock(entries: &[(&str, u64)]) -> Vec<(String, u64)> {
    entries.iter().map(|(n, c)| (n.to_string(), *c)).collect()
}

#[test]
fn clocks_in_conflict() {
    let a = clock(&[("a", 2), ("b", 1)]);
    let b = clock(&[("a", 1), ("b", 2)]);
    let later = clock(&[("a", 2), ("b", 2), ("c", 1)]);
    assert!(has_conflict(&a, &b));
    assert!(has_conflict(&b, &a));
    assert!(!has_conflict(&a, &a));
    assert!(!has_conflict(&a, &later));
    assert!(!has_conflict(&clock(&[]), &a));
    assert!(has_conflict(&clock(&[("a", 1)]), &clock(&[("b", 1)])));
    assert!(!has_conflict(&clock(&[("a", 1), ("a", 3)]), &clock(&[("a", 2)])));
}

#[test]
fn load_of_the_machine() {
    assert_eq!(first_word("0.42 0.3 0.2 1/99 1"), Some("0.42".to_string()));
    assert_eq!(first_word("  "), None);
    for p in ["/dev/sda1", "tmpfs", "/", "a/..", "a/.", "a//b/", "", "."] {
        let expected = std::path::Path::new(p).file_name().map(|n| n.to_string_lossy().to_string());
        assert_eq!(file_name(p), expected, "{}", p);
    }
    let mounts = "proc /proc proc rw 0 0\n/dev/dm-3 /mnt/data btrfs rw 0 0\n";
    assert_eq!(device_of_mount(mounts, "/mnt/data"), Some("dm-3".to_string()));
    assert_eq!(device_of_mount(mounts, "/nowhere"), None);
    let (a, b) = stat_paths("dm-3");
    assert_eq!(a, "/sys/block/3/stat");
    assert_eq!(b, "/sys/block/dm-3/stat");
    assert_eq!(io_time_ms("1 2 3 4 5 6 7 8 9 1234 11"), Some(1234));
    assert_eq!(io_time_ms("1 2"), None);
    assert_eq!(IDLE_IO_PRIORITY, 3 << 13);
    assert_eq!(set_io_priority_idle(0, ""), Ok(()));
    assert_eq!(
        set_io_priority_idle(-1, "denied"),
        Err("ioprio_set IDLE failed: denied".to_string())
    );
}
