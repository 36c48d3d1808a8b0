use zex::disk::{
    is_ignored_mount, parse_mount_points, resolve_disk_for, space_from_statvfs,
    unescape_mount_field, DiskInfo,
};

fn mounts(m: &[&str]) -> Vec<String> {
    m.iter().map(|s| s.to_string()).collect()
}

#[test]
fn returns_none_for_empty_path() {
    assert!(resolve_disk_for("", &mounts(&["/", "/home"])).is_none());
}

#[test]
fn resolves_disk_owning_temp_dir() {
    let dir = "/tmp/zex";
    let mount = resolve_disk_for(dir, &mounts(&["/", "/home", "/tmp"])).expect("expected a disk to own the temp dir");
    assert_eq!(mount, "/tmp");
}

#[test]
fn longest_matching_mount_wins_by_components() {
    let m = mounts(&["/", "/home", "/home/u/data", "/homework"]);
    assert_eq!(resolve_disk_for("/home/u/data/x", &m).as_deref(), Some("/home/u/data"));
    assert_eq!(resolve_disk_for("/homework/x", &m).as_deref(), Some("/homework"));
    assert_eq!(resolve_disk_for("/home/other", &m).as_deref(), Some("/home"));
    assert_eq!(resolve_disk_for("/etc", &m).as_deref(), Some("/"));
}

#[test]
fn mount_fields_are_unescaped() {
    assert_eq!(unescape_mount_field("/media/My\\040Disk"), "/media/My Disk");
    assert_eq!(unescape_mount_field("a\\011b\\012c\\134d"), "a\tb\nc\\d");
}

#[test]
fn system_mounts_are_ignored() {
    assert!(is_ignored_mount("proc", "/proc", "proc"));
    assert!(is_ignored_mount("tmpfs", "/tmp", "tmpfs"));
    assert!(is_ignored_mount("x", "/run/user/1000", "ext4"));
    assert!(!is_ignored_mount("/dev/sdb1", "/run/media/u/stick", "vfat"));
    assert!(is_ignored_mount("sunrpc", "/var/lib/nfs", "ext4"));
    assert!(!is_ignored_mount("/dev/sda1", "/", "ext4"));
}

#[test]
fn mount_table_lines_give_mount_points() {
    let table = "/dev/sda1 / ext4 rw 0 0\nproc /proc proc rw 0 0\n/dev/sdb1 /media/My\\040Disk vfat rw 0 0\nshort line\n";
    assert_eq!(parse_mount_points(table), vec!["/".to_string(), "/media/My Disk".to_string()]);
}

#[test]
fn space_multiplies_blocks_and_rejects_empty_disks() {
    assert_eq!(space_from_statvfs(Some((4096, 10, 5))), Some((40960, 20480)));
    assert_eq!(space_from_statvfs(Some((4096, 0, 0))), None);
    assert_eq!(space_from_statvfs(None), None);
    assert_eq!(space_from_statvfs(Some((u64::MAX, 2, 1))), Some((u64::MAX, u64::MAX)));
    let info = DiskInfo::new("/".to_string(), Some((100, 40))).unwrap();
    assert_eq!(info.total_space, 100);
    assert_eq!(info.available_space, 40);
    assert!(DiskInfo::new("/".to_string(), None).is_none());
}
