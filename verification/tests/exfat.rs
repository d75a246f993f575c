use std::collections::BTreeMap;

use mmurtl_rs::fs::exfat::create::{create_file, CreateError};
use mmurtl_rs::fs::exfat::demo::{demo, FsEvent, FsStep, CONTENT};
use mmurtl_rs::fs::exfat::dir::names_equal_ascii;
use mmurtl_rs::fs::exfat::disk::{DiskOp, DiskReply, Volume};
use mmurtl_rs::fs::exfat::entry_set::{build_entry_set, entry_set_checksum, name_hash};
use mmurtl_rs::fs::exfat::mount::{mount, mounted, Mount, MountError, MountPhase};
use mmurtl_rs::fs::exfat::read::{list_root, read_file};

/// A disk in memory, of which some sectors cannot be accessed.
struct Sim {
    sectors: BTreeMap<u64, Vec<u8>>,
}

impl Sim {
    fn perform(&mut self, op: DiskOp) -> DiskReply {
        match op {
            DiskOp::Read { lba, count } => {
                let mut out = Vec::new();
                for i in 0..count as u64 {
                    match self.sectors.get(&(lba + i)) {
                        Some(s) => out.extend_from_slice(s),
                        None => return DiskReply::Failed,
                    }
                }
                DiskReply::Data(out)
            },
            DiskOp::Write { lba, data } => {
                if self.sectors.contains_key(&lba) {
                    self.sectors.insert(lba, data);
                    DiskReply::Written
                } else {
                    DiskReply::Failed
                }
            },
        }
    }

    fn put(&mut self, lba: u64, at: usize, bytes: &[u8]) {
        let s = self.sectors.get_mut(&lba).unwrap();
        s[at..at + bytes.len()].copy_from_slice(bytes);
    }
}

const HEAP: u64 = 16;
const SPC: u64 = 2;

fn lba_of(cluster: u64) -> u64 {
    HEAP + (cluster - 2) * SPC
}

/// 100 clusters of two sectors; cluster 2 holds the bitmap, 5 the root
/// directory; 2 to 5 are in use.
fn formatted() -> Sim {
    let mut d = Sim { sectors: BTreeMap::new() };
    for lba in 0..HEAP + 100 * SPC {
        d.sectors.insert(lba, vec![0; 512]);
    }
    d.put(0, 3, b"EXFAT   ");
    d.put(0, 80, &8u32.to_le_bytes());
    d.put(0, 88, &(HEAP as u32).to_le_bytes());
    d.put(0, 92, &100u32.to_le_bytes());
    d.put(0, 96, &5u32.to_le_bytes());
    d.put(0, 108, &[9, 1]);
    d.put(0, 510, &[0x55, 0xAA]);
    d.put(8, 5 * 4, &0xFFFF_FFFFu32.to_le_bytes());
    d.put(lba_of(2), 0, &[0x0F]);
    let root = lba_of(5);
    d.put(root, 0, &[0x83, 4, b'D', 0, b'i', 0, b's', 0, b'k', 0]);
    d.put(root, 32, &[0x81]);
    d.put(root, 32 + 20, &2u32.to_le_bytes());
    d.put(root, 32 + 24, &13u64.to_le_bytes());
    d
}

fn run_mount(d: &mut Sim) -> Mount {
    let mut m = mount();
    while let Some(op) = m.next_op() {
        let reply = d.perform(op);
        m.feed(reply);
    }
    m
}

fn volume(d: &mut Sim) -> Volume {
    run_mount(d).volume().unwrap()
}

fn read(d: &mut Sim, v: &Volume, name: &str) -> Option<Vec<u8>> {
    let mut m = read_file(v, name);
    while let Some(op) = m.next_op() {
        let reply = d.perform(op);
        m.feed(reply);
    }
    m.result().cloned()
}

fn create(d: &mut Sim, v: &Volume, name: &str, data: &[u8]) -> Result<(), CreateError> {
    let mut m = create_file(&Some(*v), name, data)?;
    while let Some(op) = m.next_op() {
        let reply = d.perform(op);
        m.feed(reply);
    }
    m.result().unwrap()
}

fn names(d: &mut Sim, v: &Volume) -> Vec<String> {
    let mut m = list_root(v);
    while let Some(op) = m.next_op() {
        let reply = d.perform(op);
        m.feed(reply);
    }
    m.files.iter().map(|f| f.name.as_str().to_string()).collect()
}

#[test]
fn mount_finds_geometry_bitmap_and_label() {
    let mut d = formatted();
    let m = run_mount(&mut d);
    assert_eq!(
        m.volume(),
        Some(Volume {
            sectors_per_cluster: 2,
            fat_lba: 8,
            heap_lba: 16,
            cluster_count: 100,
            root_cluster: 5,
            bitmap_cluster: 2,
            bitmap_bytes: 13,
        })
    );
    assert_eq!(m.label(), "Disk");
    assert!(mounted(&m.volume()));
    assert!(!mounted(&None));
}

fn mount_error(d: &mut Sim) -> MountError {
    match run_mount(d).phase {
        MountPhase::Failed(e) => e,
        _ => panic!("mounted"),
    }
}

#[test]
fn mount_refuses_other_volumes() {
    let mut d = formatted();
    d.put(0, 3, b"NTFS    ");
    assert_eq!(mount_error(&mut d), MountError::NoFileSystem);

    let mut d = formatted();
    d.put(0, 511, &[0]);
    assert_eq!(mount_error(&mut d), MountError::NoFileSystem);

    let mut d = formatted();
    d.put(0, 108, &[12, 200]);
    assert_eq!(mount_error(&mut d), MountError::SectorSize);

    let mut d = formatted();
    d.put(lba_of(5), 32, &[0x01]);
    assert_eq!(mount_error(&mut d), MountError::NoBitmap);

    let mut d = formatted();
    d.sectors.remove(&0);
    assert_eq!(mount_error(&mut d), MountError::NoFileSystem);
}

#[test]
fn created_file_reads_back() {
    let mut d = formatted();
    let v = volume(&mut d);
    let data: Vec<u8> = (0..3000u32).map(|i| (i % 251) as u8).collect();
    assert_eq!(create(&mut d, &v, "DATA.BIN", &data), Ok(()));
    assert_eq!(read(&mut d, &v, "DATA.BIN"), Some(data.clone()));
    assert_eq!(read(&mut d, &v, "data.bin"), Some(data));
    assert_eq!(read(&mut d, &v, "OTHER"), None);
}

#[test]
fn created_clusters_are_marked() {
    let mut d = formatted();
    let v = volume(&mut d);
    // 3000 bytes take three clusters of 1024: bits 4, 5 and 6.
    create(&mut d, &v, "A", &[1; 3000]).unwrap();
    assert_eq!(d.sectors[&lba_of(2)][0], 0x7F);
    create(&mut d, &v, "B", &[2; 1]).unwrap();
    assert_eq!(d.sectors[&lba_of(2)][0], 0xFF);
    assert_eq!(d.sectors[&lba_of(2)][1], 0);
}

#[test]
fn creation_keeps_other_files() {
    let mut d = formatted();
    let v = volume(&mut d);
    create(&mut d, &v, "FIRST", b"first contents").unwrap();
    create(&mut d, &v, "SECOND", &[9; 2048]).unwrap();
    assert_eq!(read(&mut d, &v, "FIRST").unwrap(), b"first contents");
    assert_eq!(read(&mut d, &v, "SECOND").unwrap(), vec![9; 2048]);
    assert_eq!(names(&mut d, &v), ["FIRST", "SECOND"]);
}

#[test]
fn absent_names_stay_absent() {
    let mut d = formatted();
    let v = volume(&mut d);
    assert_eq!(read(&mut d, &v, "ABSENT"), None);
    create(&mut d, &v, "PRESENT", b"x").unwrap();
    create(&mut d, &v, "EMPTY", b"").unwrap();
    assert_eq!(read(&mut d, &v, "ABSENT"), None);
    assert_eq!(read(&mut d, &v, "PRESEN"), None);
    assert_eq!(read(&mut d, &v, "pReSeNt").unwrap(), b"x");

    // What was left behind the end marker comes to light.
    let mut d = formatted();
    let v = volume(&mut d);
    create(&mut d, &v, "STALE", b"old").unwrap();
    let root = d.sectors[&lba_of(5)].clone();
    let mut d = formatted();
    d.put(lba_of(5), 160, &root[64..160]);
    assert_eq!(read(&mut d, &v, "STALE"), None);
    create(&mut d, &v, "NEW", b"new").unwrap();
    assert!(read(&mut d, &v, "STALE").is_some());
}

#[test]
fn empty_file_takes_no_cluster() {
    let mut d = formatted();
    let v = volume(&mut d);
    create(&mut d, &v, "EMPTY", b"").unwrap();
    assert_eq!(read(&mut d, &v, "EMPTY"), Some(vec![]));
    assert_eq!(d.sectors[&lba_of(2)][0], 0x0F);
}

#[test]
fn bad_names_are_refused() {
    let v = Some(volume(&mut formatted()));
    for name in ["", "\u{e9}t\u{e9}", "0123456789012345678901234567890"] {
        assert_eq!(create_file(&v, name, b"x").err(), Some(CreateError::BadName));
    }
    assert_eq!(create_file(&None, "A", b"x").err(), Some(CreateError::NotMounted));
}

#[test]
fn existing_file_is_not_replaced() {
    let mut d = formatted();
    let v = volume(&mut d);
    create(&mut d, &v, "A", b"one").unwrap();
    assert_eq!(create(&mut d, &v, "a", b"two"), Err(CreateError::Exists));
    assert_eq!(read(&mut d, &v, "A").unwrap(), b"one");
}

#[test]
fn full_volume_has_no_space() {
    let mut d = formatted();
    let v = volume(&mut d);
    d.put(lba_of(2), 0, &[0xFF; 13]);
    assert_eq!(create(&mut d, &v, "A", b"x"), Err(CreateError::NoSpace));
}

#[test]
fn runs_must_be_contiguous() {
    let mut d = formatted();
    let v = volume(&mut d);
    // Only single clusters are free, but one run of two at bits 17 and 18.
    d.put(lba_of(2), 0, &[0x5F, 0x55, 0x51, 0xFF, 0xFF, 0xFF, 0xFF, 0xFF, 0xFF, 0xFF, 0xFF, 0xFF, 0xFF]);
    create(&mut d, &v, "A", &[3; 2000]).unwrap();
    assert_eq!(d.sectors[&lba_of(2)][2], 0x57);
    assert_eq!(read(&mut d, &v, "A").unwrap(), vec![3; 2000]);
    assert_eq!(create(&mut d, &v, "B", &[3; 4000]), Err(CreateError::NoSpace));
}

#[test]
fn failed_accesses_are_reported() {
    let mut d = formatted();
    let v = volume(&mut d);
    d.sectors.remove(&lba_of(6));
    assert_eq!(create(&mut d, &v, "A", b"x"), Err(CreateError::DataWrite));

    let mut d = formatted();
    let v = volume(&mut d);
    d.sectors.remove(&lba_of(5));
    assert_eq!(create(&mut d, &v, "A", b""), Err(CreateError::RootRead));
}

#[test]
fn full_directory_is_reported() {
    let mut d = formatted();
    let v = volume(&mut d);
    // Entries in use up to the last one: no end marker is left.
    for i in 2..32u64 {
        let lba = lba_of(5) + i / 16;
        d.put(lba, (i % 16) as usize * 32, &[0x05]);
    }
    assert_eq!(create(&mut d, &v, "A", b""), Err(CreateError::RootFull));
    // One end marker is too little for a set of three.
    d.put(lba_of(5) + 1, 480, &[0x00]);
    assert_eq!(create(&mut d, &v, "A", b""), Err(CreateError::NoRoom));
}

#[test]
fn chained_files_are_read_along_the_fat() {
    let mut d = formatted();
    let v = volume(&mut d);
    let mut set = build_entry_set(b"CHAIN", 1500, 10);
    // The file has a chain: 10, then 20.
    set[32 + 1] = 0x01;
    let sum = entry_set_checksum(&set);
    set[2..4].copy_from_slice(&sum.to_le_bytes());
    d.put(lba_of(5), 64, &set);
    d.put(8, 40, &20u32.to_le_bytes());
    d.put(8, 80, &0xFFFF_FFFFu32.to_le_bytes());
    d.put(lba_of(10), 0, &[1; 512]);
    d.put(lba_of(10) + 1, 0, &[2; 512]);
    d.put(lba_of(20), 0, &[3; 512]);
    let data = read(&mut d, &v, "CHAIN").unwrap();
    assert_eq!(data.len(), 1500);
    assert_eq!((data[0], data[512], data[1024], data[1499]), (1, 2, 3, 3));
}

#[test]
fn entry_set_has_checksum_and_hash() {
    let set = build_entry_set(b"A", 5, 7);
    assert_eq!(set.len(), 96);
    assert_eq!(set[0], 0x85);
    assert_eq!(set[1], 2);
    assert_eq!(set[32], 0xC0);
    assert_eq!(set[33], 3);
    assert_eq!(set[35], 1);
    assert_eq!(set[64], 0xC1);
    assert_eq!(set[66], b'A');
    assert_eq!(u32::from_le_bytes([set[52], set[53], set[54], set[55]]), 7);
    assert_eq!(u16::from_le_bytes([set[2], set[3]]), entry_set_checksum(&set));
    // 'A' is 0x41: added, then rotated right once and zero added.
    assert_eq!(name_hash(b"A"), 0x8020);
    assert_eq!(name_hash(b"a"), name_hash(b"A"));
}

#[test]
fn checksum_skips_its_own_field() {
    assert_eq!(entry_set_checksum(&[1, 0, 0xFF, 0xFF]), 0x8000);
    assert_eq!(entry_set_checksum(&[1, 0, 0, 0]), 0x8000);
}

#[test]
fn ascii_names_match_in_either_case() {
    assert!(names_equal_ascii("README.txt", "readme.TXT"));
    assert!(!names_equal_ascii("README", "READM"));
}

#[test]
fn demo_creates_once_and_finds_again() {
    let mut out = Vec::new();
    let mut step = FsStep::Mount;
    step = demo(step, &FsEvent::Mounted(true), &mut out);
    step = demo(step, &FsEvent::Listed, &mut out);
    step = demo(step, &FsEvent::Contents(Some(b"hi\x01 there\n".to_vec())), &mut out);
    assert_eq!(out, b"[FS] README.TXT: hi there\n");
    assert_eq!(step, FsStep::ReadOurs);
    assert_eq!(demo(step, &FsEvent::Contents(Some(vec![0; 7])), &mut Vec::new()), FsStep::ListAfter);
    step = demo(step, &FsEvent::Contents(None), &mut out);
    assert_eq!(step, FsStep::Create);
    step = demo(step, &FsEvent::Created(Ok(())), &mut out);
    out.clear();
    step = demo(step, &FsEvent::Contents(Some(CONTENT.as_bytes().to_vec())), &mut out);
    assert_eq!(out, b"[FS] Created MMURTL.TXT (108 bytes), read-back verified\n");
    step = demo(step, &FsEvent::Listed, &mut out);
    assert_eq!(step, FsStep::Ended);
}

#[test]
fn demo_reports_failures() {
    assert_eq!(demo(FsStep::Mount, &FsEvent::Mounted(false), &mut Vec::new()), FsStep::Ended);
    let mut out = Vec::new();
    let next = demo(FsStep::Create, &FsEvent::Created(Err(CreateError::NoSpace)), &mut out);
    assert_eq!(next, FsStep::ListAfter);
    assert_eq!(out, b"[FS] create_file failed: no contiguous space\n");
    out.clear();
    demo(FsStep::ReadBack, &FsEvent::Contents(Some(b"other".to_vec())), &mut out);
    assert_eq!(out, b"[FS] Created MMURTL.TXT but READ-BACK FAILED\n");
}
