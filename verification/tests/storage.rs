use lib::axfs::AxFs;
use lib::edisondb::{log_event, EdisonDb, Tier};
use lib::kernel::virtio_blk::{
    is_blk_device, sector_lookup, store_format, store_read, store_valid, store_write, DATA_SECTOR_COUNT,
    ENTRIES_PER_SECTOR, ENTRY_SIZE, SECTOR_SIZE, SOV_MAGIC,
};

// ── AXFS ──────────────────────────────────────────────────────────────────────

fn fs() -> AxFs {
    let mut fs = AxFs::new();
    fs.init();
    fs
}

#[test]
fn init_seeds_readme() {
    let fs = fs();
    assert!(fs.is_live());
    assert!(fs.count() >= 1);
    let f = fs.file_at(0).unwrap();
    assert_eq!(f.name_bytes(), b"readme.txt");
}

#[test]
fn write_and_find() {
    let mut fs = fs();
    assert!(fs.write(b"hello.txt", b"sovereign"));
    let idx = fs.find(b"hello.txt").expect("file not found");
    let f = fs.file_at(idx).unwrap();
    assert_eq!(f.data_bytes(), b"sovereign");
}

#[test]
fn write_upserts_in_place() {
    let mut fs = fs();
    fs.write(b"uptest.txt", b"v1");
    let before = fs.count();
    fs.write(b"uptest.txt", b"v2");
    assert_eq!(fs.count(), before);
    let idx = fs.find(b"uptest.txt").unwrap();
    assert_eq!(fs.file_at(idx).unwrap().data_bytes(), b"v2");
}

#[test]
fn find_missing_returns_none() {
    let fs = fs();
    assert!(fs.find(b"ghost.txt").is_none());
}

#[test]
fn axfs_init_twice_keeps_files() {
    let mut fs = fs();
    assert!(fs.write(b"a.txt", b"1"));
    let n = fs.count();
    fs.init();
    assert_eq!(fs.count(), n);
}

#[test]
fn axfs_full_refuses_new_files() {
    let mut fs = fs();
    let names: [&[u8]; 7] = [b"f1", b"f2", b"f3", b"f4", b"f5", b"f6", b"f7"];
    for n in names.iter() {
        assert!(fs.write(n, b"x"));
    }
    assert_eq!(fs.count(), 8);
    assert!(!fs.write(b"f8", b"x"));
    assert!(fs.write(b"f3", b"updated"));
    assert_eq!(fs.file_at(fs.find(b"f3").unwrap()).unwrap().data_bytes(), b"updated");
}

// ── EdisonDB ──────────────────────────────────────────────────────────────────

#[test]
fn init_is_live_and_seeds_proof() {
    let mut db = EdisonDb::new();
    db.init();
    assert!(db.is_live());
    assert_eq!(db.read("boot:proof"), Some(0x4153));
}

#[test]
fn write_appends_and_read_finds() {
    let mut db = EdisonDb::new();
    let before = db.count();
    assert!(db.write("test:alpha", 7, Tier::Personal));
    assert_eq!(db.count(), before + 1);
    assert_eq!(db.read("test:alpha"), Some(7));
}

#[test]
fn lib_write_upserts_in_place() {
    let mut db = EdisonDb::new();
    assert!(db.write("test:upsert", 1, Tier::Noise));
    let after_first = db.count();
    assert!(db.write("test:upsert", 2, Tier::Critical));
    assert_eq!(db.count(), after_first);
    assert_eq!(db.read("test:upsert"), Some(2));
}

#[test]
fn read_missing_returns_none() {
    let db = EdisonDb::new();
    assert_eq!(db.read("test:missing"), None);
}

#[test]
fn log_event_is_idempotent_on_space() {
    let mut db = EdisonDb::new();
    assert!(log_event(&mut db, "test:event"));
    let after_first = db.count();
    assert!(log_event(&mut db, "test:event"));
    assert_eq!(db.count(), after_first);
}

#[test]
fn edisondb_read_after_write_leaves_others() {
    let mut db = EdisonDb::new();
    db.init();
    assert!(db.write("a", 1, Tier::Noise));
    assert!(db.write("b", 2, Tier::Noise));
    assert!(db.write("a", 3, Tier::Noise));
    assert_eq!(db.read("a"), Some(3));
    assert_eq!(db.read("b"), Some(2));
    assert_eq!(db.read("boot:proof"), Some(0x4153));
}

// ── Sovereign store on the block device ───────────────────────────────────────

#[test]
fn sov_magic_correct() {
    assert_eq!(&SOV_MAGIC, b"AXSOV001");
}

#[test]
fn sector_size_is_512() {
    assert_eq!(SECTOR_SIZE, 512);
}

#[test]
fn entry_size_fits_sector() {
    assert!(ENTRIES_PER_SECTOR * ENTRY_SIZE <= SECTOR_SIZE);
}

#[test]
fn virtio_blk_init_returns_false_on_host() {
    // With no device behind the slot its identification registers read zero.
    assert!(!is_blk_device(0, 0, 0));
    assert!(is_blk_device(0x74726976, 1, 2));
    assert!(!is_blk_device(0x74726976, 2, 2));
}

fn blank_image() -> Vec<Vec<u8>> {
    vec![vec![0u8; SECTOR_SIZE]; DATA_SECTOR_COUNT]
}

#[test]
fn store_read_returns_none_on_host() {
    assert!(store_read(&blank_image(), b"user:tz").is_none());
}

#[test]
fn store_format_then_valid() {
    let sec = store_format(0xA1E0_4153_0000_0001);
    assert_eq!(sec.len(), SECTOR_SIZE);
    assert!(store_valid(&sec));
    assert_eq!(&sec[0..8], b"AXSOV001");
    assert_eq!(&sec[8..16], &0xA1E0_4153_0000_0001u64.to_le_bytes());
    assert!(sec[16..].iter().all(|b| *b == 0));
    assert!(!store_valid(&[0u8; SECTOR_SIZE]));
    assert!(!store_valid(b"AXSOV"));
}

#[test]
fn store_write_then_read() {
    let mut img = blank_image();
    assert_eq!(store_write(&mut img, b"user:tz", 8), Some(0));
    assert_eq!(store_read(&img, b"user:tz"), Some(8));
    assert_eq!(&img[0][0..7], b"user:tz");
    assert_eq!(&img[0][32..40], &8u64.to_le_bytes());
    assert_eq!(store_write(&mut img, b"user:lang", 2), Some(0));
    assert_eq!(store_write(&mut img, b"user:tz", 9), Some(0));
    assert_eq!(store_read(&img, b"user:tz"), Some(9));
    assert_eq!(store_read(&img, b"user:lang"), Some(2));
    assert_eq!(sector_lookup(&img[0], b"user:lang"), Some(2));
    assert_eq!(store_read(&img, b"user"), None);
    assert_eq!(store_read(&img, b"user:tzx"), None);
}

#[test]
fn store_keys_match_on_first_32_bytes() {
    let mut img = blank_image();
    let long_a = [b'k'; 40];
    let mut long_b = [b'k'; 40];
    long_b[39] = b'z';
    assert_eq!(store_write(&mut img, &long_a, 5), Some(0));
    assert_eq!(store_read(&img, &long_b), Some(5));
}

#[test]
fn store_spills_to_next_sector_and_fills_up() {
    let mut img = blank_image();
    for i in 0..(ENTRIES_PER_SECTOR * DATA_SECTOR_COUNT) {
        let key = format!("k{}", i);
        let s = store_write(&mut img, key.as_bytes(), i as u64).unwrap();
        assert_eq!(s, i / ENTRIES_PER_SECTOR);
    }
    assert_eq!(store_write(&mut img, b"one-more", 1), None);
    assert_eq!(store_read(&img, b"k13"), Some(13));
    assert_eq!(store_read(&img, b"k179"), Some(179));
    assert_eq!(store_write(&mut img, b"k13", 99), Some(1));
    assert_eq!(store_read(&img, b"k13"), Some(99));
}

#[test]
fn store_empty_key_is_never_found() {
    let mut img = blank_image();
    assert_eq!(store_write(&mut img, b"", 7), Some(0));
    assert_eq!(store_read(&img, b""), None);
}
