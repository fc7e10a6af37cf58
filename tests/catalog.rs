use song_sync::catalog::{
    find_local, folder_checksum, is_checksum_file, is_song_folder, parse_folder_name,
    resolve_requested, SongFolder, SongFolderError,
};
use song_sync::decimal::{parse_u64, u64_to_decimal};

const EMPTY_DIGEST: &str = "E3B0C44298FC1C149AFBF4C8996FB92427AE41E4649B934CA495991B7852B855";
const ABC_DIGEST: &str = "BA7816BF8F01CFEA414140DE5DAE2223B00361A396177A9CB410FF61F20015AD";

fn entry(id: u64, name: &str, checksum: &str) -> SongFolder {
    SongFolder { id, name: name.to_string(), checksum: checksum.to_string(), path: None }
}

#[test]
fn folder_name_with_number() {
    assert_eq!(
        parse_folder_name("1752 Camellia - Exit This Earth's Atomosphere"),
        Some((1752, "Camellia - Exit This Earth's Atomosphere".to_string()))
    );
}

#[test]
fn folder_name_without_digits_has_id_zero() {
    assert_eq!(parse_folder_name(" A - B"), Some((0, "A - B".to_string())));
}

#[test]
fn folder_name_with_huge_number_has_id_zero() {
    assert_eq!(parse_folder_name("99999999999999999999 A - B"), Some((0, "A - B".to_string())));
    assert_eq!(
        parse_folder_name("18446744073709551615 A - B"),
        Some((u64::MAX, "A - B".to_string()))
    );
}

#[test]
fn folder_name_keeps_everything_after_first_space() {
    assert_eq!(parse_folder_name("7 x - y - z"), Some((7, "x - y - z".to_string())));
    assert_eq!(parse_folder_name("8  - - -"), Some((8, " - - -".to_string())));
}

#[test]
fn folder_names_that_do_not_match() {
    assert_eq!(parse_folder_name("abc A - B"), None);
    assert_eq!(parse_folder_name("12 AB"), None);
    assert_eq!(parse_folder_name("12 A - "), None);
    assert_eq!(parse_folder_name("12  - B"), None);
    assert_eq!(parse_folder_name("12A - B"), None);
    assert_eq!(parse_folder_name("12 A -\nB - C"), None);
    assert_eq!(parse_folder_name(""), None);
}

#[test]
fn song_folder_needs_a_directory() {
    assert!(is_song_folder(true, Some("3030 A - B")));
    assert!(!is_song_folder(false, Some("3030 A - B")));
    assert!(!is_song_folder(true, None));
    assert!(!is_song_folder(true, Some("Songs")));
}

#[test]
fn checksum_files_end_in_osu() {
    assert!(is_checksum_file("a [Hard].osu"));
    assert!(is_checksum_file(".osu"));
    assert!(!is_checksum_file("audio.ogg"));
    assert!(!is_checksum_file("x.osu.bak"));
    assert!(!is_checksum_file("osu"));
}

#[test]
fn checksum_of_folder_without_beatmaps_is_digest_of_nothing() {
    assert_eq!(folder_checksum(&vec![]), EMPTY_DIGEST);
    let files = vec![("bg.jpg".to_string(), vec![1, 2, 3]), ("a.ogg".to_string(), vec![9])];
    assert_eq!(folder_checksum(&files), EMPTY_DIGEST);
}

#[test]
fn checksum_reads_only_beatmaps_in_order() {
    let files = vec![
        ("a.osu".to_string(), b"ab".to_vec()),
        ("bg.jpg".to_string(), b"zzz".to_vec()),
        ("b.osu".to_string(), b"c".to_vec()),
    ];
    assert_eq!(folder_checksum(&files), ABC_DIGEST);
    let again = folder_checksum(&files);
    assert_eq!(folder_checksum(&files), again);
}

#[test]
fn new_entry_from_folder() {
    let files = vec![("x.osu".to_string(), b"abc".to_vec())];
    let e = SongFolder::new(
        "/songs/9040 A - B".to_string(),
        true,
        Some("9040 A - B".to_string()),
        &files,
    )
    .unwrap();
    assert_eq!(e.id, 9040);
    assert_eq!(e.name, "A - B");
    assert_eq!(e.checksum, ABC_DIGEST);
    assert_eq!(e.path, Some("/songs/9040 A - B".to_string()));
}

#[test]
fn new_entry_errors() {
    match SongFolder::new("/songs/f".to_string(), false, Some("1 A - B".to_string()), &vec![]) {
        Err(SongFolderError::InvalidPath(p)) => assert_eq!(p, "/songs/f"),
        other => panic!("unexpected {:?}", other),
    }
    match SongFolder::new("/".to_string(), true, None, &vec![]) {
        Err(SongFolderError::InvalidPath(p)) => assert_eq!(p, "/"),
        other => panic!("unexpected {:?}", other),
    }
    match SongFolder::new("/songs/Misc".to_string(), true, Some("Misc".to_string()), &vec![]) {
        Err(SongFolderError::InvalidFolderName(n)) => assert_eq!(n, "Misc"),
        other => panic!("unexpected {:?}", other),
    }
}

#[test]
fn rescanning_gives_same_entry() {
    let files = vec![("x.osu".to_string(), b"hello".to_vec())];
    let a = SongFolder::new("/s/5445 P - Q".to_string(), true, Some("5445 P - Q".to_string()), &files).unwrap();
    let b = SongFolder::new("/s/5445 P - Q".to_string(), true, Some("5445 P - Q".to_string()), &files).unwrap();
    assert_eq!((a.id, a.name, a.checksum, a.path), (b.id, b.name, b.checksum, b.path));
}

#[test]
fn folder_name_round_trip() {
    for (id, title) in [(0u64, "A - B"), (8830, "x - y"), (u64::MAX, "Long Artist - Song (TV Size)")] {
        let name = format!("{} {}", u64_to_decimal(id), title);
        assert_eq!(parse_folder_name(&name), Some((id, title.to_string())));
    }
}

#[test]
fn decimal_text() {
    assert_eq!(u64_to_decimal(0), "0");
    assert_eq!(u64_to_decimal(14848656), "14848656");
    assert_eq!(u64_to_decimal(u64::MAX), "18446744073709551615");
    assert_eq!(parse_u64("17795233"), Some(17795233));
    assert_eq!(parse_u64("007"), Some(7));
    assert_eq!(parse_u64(""), None);
    assert_eq!(parse_u64("12a"), None);
    assert_eq!(parse_u64("-1"), None);
    assert_eq!(parse_u64("18446744073709551616"), None);
}

#[test]
fn request_resolves_by_id_and_name() {
    let local = vec![entry(1, "A - B", "X"), entry(2, "C - D", "Y"), entry(2, "C - D", "Z")];
    let req = vec![entry(2, "C - D", ""), entry(1, "A - B", "other")];
    let found = resolve_requested(&local, &req).unwrap();
    assert_eq!(found.len(), 2);
    assert_eq!(found[0].checksum, "Y");
    assert_eq!(found[1].checksum, "X");
    assert_eq!(find_local(&local, &entry(2, "C - D", "")), Some(1));
}

#[test]
fn request_for_missing_folder_is_refused() {
    let local = vec![entry(1, "A - B", "X")];
    let req = vec![entry(1, "A - B", ""), entry(1, "A - C", ""), entry(3, "Q - R", "")];
    assert_eq!(resolve_requested(&local, &req).err(), Some(1));
    assert_eq!(find_local(&local, &entry(3, "Q - R", "")), None);
}
