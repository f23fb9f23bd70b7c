use ferrum::acquire::{decide, has_archive_extension, pending_pairs, probe_ok, trust_existing, Action};
use ferrum::archive::{inspect, Archive, ArchiveVerdict, Extracted};
use ferrum::manifest::{AssetRecord, ExtractPair, Manifest};
use ferrum::naming::{artifact_name, name_from_decoded, source_name};
use ferrum::profile::{first_index_of, manifest_file, str_eq, strip_prefix, table_lookup, EmulatorProfile, Resolution};
use ferrum::progress::{percent_e4, spinner_char, ProgressMeter, ProgressReport};
use std::io::Write;

fn s(x: &str) -> String {
    x.to_string()
}

fn ids(xs: &[&str]) -> Vec<String> {
    xs.iter().map(|x| x.to_string()).collect()
}

fn record(download: &str) -> AssetRecord {
    AssetRecord { download: s(download), copy_to: None, extract_to: None, require: None, required: None }
}

fn pair(src: &str, dst: &str) -> ExtractPair {
    ExtractPair::new(s(src), s(dst))
}

fn zip_of(members: &[(&str, &[u8])]) -> Vec<u8> {
    let mut w = zip::ZipWriter::new(std::io::Cursor::new(Vec::new()));
    let opts = zip::write::SimpleFileOptions::default().compression_method(zip::CompressionMethod::Stored);
    for (name, data) in members {
        w.start_file(*name, opts).unwrap();
        w.write_all(data).unwrap();
    }
    w.finish().unwrap().into_inner()
}

fn sample_manifest() -> Manifest {
    let mut root = record("https://example/root.zip");
    root.require = Some(ids(&["a", "b"]));
    root.required = Some(ids(&["c"]));
    let mut alias = record("https://example/alias.zip");
    alias.required = Some(ids(&["c", "c"]));
    Manifest {
        entries: vec![
            (s("root"), root),
            (s("alias"), alias),
            (s("plain"), record("https://example/plain.zip")),
        ],
    }
}

#[test]
fn expand_require_takes_precedence() {
    let m = sample_manifest();
    assert_eq!(m.expand(&s("root")), ids(&["root", "a", "b"]));
}

#[test]
fn expand_falls_back_to_required() {
    let m = sample_manifest();
    assert_eq!(m.expand(&s("alias")), ids(&["alias", "c", "c"]));
}

#[test]
fn expand_without_dependencies() {
    let m = sample_manifest();
    assert_eq!(m.expand(&s("plain")), ids(&["plain"]));
}

#[test]
fn expand_unknown_root_is_empty() {
    let m = sample_manifest();
    assert!(m.expand(&s("nothere")).is_empty());
}

#[test]
fn lookup_finds_first_entry() {
    let m = Manifest { entries: vec![(s("x"), record("u1")), (s("x"), record("u2"))] };
    assert_eq!(m.lookup(&s("x")), Some(0));
    assert_eq!(m.record(&s("x")).unwrap().download, s("u1"));
    assert_eq!(m.lookup(&s("y")), None);
}

#[test]
fn name_after_last_equals() {
    assert_eq!(artifact_name("https://example/get?file=rom.zip", &None), Some(s("rom.zip")));
}

#[test]
fn name_from_copy_to() {
    assert_eq!(artifact_name("https://example/get?file=rom.zip", &Some(s("custom.bin"))), Some(s("custom.bin")));
    assert_eq!(artifact_name("%FF", &Some(s("custom.bin"))), Some(s("custom.bin")));
}

#[test]
fn name_after_last_slash() {
    assert_eq!(source_name("https://example/dir/game.7z"), Some(s("game.7z")));
}

#[test]
fn name_is_percent_decoded() {
    assert_eq!(source_name("https://example/dir/my%20game.zip"), Some(s("my game.zip")));
    assert_eq!(source_name("https://example/get?f%3Dx=a%2Fb.zip"), Some(s("a/b.zip")));
}

#[test]
fn name_without_separators_is_whole() {
    assert_eq!(name_from_decoded("rom.zip"), s("rom.zip"));
    assert_eq!(name_from_decoded("dir/"), s(""));
}

#[test]
fn name_of_undecodable_url() {
    assert_eq!(source_name("https://example/%FF.zip"), None);
}

#[test]
fn progress_reports_fewer_than_chunks() {
    let mut m = ProgressMeter::new(1000);
    let mut reports = 0;
    for _ in 0..1000 {
        if m.on_chunk(1, 1_000_000).is_some() {
            reports += 1;
        }
    }
    assert_eq!(reports, 9);
    assert!(reports < 1000);
    assert_eq!(m.bytes_written, 1000);
}

#[test]
fn progress_report_contents() {
    let mut m = ProgressMeter::new(3);
    assert_eq!(m.on_chunk(1, 100_000_000), None);
    assert_eq!(m.on_chunk(0, 1), Some(ProgressReport { spinner: '|', percent_e4: 333333 }));
    assert_eq!(m.elapsed_nanos, 0);
    assert_eq!(m.on_chunk(1, 200_000_000), Some(ProgressReport { spinner: '/', percent_e4: 666667 }));
    assert_eq!(m.elapsed_nanos, 0);
    assert_eq!(m.on_chunk(1, 1), None);
    assert_eq!(m.elapsed_nanos, 1);
    assert_eq!(m.frame, 2);
}

#[test]
fn progress_long_stall_saturates() {
    let mut m = ProgressMeter::new(0);
    assert!(m.on_chunk(u64::MAX, u64::MAX).is_some());
    assert!(m.on_chunk(u64::MAX, u64::MAX).is_some());
    assert_eq!(m.bytes_written, u64::MAX);
    assert_eq!(m.elapsed_nanos, 0);
}

#[test]
fn percent_values() {
    assert_eq!(percent_e4(1, 3), 333333);
    assert_eq!(percent_e4(2, 3), 666667);
    assert_eq!(percent_e4(1, 8), 125000);
    assert_eq!(percent_e4(1, 1_000_000_000_000), 0);
    assert_eq!(percent_e4(50, 200), 250000);
    assert_eq!(percent_e4(5, 0), 0);
    assert_eq!(percent_e4(u64::MAX, u64::MAX), 1000000);
}

#[test]
fn spinner_frames_rotate() {
    let frames: Vec<char> = (0..4).map(spinner_char).collect();
    assert_eq!(frames, vec!['|', '/', '-', '\\']);
}

#[test]
fn selective_extraction() {
    let bytes = zip_of(&[("a.bin", b"AAA"), ("b.bin", b"BBB"), ("c.bin", b"CCC")]);
    let mut a = Archive::open(bytes).unwrap();
    assert_eq!(a.len(), 3);
    let out = a.extract(&vec![pair("a.bin", "roms/a.bin"), pair("c.bin", "sub/c.bin")]);
    assert_eq!(
        out,
        vec![
            Extracted::Written { dst: s("roms/a.bin"), data: b"AAA".to_vec() },
            Extracted::Written { dst: s("sub/c.bin"), data: b"CCC".to_vec() },
        ]
    );
}

#[test]
fn missing_member_tolerated() {
    let bytes = zip_of(&[("a.bin", b"AAA"), ("b.bin", b"BBB")]);
    let mut a = Archive::open(bytes).unwrap();
    let out = a.extract(&vec![pair("x.bin", "x.bin"), pair("b.bin", "out/b.bin")]);
    assert_eq!(
        out,
        vec![
            Extracted::Missing { src: s("x.bin") },
            Extracted::Written { dst: s("out/b.bin"), data: b"BBB".to_vec() },
        ]
    );
}

#[test]
fn sound_archive_kept() {
    let bytes = zip_of(&[("a.bin", b"A"), ("dir/b.bin", b"B")]);
    assert_eq!(inspect(bytes), ArchiveVerdict::Sound);
}

#[test]
fn escaping_archive_detected() {
    let bytes = zip_of(&[("a.bin", b"A"), ("../evil.bin", b"E")]);
    let v = inspect(bytes);
    assert_eq!(v, ArchiveVerdict::Escaping { index: 1 });
    assert!(!trust_existing(true, &Some(v)));
}

#[test]
fn rooted_member_detected() {
    let bytes = zip_of(&[("/etc/evil", b"E")]);
    assert_eq!(inspect(bytes), ArchiveVerdict::Escaping { index: 0 });
}

#[test]
fn malformed_archive_detected() {
    assert_eq!(inspect(b"not a zip".to_vec()), ArchiveVerdict::Malformed);
}

#[test]
fn corrupt_archive_refetched() {
    let v = inspect(zip_of(&[("../x", b"x")]));
    let present = trust_existing(true, &Some(v));
    assert_eq!(decide(Some(&record("https://example/x.zip")), &vec![], present), Action::Fetch);
}

#[test]
fn existing_artifact_skipped() {
    let rec = record("https://example/x.bin");
    assert_eq!(decide(Some(&rec), &vec![], trust_existing(true, &None)), Action::Skip);
    assert_eq!(decide(Some(&rec), &vec![], trust_existing(false, &None)), Action::Fetch);
    assert!(trust_existing(true, &Some(ArchiveVerdict::Sound)));
}

#[test]
fn extracted_members_present_skipped() {
    let mut rec = record("https://example/x.zip");
    rec.extract_to = Some(vec![pair("a", "a"), pair("b", "b")]);
    assert_eq!(decide(Some(&rec), &vec![true, true], false), Action::Skip);
}

#[test]
fn plan_holds_only_missing_destinations() {
    let mut rec = record("https://example/x.zip");
    rec.extract_to = Some(vec![pair("a", "da"), pair("b", "db"), pair("c", "dc")]);
    assert_eq!(
        decide(Some(&rec), &vec![false, true, false], true),
        Action::FetchAndExtract { plan: vec![pair("a", "da"), pair("c", "dc")] }
    );
    assert_eq!(
        pending_pairs(&vec![pair("a", "da"), pair("b", "db")], &vec![true, false]),
        vec![pair("b", "db")]
    );
}

#[test]
fn unknown_asset_not_found() {
    assert_eq!(decide(None, &vec![], false), Action::NotFound);
}

#[test]
fn archive_extension() {
    assert!(has_archive_extension("roms/sf2.zip"));
    assert!(!has_archive_extension("sf2.7z"));
    assert!(!has_archive_extension("zip"));
    assert!(!has_archive_extension("a.zipx"));
}

#[test]
fn probe_status() {
    assert!(probe_ok(200));
    assert!(!probe_ok(404));
}

fn fbneo() -> EmulatorProfile {
    EmulatorProfile {
        roms_folder: s("fbneo/ROMs"),
        platforms: Some(vec![(s("md"), s("fbneo/ROMs/megadrive")), (s("nes"), s("fbneo/ROMs/nes"))]),
        prefix: None,
        dont_add_prefix_to_json_file: false,
    }
}

#[test]
fn resolve_platform_id() {
    match fbneo().resolve("fbneo", "md_sonic") {
        Resolution::Resolved { target } => {
            assert_eq!(target.platform_id, s("md"));
            assert_eq!(target.rom_id, s("sonic"));
            assert_eq!(target.roms_folder, s("fbneo/ROMs/megadrive"));
            assert_eq!(target.manifest_file, s("fbneo_md_roms.json"));
        },
        other => panic!("unexpected {:?}", other),
    }
}

#[test]
fn resolve_without_platform() {
    match fbneo().resolve("fbneo", "sfiii3") {
        Resolution::Resolved { target } => {
            assert_eq!(target.platform_id, s(""));
            assert_eq!(target.rom_id, s("sfiii3"));
            assert_eq!(target.roms_folder, s("fbneo/ROMs"));
            assert_eq!(target.manifest_file, s("fbneo_roms.json"));
        },
        other => panic!("unexpected {:?}", other),
    }
}

#[test]
fn resolve_unknown_platform() {
    assert_eq!(fbneo().resolve("fbneo", "xx_game"), Resolution::UnknownPlatform { platform_id: s("xx") });
}

#[test]
fn resolve_strips_prefix() {
    let fc1 = EmulatorProfile {
        roms_folder: s("ggpofba/ROMs"),
        platforms: None,
        prefix: Some(s("fc1_")),
        dont_add_prefix_to_json_file: true,
    };
    match fc1.resolve("fc1", "fc1_sf2") {
        Resolution::Resolved { target } => {
            assert_eq!(target.rom_id, s("sf2"));
            assert_eq!(target.roms_folder, s("ggpofba/ROMs"));
            assert_eq!(target.manifest_file, s("fc1_roms.json"));
        },
        other => panic!("unexpected {:?}", other),
    }
}

#[test]
fn prefix_and_file_names() {
    assert_eq!(strip_prefix("fc1_sf2", "fc1_"), s("sf2"));
    assert_eq!(strip_prefix("sf2", "fc1_"), s("sf2"));
    assert_eq!(strip_prefix("fc", "fc1_"), s("fc"));
    assert_eq!(manifest_file("nulldc", ""), s("nulldc_roms.json"));
}

#[test]
fn string_helpers() {
    assert_eq!(first_index_of("md_sonic_2", '_'), Some(2));
    assert_eq!(first_index_of("sonic", '_'), None);
    assert!(str_eq("abc", "abc"));
    assert!(!str_eq("abc", "abd"));
    assert!(!str_eq("abc", "ab"));
    let table = vec![(s("md"), s("first")), (s("md"), s("second")), (s("nes"), s("third"))];
    assert_eq!(table_lookup(&table, "md"), Some(s("first")));
    assert_eq!(table_lookup(&table, "nes"), Some(s("third")));
    assert_eq!(table_lookup(&table, "gg"), None);
}
