use std::io::Cursor;
use std::io::Read;

use vvf::naming::{frame_entry_name, frame_index_width, push_decimal, push_padded};
use vvf::{create_meta, has_packer, has_player, hello, inspect, pack_vvf_native, version, VvfError};

fn read_entry(bytes: &[u8], name: &str) -> Vec<u8> {
    let mut archive = zip::ZipArchive::new(Cursor::new(bytes.to_vec())).unwrap();
    let mut file = archive.by_name(name).unwrap();
    let mut out = Vec::new();
    file.read_to_end(&mut out).unwrap();
    out
}

fn entry_names(bytes: &[u8]) -> Vec<String> {
    let mut archive = zip::ZipArchive::new(Cursor::new(bytes.to_vec())).unwrap();
    let mut names = Vec::new();
    for i in 0..archive.len() {
        names.push(archive.by_index(i).unwrap().name().to_string());
    }
    names
}

#[test]
fn test_version() {
    let v = version();
    assert!(!v.is_empty());
}

#[test]
fn test_pack_vvf_native_simple() {
    let frames = vec![
        "<svg><text>Frame 0</text></svg>".to_string(),
        "<svg><text>Frame 1</text></svg>".to_string(),
    ];
    let result = pack_vvf_native(12, frames, None);
    assert!(result.is_ok());

    let bytes = result.unwrap();
    assert!(bytes.len() > 0);
    assert_eq!(&bytes[0..2], b"PK");
}

#[test]
fn test_pack_vvf_native_with_audio() {
    let frames = vec!["<svg></svg>".to_string()];
    let audio = vec![0xFF, 0xFB, 0x00, 0x00];
    let result = pack_vvf_native(24, frames, Some(audio));
    assert!(result.is_ok());

    let bytes = result.unwrap();
    assert!(bytes.len() > 0);
    assert_eq!(&bytes[0..2], b"PK");
}

#[test]
fn probes_report_capabilities() {
    assert!(has_packer());
    assert!(has_player());
    assert_eq!(hello(), "vectovid core (wasm) initialized");
    assert_eq!(version(), "0.1.0");
}

#[test]
fn empty_frame_list_packs_and_inspects() {
    let bytes = pack_vvf_native(30, vec![], None).unwrap();
    let summary = inspect(&bytes).unwrap();
    assert_eq!(summary.frame_entry_count, 0);
    let meta: serde_json::Value = serde_json::from_str(summary.meta_json.as_deref().unwrap()).unwrap();
    assert_eq!(meta["frameCount"], 0);
    assert_eq!(meta["fps"], 30);
    assert_eq!(entry_names(&bytes), vec!["meta.json".to_string()]);
}

#[test]
fn frame_entry_count_matches_frames() {
    let frames: Vec<String> = (0..5).map(|i| format!("<svg>{}</svg>", i)).collect();
    let bytes = pack_vvf_native(10, frames, None).unwrap();
    assert_eq!(inspect(&bytes).unwrap().frame_entry_count, 5);
}

#[test]
fn round_trip_metadata_without_audio() {
    let frames = vec!["<svg/>".to_string(); 3];
    let bytes = pack_vvf_native(8, frames, None).unwrap();
    let summary = inspect(&bytes).unwrap();
    let meta: serde_json::Value = serde_json::from_str(summary.meta_json.as_deref().unwrap()).unwrap();
    assert_eq!(meta["frameCount"], 3);
    assert_eq!(meta["hasAudio"], false);
    assert!(meta["audioFile"].is_null());
}

#[test]
fn round_trip_metadata_with_audio() {
    let frames = vec!["<svg/>".to_string(); 2];
    let bytes = pack_vvf_native(8, frames, Some(vec![1, 2, 3])).unwrap();
    let summary = inspect(&bytes).unwrap();
    assert_eq!(summary.frame_entry_count, 2);
    let meta: serde_json::Value = serde_json::from_str(summary.meta_json.as_deref().unwrap()).unwrap();
    assert_eq!(meta["frameCount"], 2);
    assert_eq!(meta["hasAudio"], true);
    assert_eq!(meta["audioFile"], "audio.mp3");
}

#[test]
fn frames_keep_their_positions() {
    let frames = vec!["A".to_string(), "B".to_string(), "C".to_string()];
    let bytes = pack_vvf_native(12, frames, None).unwrap();
    assert_eq!(
        entry_names(&bytes),
        vec!["frames/000.svg", "frames/001.svg", "frames/002.svg", "meta.json"]
    );
    assert_eq!(read_entry(&bytes, "frames/000.svg"), b"A".to_vec());
    assert_eq!(read_entry(&bytes, "frames/001.svg"), b"B".to_vec());
    assert_eq!(read_entry(&bytes, "frames/002.svg"), b"C".to_vec());
}

#[test]
fn frames_keep_positions_against_content_order() {
    let frames = vec!["Z".to_string(), "A".to_string()];
    let bytes = pack_vvf_native(12, frames, None).unwrap();
    assert_eq!(read_entry(&bytes, "frames/000.svg"), b"Z".to_vec());
    assert_eq!(read_entry(&bytes, "frames/001.svg"), b"A".to_vec());
}

#[test]
fn inspecting_twice_gives_the_same_summary() {
    let bytes = pack_vvf_native(12, vec!["<svg/>".to_string()], Some(vec![9])).unwrap();
    let copy = bytes.clone();
    let first = inspect(&bytes).unwrap();
    let second = inspect(&bytes).unwrap();
    assert_eq!(first, second);
    assert_eq!(bytes, copy);
}

#[test]
fn example_two_frames_metadata() {
    let frames = vec![
        "<svg><text>Frame 0</text></svg>".to_string(),
        "<svg><text>Frame 1</text></svg>".to_string(),
    ];
    let bytes = pack_vvf_native(12, frames, None).unwrap();
    assert_eq!(&bytes[0..4], b"PK\x03\x04");
    let names = entry_names(&bytes);
    assert!(names.contains(&"frames/000.svg".to_string()));
    assert!(names.contains(&"frames/001.svg".to_string()));
    let text = String::from_utf8(read_entry(&bytes, "meta.json")).unwrap();
    let meta: serde_json::Value = serde_json::from_str(&text).unwrap();
    let expected: serde_json::Value = serde_json::from_str(
        r#"{"version":"1.0","fps":12,"frameCount":2,"width":400,"height":300,"hasAudio":false,"audioFile":null}"#,
    )
    .unwrap();
    assert_eq!(meta, expected);
}

#[test]
fn example_audio_entry_holds_its_bytes() {
    let audio = vec![0xFF, 0xFB, 0x00, 0x00];
    let bytes = pack_vvf_native(24, vec!["<svg></svg>".to_string()], Some(audio.clone())).unwrap();
    assert_eq!(read_entry(&bytes, "audio.mp3"), audio);
    let text = String::from_utf8(read_entry(&bytes, "meta.json")).unwrap();
    let meta: serde_json::Value = serde_json::from_str(&text).unwrap();
    assert_eq!(meta["hasAudio"], true);
    assert_eq!(meta["audioFile"], "audio.mp3");
    assert_eq!(meta["fps"], 24);
}

#[test]
fn metadata_text_is_indented_json() {
    let bytes = pack_vvf_native(12, vec!["<svg/>".to_string(); 2], None).unwrap();
    let text = String::from_utf8(read_entry(&bytes, "meta.json")).unwrap();
    let expected = "{\n  \"version\": \"1.0\",\n  \"fps\": 12,\n  \"frameCount\": 2,\n  \"width\": 400,\n  \"height\": 300,\n  \"hasAudio\": false,\n  \"audioFile\": null\n}";
    assert_eq!(text, expected);
}

#[test]
fn malformed_bytes_are_corrupt() {
    assert_eq!(inspect(&b"definitely not an archive".to_vec()), Err(VvfError::CorruptArchive));
    assert_eq!(inspect(&Vec::new()), Err(VvfError::CorruptArchive));
}

#[test]
fn archive_without_metadata_is_reported() {
    let mut buffer = Cursor::new(Vec::new());
    {
        let mut writer = zip::ZipWriter::new(&mut buffer);
        writer.start_file("frames/000.svg", zip::write::FileOptions::default()).unwrap();
        std::io::Write::write_all(&mut writer, b"<svg/>").unwrap();
        writer.start_file("other.txt", zip::write::FileOptions::default()).unwrap();
        writer.finish().unwrap();
    }
    let summary = inspect(&buffer.into_inner()).unwrap();
    assert_eq!(summary.meta_json, None);
    assert_eq!(summary.frame_entry_count, 1);
}

#[test]
fn many_frames_widen_the_index() {
    let frames = vec!["<svg/>".to_string(); 1001];
    let bytes = pack_vvf_native(12, frames, None).unwrap();
    assert_eq!(inspect(&bytes).unwrap().frame_entry_count, 1001);
    let names = entry_names(&bytes);
    assert_eq!(names[0], "frames/0000.svg");
    assert_eq!(names[1000], "frames/1000.svg");
    let mut sorted = names[..1001].to_vec();
    sorted.sort();
    assert_eq!(sorted, names[..1001].to_vec());
}

#[test]
fn entry_names_are_zero_padded() {
    assert_eq!(frame_entry_name(0, 3), "frames/000.svg");
    assert_eq!(frame_entry_name(12, 3), "frames/012.svg");
    assert_eq!(frame_entry_name(999, 3), "frames/999.svg");
    assert_eq!(frame_entry_name(1000, 4), "frames/1000.svg");
}

#[test]
fn index_width_grows_past_a_thousand() {
    assert_eq!(frame_index_width(0), 3);
    assert_eq!(frame_index_width(1000), 3);
    assert_eq!(frame_index_width(1001), 4);
    assert_eq!(frame_index_width(10000), 4);
    assert_eq!(frame_index_width(10001), 5);
}

#[test]
fn decimal_rendering() {
    let mut s = String::from("n=");
    push_decimal(&mut s, 0);
    assert_eq!(s, "n=0");
    let mut s = String::new();
    push_decimal(&mut s, 18446744073709551615);
    assert_eq!(s, "18446744073709551615");
    let mut s = String::new();
    push_padded(&mut s, 7, 3);
    assert_eq!(s, "007");
}

#[test]
fn create_meta_keeps_fields() {
    let m = create_meta(25, 7, 640, 480, true, Some("audio.mp3".to_string()));
    assert_eq!(m.version, "1.0");
    assert_eq!(m.fps, 25);
    assert_eq!(m.frame_count, 7);
    assert_eq!(m.width, 640);
    assert_eq!(m.height, 480);
    assert!(m.has_audio);
    assert_eq!(m.audio_file.as_deref(), Some("audio.mp3"));
    assert_eq!(
        m.to_json(),
        "{\n  \"version\": \"1.0\",\n  \"fps\": 25,\n  \"frameCount\": 7,\n  \"width\": 640,\n  \"height\": 480,\n  \"hasAudio\": true,\n  \"audioFile\": \"audio.mp3\"\n}"
    );
}

#[test]
fn frame_prefix_check() {
    assert!(vvf::archive::is_frame_entry(b"frames/000.svg"));
    assert!(vvf::archive::is_frame_entry(b"frames/"));
    assert!(!vvf::archive::is_frame_entry(b"frames"));
    assert!(!vvf::archive::is_frame_entry(b"audio.mp3"));
    assert!(!vvf::archive::is_frame_entry(b"Frames/000.svg"));
}

#[test]
fn metadata_strings_are_escaped() {
    let name = "a\"b\\c\nd\te\u{1}\u{1f}é".to_string();
    let m = create_meta(1, 0, 1, 1, true, Some(name.clone()));
    let text = m.to_json();
    assert!(text.ends_with("\"audioFile\": \"a\\\"b\\\\c\\nd\\te\\u0001\\u001fé\"\n}"));
    let v: serde_json::Value = serde_json::from_str(&text).unwrap();
    assert_eq!(v["audioFile"], serde_json::Value::String(name));
}

#[test]
fn entry_marked_aes_without_encryption_does_not_panic() {
    let mut buffer = Cursor::new(Vec::new());
    {
        let mut writer = zip::ZipWriter::new(&mut buffer);
        let options = zip::write::FileOptions::default();
        writer.start_file_with_extra_data("frames/000.svg", options).unwrap();
        std::io::Write::write_all(&mut writer, &[0xEF, 0xBE, 7, 0, 0x02, 0x00, 0x41, 0x45, 0x03, 0x08, 0x00]).unwrap();
        writer.end_extra_data().unwrap();
        std::io::Write::write_all(&mut writer, b"<svg/>").unwrap();
        writer.start_file_with_extra_data("meta.json", options).unwrap();
        std::io::Write::write_all(&mut writer, &[0xEF, 0xBE, 7, 0, 0x02, 0x00, 0x41, 0x45, 0x03, 0x08, 0x00]).unwrap();
        writer.end_extra_data().unwrap();
        std::io::Write::write_all(&mut writer, b"{}").unwrap();
        writer.finish().unwrap();
    }
    let mut bytes = buffer.into_inner();
    let mut marked = 0;
    for i in 0..bytes.len() - 3 {
        if bytes[i..i + 4] == [0xEF, 0xBE, 7, 0] {
            bytes[i] = 0x01;
            bytes[i + 1] = 0x99;
            marked += 1;
        }
    }
    assert_eq!(marked, 4);
    let summary = inspect(&bytes).unwrap();
    assert_eq!(summary.frame_entry_count, 1);
    assert_eq!(summary.meta_json, None);
}
