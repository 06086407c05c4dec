use fool_engine::save::{
    decode_save_file, encode_save_file, is_save_file_name, path_join, Header, SaveError,
    SaveManager,
};
use std::path::{Path, PathBuf};

/// A document: its length in four little-endian bytes, then `body`.
fn doc(body: &[u8]) -> Vec<u8> {
    let mut v = ((body.len() + 4) as u32).to_le_bytes().to_vec();
    v.extend_from_slice(body);
    v
}

#[test]
fn header_write_bytes() {
    let h = Header::with_compress(true);
    assert!(h.is_vaild());
    assert!(h.compress());
    assert_eq!(h.write().unwrap(), b"fool\x00\x00\x00\x01\x01".to_vec());
    let h = Header::with_compress(false);
    assert_eq!(h.write().unwrap(), b"fool\x00\x00\x00\x01\x00".to_vec());
}

#[test]
fn header_read_back() {
    let bytes = b"fool\x00\x00\x00\x01\x01rest".to_vec();
    let (h, n) = Header::read(&bytes).unwrap();
    assert_eq!(n, 9);
    assert!(h.is_vaild());
    assert!(h.compress());
}

#[test]
fn header_of_another_format_is_not_valid() {
    let bytes = b"FOOL\x00\x00\x00\x01\x00".to_vec();
    let (h, _) = Header::read(&bytes).unwrap();
    assert!(!h.is_vaild());
    let bytes = b"fool\x00\x00\x00\x02\x00".to_vec();
    let (h, _) = Header::read(&bytes).unwrap();
    assert!(!h.is_vaild());
}

#[test]
fn header_read_errors() {
    assert_eq!(Header::read(b"fool").err(), Some(SaveError::HeaderDecode));
    assert_eq!(Header::read(b"fool\x00\x00\x00\x01\x02").err(), Some(SaveError::HeaderDecode));
}

#[test]
fn save_round_trip_uncompressed() {
    let payload = doc(b"hello save");
    let file = encode_save_file(&payload, false).unwrap();
    assert_eq!(&file[..9], b"fool\x00\x00\x00\x01\x00");
    assert_eq!(&file[9..], &payload[..]);
    assert_eq!(decode_save_file(&file).unwrap(), payload);
}

#[test]
fn save_round_trip_compressed() {
    let body: Vec<u8> = (0..2000u32).map(|i| (i % 7) as u8).collect();
    let payload = doc(&body);
    let file = encode_save_file(&payload, true).unwrap();
    assert_eq!(&file[..9], b"fool\x00\x00\x00\x01\x01");
    // the payload is stored compressed, not as it is
    assert_ne!(&file[9..], &payload[..]);
    assert!(file.len() < payload.len());
    assert_eq!(zstd::decode_all(&file[9..]).unwrap(), payload);
    assert_eq!(decode_save_file(&file).unwrap(), payload);
}

#[test]
fn load_errors() {
    assert_eq!(decode_save_file(b"fo"), Err(SaveError::HeaderDecode));
    assert_eq!(decode_save_file(b"nope\x00\x00\x00\x01\x00data"), Err(SaveError::NotASave));
    assert_eq!(decode_save_file(b"fool\x00\x00\x00\x01\x01not zstd"), Err(SaveError::Decompress));
}

#[test]
fn manager_paths() {
    let sm = SaveManager::new("/home/a/saves".to_string());
    assert_eq!(sm.path(), "/home/a/saves");
    assert_eq!(sm.save_path("aaa"), "/home/a/saves/aaa.save");
    let sm = SaveManager::new("saves/".to_string());
    assert_eq!(sm.save_path("b"), "saves/b.save");
}

#[test]
fn manager_save_and_load() {
    let sm = SaveManager::new("/tmp".to_string());
    let bytes = sm.save(&doc(b"data"), true).unwrap();
    assert_eq!(sm.load(&bytes).unwrap(), doc(b"data"));
    assert_eq!(sm.load(b"junkjunkjunk"), Err(SaveError::HeaderDecode));
    assert_eq!(sm.load(b"junkjunk\x00rest"), Err(SaveError::NotASave));
}

#[test]
fn manager_list_entry() {
    let sm = SaveManager::new("/tmp".to_string());
    let good = sm.save(&doc(b"x"), false).unwrap();
    assert_eq!(sm.list_entry(&good), Ok(Some(doc(b"x"))));
    let not_doc = sm.save(b"x", false).unwrap();
    assert_eq!(sm.list_entry(&not_doc), Ok(None));
    assert_eq!(sm.list_entry(b"other\x00\x00\x00\x00"), Ok(None));
    assert_eq!(sm.list_entry(b"fool\x00\x00\x00\x01\x01zz"), Ok(None));
    assert_eq!(sm.list_entry(b"short"), Err(SaveError::HeaderDecode));
}

#[test]
fn path_join_matches_std() {
    let cases = [
        ("/home/a", "b.save"),
        ("/home/a/", "b.save"),
        ("", "b.save"),
        ("/home/a", "/etc/x"),
        ("rel", "dir/f"),
        ("/", "x"),
        ("a", ""),
    ];
    for (base, p) in cases {
        let expected: PathBuf = Path::new(base).join(p);
        assert_eq!(path_join(base, p), expected.to_str().unwrap(), "{} + {}", base, p);
    }
}

#[test]
fn save_file_names_match_std_extension() {
    let cases = ["a.save", ".save", "x.save.bak", "save", "b.SAVE", "c..save", "dir.save"];
    for name in cases {
        let expected = Path::new(name).extension().map_or(false, |e| e == "save");
        assert_eq!(is_save_file_name(name), expected, "{}", name);
    }
}

#[test]
fn bytes_after_the_compressed_frame_are_not_read() {
    let payload = doc(b"document");
    let mut file = encode_save_file(&payload, true).unwrap();
    file.extend_from_slice(b"trailing junk");
    assert_eq!(decode_save_file(&file).unwrap(), payload);
}

#[test]
fn bytes_after_the_document_are_not_read() {
    let payload = doc(b"document");
    let mut with_tail = payload.clone();
    with_tail.extend_from_slice(b"tail");
    for compress in [false, true] {
        let file = encode_save_file(&with_tail, compress).unwrap();
        assert_eq!(decode_save_file(&file).unwrap(), payload);
    }
}

#[test]
fn a_document_longer_than_the_file_is_read_as_far_as_it_goes() {
    let mut payload = 100u32.to_le_bytes().to_vec();
    payload.extend_from_slice(b"short");
    for compress in [false, true] {
        let file = encode_save_file(&payload, compress).unwrap();
        assert_eq!(decode_save_file(&file).unwrap(), payload);
    }
}

#[test]
fn payloads_that_are_not_documents() {
    for compress in [false, true] {
        for payload in [vec![], vec![9u8, 0, 0], vec![4u8, 0, 0, 0, 1], vec![0u8, 0, 0, 0x80, 1, 2]] {
            let file = encode_save_file(&payload, compress).unwrap();
            assert_eq!(decode_save_file(&file), Err(SaveError::NotADocument), "{:?}", payload);
        }
    }
}

#[test]
fn saving_always_succeeds() {
    for compress in [false, true] {
        for payload in [doc(b"a"), doc(&[0u8; 1]), doc(&(0..=255u8).collect::<Vec<u8>>())] {
            let file = encode_save_file(&payload, compress).unwrap();
            assert_eq!(decode_save_file(&file).unwrap(), payload);
        }
        assert!(encode_save_file(&[], compress).is_ok());
    }
}

#[test]
fn saved_bson_document_reads_back() {
    let mut d = bson::Document::new();
    d.insert("name", "aaa");
    d.insert("ok", true);
    let bytes = bson::to_vec(&d).unwrap();
    let file = encode_save_file(&bytes, true).unwrap();
    let back = decode_save_file(&file).unwrap();
    assert_eq!(back, bytes);
}
