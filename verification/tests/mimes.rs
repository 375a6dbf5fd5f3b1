use gemlite::mime::{can_sniff, can_tell, choose_mime, detect_mime};

const PNG: [u8; 12] = [0x89, 0x50, 0x4e, 0x47, 0x0d, 0x0a, 0x1a, 0x0a, 0, 0, 0, 0];

#[test]
fn name_shows_the_type() {
    assert_eq!(detect_mime("notes.txt", &vec![1, 2, 3]), "text/plain");
    assert_eq!(detect_mime("dir/photo.JPG", &PNG.to_vec()), "image/jpeg");
}

#[test]
fn bytes_show_the_type_where_the_name_does_not() {
    assert_eq!(detect_mime("photo", &PNG.to_vec()), "image/png");
    assert_eq!(detect_mime("photo.bin", &PNG.to_vec()), "image/png");
    assert_eq!(detect_mime("photo.nosuchextension", &PNG.to_vec()), "image/png");
}

#[test]
fn unknown_files_are_octet_streams() {
    assert_eq!(detect_mime("data", &vec![1, 2, 3]), "application/octet-stream");
    assert_eq!(detect_mime("", &Vec::new()), "application/octet-stream");
}

#[test]
fn name_counts_before_bytes() {
    let octets = || "application/octet-stream".to_string();
    assert_eq!(choose_mime("a/b".to_string(), Some("c/d".to_string())), "a/b");
    assert_eq!(choose_mime(octets(), Some("c/d".to_string())), "c/d");
    assert_eq!(choose_mime(octets(), None), octets());
}

#[test]
fn ordinary_bytes_can_be_looked_at() {
    assert!(can_sniff(&PNG.to_vec()));
    assert!(can_sniff(&Vec::new()));
    assert!(can_tell("photo", &PNG.to_vec()));
}

/// A skippable frame that says how many bytes follow.
fn frame(len: u32) -> Vec<u8> {
    let mut bytes = vec![0x50, 0x2a, 0x4d, 0x18];
    bytes.extend_from_slice(&len.to_le_bytes());
    bytes
}

/// The beginning of a document whose first entry says how long it is.
fn document(len: u32, name: &str) -> Vec<u8> {
    let mut bytes = vec![0; 30];
    bytes[..4].copy_from_slice(b"PK\x03\x04");
    bytes[18..22].copy_from_slice(&len.to_le_bytes());
    bytes.extend_from_slice(name.as_bytes());
    bytes
}

#[test]
fn windows_paths_show_the_type() {
    let bytes = vec![1, 2, 3];
    for path in [
        r"C:\Users\me\photo.png",
        r"C:photo.png",
        r"C:/dir/photo.PNG",
        r"dir\photo.tar.png",
        r"\\server\share\photo.png",
        r"\\?\C:\photo.png",
        r"\\?\C:\dir\sub\dir\photo.png",
        r"\\.\device\photo.png",
        r"\\?\UNC\server\share\photo.png",
        r"//server/share/photo.png",
        r"C:\my.dir\..photo.png",
    ] {
        assert_eq!(detect_mime(path, &bytes), "image/png");
    }
    for path in [r"C:\dir\photo", r"C:\my.png\photo", r"\\server\photo", r"photo.png:stream"] {
        assert_eq!(detect_mime(path, &bytes), "application/octet-stream");
        assert_eq!(detect_mime(path, &PNG.to_vec()), "image/png");
    }
}

#[test]
fn other_paths_show_a_type_that_is_in_them() {
    for path in [
        r"C:\dir\.png",
        r"\\?\a/b/c/d/f.png",
        r"\\?\UNC\server\share/x/y.png",
        r"\\?\UNC\server\share.png",
        r"\\server\share.png",
    ] {
        let mime = detect_mime(path, &vec![1, 2, 3]);
        assert!(mime == "image/png" || mime == "application/octet-stream");
    }
}

#[test]
fn verbatim_path_with_slashes_shows_no_agreed_type() {
    let wide = usize::BITS >= 64;
    assert!(can_tell(r"\\?\C:\f.txt", &frame(u32::MAX)));
    assert_eq!(can_tell(r"\\?\a/b/c/d/f.txt", &frame(u32::MAX)), wide);
    assert_eq!(can_tell(r"\\?\UNC\server\share/x/y.txt", &frame(u32::MAX)), wide);
    if splits_at_backslash() {
        assert_eq!(detect_mime(r"\\?\a/b/c/d/f.txt", &vec![1]), "application/octet-stream");
    } else {
        assert_eq!(detect_mime(r"\\?\a/b/c/d/f.txt", &vec![1]), "text/plain");
    }
}

/// Whether a backslash parts the pieces of a path here.
fn splits_at_backslash() -> bool {
    std::path::MAIN_SEPARATOR == '\\'
}

#[test]
fn name_is_enough_to_tell_the_type() {
    for path in ["notes.txt", r"C:\dir\notes.txt"] {
        assert!(can_tell(path, &frame(u32::MAX)));
        assert_eq!(detect_mime(path, &frame(u32::MAX)), "text/plain");
    }
    assert_eq!(can_tell("notes", &frame(u32::MAX)), usize::BITS >= 64);
}

#[test]
fn lengths_that_can_be_added_can_be_looked_at() {
    let wide = usize::BITS >= 64;
    assert!(can_sniff(&frame(0)));
    assert!(can_sniff(&frame(u32::MAX - 8)));
    assert_eq!(can_sniff(&frame(u32::MAX - 7)), wide);
    let chain = |last: u32| [frame(0), frame(2), vec![9, 9], frame(last)].concat();
    assert!(can_sniff(&chain(5)));
    assert_eq!(can_sniff(&chain(u32::MAX)), wide);
    for name in ["[Content_Types].xml", "_rels/.rels", "docProps"] {
        assert!(can_sniff(&document(1000, name)));
        assert!(can_sniff(&document(u32::MAX - 6049, name)));
        assert_eq!(can_sniff(&document(u32::MAX - 6048, name)), wide);
        assert_eq!(can_sniff(&document(u32::MAX - 49, name)), wide);
        assert!(can_sniff(&document(u32::MAX - 48, name)));
    }
    assert!(can_sniff(&document(u32::MAX - 49, "other")));
}

#[test]
fn skippable_frames_are_followed() {
    let mut bytes = frame(3);
    bytes.extend_from_slice(&[7, 7, 7, 0x28, 0xb5, 0x2f, 0xfd]);
    assert_eq!(detect_mime("data", &bytes), "application/zstd");
}
