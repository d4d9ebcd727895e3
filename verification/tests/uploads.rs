use sametime::error::AppError;
use sametime::upload::{
    accept_upload_name, content_disposition, download_url, is_allowed_extension,
    is_stored_file_for, is_valid_media_magic, plan_storage, sanitize_filename, stored_file_name,
    upload_extension, UploadScan,
};

#[test]
fn sanitize_keeps_plain_names() {
    assert_eq!(sanitize_filename("movie.mp4"), "movie.mp4");
    assert_eq!(sanitize_filename("我的 电影.mkv"), "我的 电影.mkv");
}

#[test]
fn sanitize_strips_directories() {
    assert_eq!(sanitize_filename("../../etc/passwd"), "passwd");
    assert_eq!(sanitize_filename("/abs/path/film.avi"), "film.avi");
    assert_eq!(sanitize_filename("dir/sub/"), "sub");
    assert_eq!(sanitize_filename("a//b"), "b");
    assert_eq!(sanitize_filename("a/./"), "a");
    assert_eq!(sanitize_filename("./x.srt"), "x.srt");
}

#[test]
fn sanitize_falls_back_to_unknown() {
    assert_eq!(sanitize_filename(""), "unknown");
    assert_eq!(sanitize_filename("."), "unknown");
    assert_eq!(sanitize_filename(".."), "unknown");
    assert_eq!(sanitize_filename("a/.."), "unknown");
    assert_eq!(sanitize_filename("/"), "unknown");
    assert_eq!(sanitize_filename("\u{0}\u{1}"), "unknown");
    assert_eq!(sanitize_filename(".\u{7}."), "unknown");
}

#[test]
fn sanitize_drops_control_characters() {
    assert_eq!(sanitize_filename("a\u{0}b\nc\u{9f}.mp4"), "abc.mp4");
    assert_eq!(sanitize_filename("tab\tname.srt"), "tabname.srt");
}

#[test]
fn sanitized_names_never_hold_separators() {
    for raw in ["../x", "a/b/c", "..", "x/..", "////", "a/\u{1}/", "..\u{2}/"] {
        let s = sanitize_filename(raw);
        assert!(!s.contains('/'));
        assert!(!s.is_empty());
        assert_ne!(s, ".");
        assert_ne!(s, "..");
        assert!(!s.chars().any(|c| c.is_control()));
    }
}

#[test]
fn extension_is_lowercased_last_segment() {
    assert_eq!(upload_extension("Movie.MP4"), "mp4");
    assert_eq!(upload_extension("a.b.MkV"), "mkv");
    assert_eq!(upload_extension("noext"), "noext");
    assert_eq!(upload_extension("trailing."), "");
}

#[test]
fn allowed_extensions() {
    for ext in ["mp4", "mkv", "avi", "mov", "wmv", "flv", "webm", "srt", "ass", "ssa", "vtt"] {
        assert!(is_allowed_extension(ext));
    }
    for ext in ["exe", "MP4", "", "mp3", "txt"] {
        assert!(!is_allowed_extension(ext));
    }
}

#[test]
fn accept_upload_name_refuses_other_types() {
    let ok = accept_upload_name("../Film.MKV").unwrap();
    assert_eq!(ok.filename, "Film.MKV");
    assert_eq!(ok.ext, "mkv");
    match accept_upload_name("evil.EXE") {
        Err(AppError::BadRequest(m)) => assert_eq!(m, "File type 'exe' not allowed"),
        other => panic!("unexpected {:?}", other.map(|u| u.filename)),
    }
}

#[test]
fn magic_bytes_by_format() {
    let mut mp4 = vec![0u8; 12];
    mp4[4..8].copy_from_slice(b"ftyp");
    assert!(is_valid_media_magic(&mp4, "mp4"));
    let mut riff = b"RIFF".to_vec();
    riff.extend_from_slice(&[0u8; 8]);
    assert!(is_valid_media_magic(&riff, "avi"));
    let mut mkv = vec![0x1A, 0x45, 0xDF, 0xA3];
    mkv.extend_from_slice(&[0u8; 8]);
    assert!(is_valid_media_magic(&mkv, "mkv"));
    let mut flv = b"FLV".to_vec();
    flv.extend_from_slice(&[0u8; 9]);
    assert!(is_valid_media_magic(&flv, "flv"));
    let mut asf = vec![0x30, 0x26, 0xB2, 0x75];
    asf.extend_from_slice(&[0u8; 8]);
    assert!(is_valid_media_magic(&asf, "wmv"));
    assert!(!is_valid_media_magic(&[7u8; 12], "mp4"));
    assert!(is_valid_media_magic(&[7u8; 12], "srt"));
}

#[test]
fn short_data_only_passes_for_subtitles() {
    assert!(is_valid_media_magic(b"1\n00:00", "srt"));
    assert!(is_valid_media_magic(b"", "vtt"));
    assert!(!is_valid_media_magic(b"ftyp", "mp4"));
    assert!(!is_valid_media_magic(b"", "mkv"));
}

#[test]
fn scan_accepts_valid_upload_in_chunks() {
    let mut s = UploadScan::new("mp4".to_string(), 100);
    assert!(s.feed(&[0, 0, 0, 0, b'f']).is_ok());
    assert!(!s.magic_checked);
    assert!(s.feed(b"typ1234").is_ok());
    assert!(s.magic_checked);
    assert!(s.feed(&[9u8; 20]).is_ok());
    assert_eq!(s.finish().unwrap(), 32);
}

#[test]
fn scan_refuses_oversized_upload() {
    let mut s = UploadScan::new("srt".to_string(), 3 * 1024 * 1024);
    assert!(s.feed(&vec![b'a'; 2 * 1024 * 1024]).is_ok());
    match s.feed(&vec![b'a'; 1024 * 1024 + 1]) {
        Err(AppError::BadRequest(m)) => assert_eq!(m, "File too large. Maximum: 3MB"),
        _ => panic!("expected a size error"),
    }
}

#[test]
fn scan_exact_limit_is_accepted() {
    let mut s = UploadScan::new("srt".to_string(), 10);
    assert!(s.feed(b"0123456789").is_ok());
    assert_eq!(s.finish().unwrap(), 10);
    let mut t = UploadScan::new("srt".to_string(), 10);
    assert!(t.feed(b"0123456789A").is_err());
}

#[test]
fn scan_refuses_wrong_content() {
    let mut s = UploadScan::new("mp4".to_string(), 1000);
    match s.feed(&[1u8; 16]) {
        Err(AppError::BadRequest(m)) => {
            assert_eq!(m, "File content does not match expected media format")
        }
        _ => panic!("expected a content error"),
    }
}

#[test]
fn scan_checks_short_files_at_finish() {
    let mut s = UploadScan::new("mkv".to_string(), 1000);
    assert!(s.feed(&[1u8; 5]).is_ok());
    assert!(matches!(s.finish(), Err(AppError::BadRequest(_))));
    let mut t = UploadScan::new("ass".to_string(), 1000);
    assert!(t.feed(&[1u8; 5]).is_ok());
    assert_eq!(t.finish().unwrap(), 5);
    let empty = UploadScan::new("mp4".to_string(), 1000);
    assert!(empty.finish().is_err());
}

#[test]
fn stored_names_and_urls() {
    let id = "0123abcd-1111-4222-8333-444455556666";
    assert_eq!(stored_file_name(id, "film.mp4"), "0123abcd-1111-4222-8333-444455556666_film.mp4");
    assert_eq!(download_url(id), format!("/api/files/{}", id));
    assert!(is_stored_file_for("0123abcd-1111-4222-8333-444455556666_film.mp4", id));
    assert!(is_stored_file_for("0123abcd-1111-4222-8333-444455556666_", id));
    assert!(!is_stored_file_for("0123abcd-1111-4222-8333-444455556666", id));
    assert!(!is_stored_file_for("0123abcd-1111-4222-8333-444455556666.mp4", id));
    assert!(!is_stored_file_for("0123abce-1111-4222-8333-444455556666_film.mp4", id));
    assert!(!is_stored_file_for("0123", id));
}

#[test]
fn uploads_sharing_an_id_prefix_are_told_apart() {
    let a = "0123abcd-1111-4222-8333-444455556666";
    let b = "0123abcd-9999-4aaa-bbbb-cccccccccccc";
    let name_a = stored_file_name(a, "film.mp4");
    assert!(is_stored_file_for(&name_a, a));
    assert!(!is_stored_file_for(&name_a, b));
    assert!(!is_stored_file_for(&stored_file_name(b, "film.mp4"), a));
}

#[test]
fn plan_storage_uses_a_fresh_uuid() {
    let a = plan_storage("x.srt");
    let b = plan_storage("x.srt");
    assert_eq!(a.file_id.len(), 36);
    assert_ne!(a.file_id, b.file_id);
    assert_eq!(a.save_filename, format!("{}_x.srt", a.file_id));
    assert!(is_stored_file_for(&a.save_filename, &a.file_id));
    assert!(!is_stored_file_for(&a.save_filename, &b.file_id));
    assert_eq!(a.file_id.chars().nth(14), Some('4'));
    assert!(matches!(a.file_id.chars().nth(19), Some('8' | '9' | 'a' | 'b')));
}

#[test]
fn content_disposition_escapes_quotes() {
    assert_eq!(content_disposition("a.mp4"), "attachment; filename=\"a.mp4\"");
    assert_eq!(
        content_disposition("x\"; y=\\z.mp4"),
        "attachment; filename=\"x_; y=_z.mp4\""
    );
}

#[test]
fn sanitizing_twice_changes_nothing() {
    for name in ["movie.mp4", "../../etc/passwd", "a/b/..", "", ".", "x\u{7}y.srt", "dir/", "/"] {
        let once = sanitize_filename(name);
        assert_eq!(sanitize_filename(&once), once);
    }
}
