use slurpslurp::downloader::{
    accept_extension, attachment_download, declared_mime_type, detect_mime_type,
    download_attachment, download_embeds, download_url, embed_download,
    extract_extension_from_url, fetch_for_job, is_informative, is_success_status,
    is_valid_extension_for_media_type, needs_sniffing, resolve_mime_type, sanitize_filename,
    truncate_name, DownloadCache, CACHE_CAPACITY, MAX_NAME_CHARS,
};
use slurpslurp::model::{Attachment, Embed, EmbedMedia};

fn attachment(id: u64, name: &str, content_type: Option<&str>) -> Attachment {
    Attachment {
        id,
        filename: name.to_string(),
        title: None,
        description: None,
        content_type: content_type.map(|s| s.to_string()),
        size: 10,
        url: format!("https://cdn.example/files/{}", name),
        proxy_url: format!("https://proxy.example/files/{}", name),
        height: None,
        width: None,
    }
}

fn media(url: &str, proxy: Option<&str>) -> Option<EmbedMedia> {
    Some(EmbedMedia { url: url.to_string(), proxy_url: proxy.map(|s| s.to_string()) })
}

#[test]
fn octet_stream_with_a_png_name_resolves_by_extension() {
    let a = attachment(1, "photo.png", Some("application/octet-stream"));
    assert!(needs_sniffing(&a));
    assert_eq!(detect_mime_type(&a, None), "image/png");
}

#[test]
fn a_declared_type_wins() {
    let a = attachment(1, "photo.png", Some("image/gif"));
    assert!(!needs_sniffing(&a));
    assert_eq!(detect_mime_type(&a, None), "image/gif");
    assert_eq!(detect_mime_type(&a, Some("video/mp4".to_string())), "image/gif");
}

#[test]
fn a_declared_type_loses_its_parameters_and_blanks() {
    assert_eq!(
        declared_mime_type(&Some("text/plain; charset=utf-8".to_string())),
        Some("text/plain".to_string())
    );
    assert_eq!(declared_mime_type(&Some("  image/png \t".to_string())), Some("image/png".to_string()));
    assert_eq!(declared_mime_type(&Some(" application/octet-stream ;q=1".to_string())), None);
    assert_eq!(declared_mime_type(&Some("".to_string())), None);
    assert_eq!(declared_mime_type(&Some("   ".to_string())), None);
    assert_eq!(declared_mime_type(&Some(";charset=x".to_string())), None);
    assert_eq!(declared_mime_type(&None), None);
}

#[test]
fn content_comes_before_the_name() {
    let a = attachment(1, "photo.png", None);
    assert!(needs_sniffing(&a));
    assert_eq!(detect_mime_type(&a, Some("video/mp4".to_string())), "video/mp4");
    assert_eq!(detect_mime_type(&a, Some("application/octet-stream".to_string())), "image/png");
}

#[test]
fn nothing_known_gives_the_generic_type() {
    let a = attachment(1, "mystery.zzzunknown", None);
    assert_eq!(detect_mime_type(&a, None), "application/octet-stream");
    assert_eq!(
        detect_mime_type(&a, Some("application/octet-stream".to_string())),
        "application/octet-stream"
    );
    let b = attachment(1, "noextension", Some("application/octet-stream"));
    assert_eq!(detect_mime_type(&b, None), "application/octet-stream");
}

#[test]
fn resolution_order_is_declared_sniffed_guessed_generic() {
    let s = |t: &str| t.to_string();
    assert_eq!(resolve_mime_type(Some(s("a/b")), Some(s("c/d")), s("e/f")), "a/b");
    assert_eq!(resolve_mime_type(None, Some(s("c/d")), s("e/f")), "c/d");
    assert_eq!(resolve_mime_type(None, Some(s("application/octet-stream")), s("e/f")), "e/f");
    assert_eq!(resolve_mime_type(None, None, s("e/f")), "e/f");
    assert_eq!(
        resolve_mime_type(None, None, s("application/octet-stream")),
        "application/octet-stream"
    );
    assert_eq!(
        resolve_mime_type(None, Some(s("application/octet-stream")), s("application/octet-stream")),
        "application/octet-stream"
    );
    assert!(is_informative("image/png"));
    assert!(!is_informative(""));
    assert!(!is_informative("application/octet-stream"));
}

#[test]
fn extensions_are_read_off_the_path() {
    assert_eq!(extract_extension_from_url("https://x.example/a/b.png", "image"), "png");
    assert_eq!(extract_extension_from_url("https://x.example/a/b.webp?size=64", "image"), "webp");
    assert_eq!(extract_extension_from_url("https://x.example/a/b.gif#top", "image"), "gif");
    assert_eq!(extract_extension_from_url("https://x.example/a/b.gif#top?x.png", "image"), "gif");
    assert_eq!(extract_extension_from_url("https://x.example/v.webm", "video"), "webm");
    assert_eq!(extract_extension_from_url("https://x.example/v.mkv?x=1.5", "video"), "mkv");
}

#[test]
fn jpg_is_written_jpeg_and_case_is_lowered() {
    assert_eq!(extract_extension_from_url("https://x.example/a.jpg", "image"), "jpeg");
    assert_eq!(extract_extension_from_url("https://x.example/a.JPG", "image"), "jpeg");
    assert_eq!(extract_extension_from_url("https://x.example/a.Jpeg", "image"), "jpeg");
    assert_eq!(extract_extension_from_url("https://x.example/a.PNG", "image"), "png");
    assert_eq!(extract_extension_from_url("https://x.example/a.MP4", "video"), "mp4");
    assert_eq!(extract_extension_from_url("https://x.example/a.jpgjp", "other"), "jpegjp");
}

#[test]
fn an_extension_the_category_does_not_take_gives_the_default() {
    assert_eq!(extract_extension_from_url("https://x.example/a.mp4", "image"), "jpeg");
    assert_eq!(extract_extension_from_url("https://x.example/a.png", "video"), "mp4");
    assert_eq!(extract_extension_from_url("https://x.example/a.exe", "image"), "jpeg");
    assert_eq!(extract_extension_from_url("https://x.example/a", "image"), "jpeg");
    assert_eq!(extract_extension_from_url("https://x.example/a", "video"), "mp4");
    assert_eq!(extract_extension_from_url("https://x.example/a", "other"), "bin");
    assert_eq!(extract_extension_from_url("noextension", "image"), "jpeg");
    assert_eq!(extract_extension_from_url("", "video"), "mp4");
    assert_eq!(extract_extension_from_url("", "audio"), "bin");
}

#[test]
fn other_categories_take_any_plausible_extension() {
    assert_eq!(extract_extension_from_url("https://x.example/a.tar", "other"), "tar");
    assert_eq!(extract_extension_from_url("https://x.example/a.Flac5", "audio"), "flac5");
    assert_eq!(extract_extension_from_url("https://x.example/a.toolong", "other"), "bin");
    assert_eq!(extract_extension_from_url("https://x.example/a.p-g", "other"), "bin");
    assert_eq!(extract_extension_from_url("https://x.example/a.", "other"), "");
    assert_eq!(extract_extension_from_url("https://x.example/a.\u{c9}\u{c9}", "other"), "\u{e9}\u{e9}");
    assert_eq!(extract_extension_from_url("https://x.example/a.\u{c9}\u{c9}\u{c9}", "other"), "bin");
}

#[test]
fn extension_lists_are_closed_for_pictures_and_films() {
    for ext in ["jpeg", "jpg", "png", "gif", "webp", "bmp", "svg"] {
        assert!(is_valid_extension_for_media_type(ext, "image"));
        assert!(!is_valid_extension_for_media_type(ext, "video"));
    }
    for ext in ["mp4", "webm", "avi", "mov", "mkv", "flv", "wmv"] {
        assert!(is_valid_extension_for_media_type(ext, "video"));
        assert!(!is_valid_extension_for_media_type(ext, "image"));
    }
    assert!(!is_valid_extension_for_media_type("PNG", "image"));
    assert!(!is_valid_extension_for_media_type("", "image"));
    assert!(is_valid_extension_for_media_type("whatever", "audio"));
    assert!(is_valid_extension_for_media_type("", ""));
    assert_eq!(accept_extension("jpg", "image"), Some("jpeg".to_string()));
    assert_eq!(accept_extension("png", "image"), Some("png".to_string()));
    assert_eq!(accept_extension("png", "video"), None);
    assert_eq!(accept_extension("xjpgjpg", "file"), Some("xjpegjpeg".to_string()));
}

#[test]
fn short_names_are_not_cut() {
    assert_eq!(truncate_name("photo.png"), "photo.png");
    assert_eq!(truncate_name(""), "");
    let exact = "a".repeat(196) + ".png";
    assert_eq!(exact.chars().count(), MAX_NAME_CHARS);
    assert_eq!(truncate_name(&exact), exact);
}

#[test]
fn long_names_are_cut_to_200_characters_and_keep_their_extension() {
    let long = "a".repeat(250) + ".png";
    assert_eq!(truncate_name(&long), "a".repeat(196) + ".png");
    let two_dots = "a".repeat(250) + ".tar.gz";
    assert_eq!(truncate_name(&two_dots), "a".repeat(197) + ".gz");
    let no_dot = "b".repeat(201);
    assert_eq!(truncate_name(&no_dot), "b".repeat(200));
    let long_ext = "c.".to_string() + &"d".repeat(250);
    assert_eq!(truncate_name(&long_ext), "c.".to_string() + &"d".repeat(198));
    let ext_of_200 = "c".repeat(10) + "." + &"d".repeat(199);
    assert_eq!(truncate_name(&ext_of_200), "c".repeat(10) + "." + &"d".repeat(189));
    let ext_of_199 = "c".repeat(10) + "." + &"d".repeat(198);
    assert_eq!(truncate_name(&ext_of_199), "c".to_string() + "." + &"d".repeat(198));
    let wide = "\u{e9}".repeat(250) + ".png";
    assert_eq!(truncate_name(&wide), "\u{e9}".repeat(196) + ".png");
}

#[test]
fn file_names_lose_their_query_and_escapes_and_unsafe_characters() {
    assert_eq!(sanitize_filename("photo.png"), "photo.png");
    assert_eq!(sanitize_filename("photo.png?width=100&height=50"), "photo.png");
    assert_eq!(sanitize_filename("hello%20world.txt"), "hello world.txt");
    assert_eq!(sanitize_filename("a%2Fb.txt"), "a_b.txt");
    assert_eq!(sanitize_filename("a/b\\c.txt"), "a_b_c.txt");
    assert_eq!(sanitize_filename("%FF.png"), "%FF.png");
    assert_eq!(sanitize_filename(""), "_");
    assert_eq!(sanitize_filename("?only=query"), "_");
    let long = "a".repeat(300) + ".png";
    assert_eq!(sanitize_filename(&long), "a".repeat(196) + ".png");
}

#[test]
fn an_attachment_goes_under_its_type_named_by_its_id() {
    let a = attachment(5, "my photo.png", Some("image/png"));
    let job = attachment_download(&a, None);
    assert_eq!(job.url, "https://cdn.example/files/my photo.png");
    assert_eq!(job.directory, "downloads/image/png");
    assert_eq!(job.path, "downloads/image/png/5_my photo.png");
    let b = attachment(18446744073709551615, "x.bin", None);
    let job = attachment_download(&b, Some("application/zip".to_string()));
    assert_eq!(job.directory, "downloads/application/zip");
    assert_eq!(job.path, "downloads/application/zip/18446744073709551615_x.bin");
}

#[test]
fn attachments_are_planned_in_order() {
    let list = vec![
        attachment(1, "a.png", Some("application/octet-stream")),
        attachment(2, "b.dat", None),
        attachment(3, "c.gif", None),
    ];
    let jobs = download_attachment(&list, &vec![None, Some("video/mp4".to_string())]);
    assert_eq!(jobs.len(), 3);
    assert_eq!(jobs[0].path, "downloads/image/png/1_a.png");
    assert_eq!(jobs[1].path, "downloads/video/mp4/2_b.dat");
    assert_eq!(jobs[2].path, "downloads/image/gif/3_c.gif");
    assert!(download_attachment(&Vec::new(), &Vec::new()).is_empty());
}

#[test]
fn embedded_media_prefers_the_proxy_and_goes_under_category_and_extension() {
    let embeds = vec![
        Embed {
            image: media("https://origin.example/p/pic.JPG?x=1", Some("https://proxy.example/q/pic2.png?y=2")),
            thumbnail: media("https://origin.example/t/thumb.webp", None),
            video: media("https://origin.example/v/clip", Some("https://proxy.example/v/clip.mov")),
        },
        Embed { image: None, thumbnail: None, video: media("https://origin.example/v/raw", None) },
        Embed { image: None, thumbnail: None, video: None },
    ];
    let jobs = download_embeds(&embeds, 100);
    assert_eq!(jobs.len(), 4);
    assert_eq!(jobs[0].url, "https://proxy.example/q/pic2.png?y=2");
    assert_eq!(jobs[0].directory, "downloads/image/png");
    assert_eq!(jobs[0].path, "downloads/image/png/100_pic2.png");
    assert_eq!(jobs[1].url, "https://origin.example/t/thumb.webp");
    assert_eq!(jobs[1].path, "downloads/image/webp/100_thumb.webp");
    assert_eq!(jobs[2].url, "https://proxy.example/v/clip.mov");
    assert_eq!(jobs[2].path, "downloads/video/mov/100_clip.mov");
    assert_eq!(jobs[3].url, "https://origin.example/v/raw");
    assert_eq!(jobs[3].directory, "downloads/video/mp4");
    assert_eq!(jobs[3].path, "downloads/video/mp4/100_raw");
    let job = embed_download("https://origin.example/p/pic.jpg", "image", 7);
    assert_eq!(job.path, "downloads/image/jpeg/7_pic.jpg");
    let job = embed_download("plain", "image", 7);
    assert_eq!(job.path, "downloads/image/jpeg/7_plain");
}

#[test]
fn a_burst_of_requests_for_one_address_fetches_once() {
    let mut cache = DownloadCache::new();
    let mut fetches = 0;
    let mut hits = 0;
    for _ in 0..3 {
        match download_url("https://cdn.example/a.png", "downloads/x/a.png", &mut cache) {
            Some(request) => {
                assert_eq!(request.url, "https://cdn.example/a.png");
                assert_eq!(request.file_name, "downloads/x/a.png");
                fetches += 1;
            }
            None => hits += 1,
        }
    }
    assert_eq!(fetches, 1);
    assert_eq!(hits, 2);
    assert_eq!(cache.len(), 1);
}

#[test]
fn the_cache_holds_five_addresses_and_forgets_the_oldest() {
    assert_eq!(CACHE_CAPACITY, 5);
    let mut cache = DownloadCache::new();
    for i in 0..5 {
        assert!(cache.note(&format!("u{}", i)));
    }
    assert_eq!(cache.len(), 5);
    assert!(cache.contains("u0"));
    assert!(!cache.note("u0"));
    assert!(cache.note("u5"));
    assert_eq!(cache.len(), 5);
    assert!(!cache.contains("u0"));
    assert!(cache.contains("u1"));
    assert!(cache.contains("u5"));
    assert!(cache.note("u0"));
    assert!(!cache.contains("u1"));
    assert!(cache.contains("u2"));
    assert_eq!(cache.len(), 5);
}

#[test]
fn only_success_statuses_carry_a_file() {
    assert!(is_success_status(200));
    assert!(is_success_status(204));
    assert!(is_success_status(299));
    assert!(!is_success_status(199));
    assert!(!is_success_status(300));
    assert!(!is_success_status(404));
    assert!(!is_success_status(500));
}

#[test]
fn a_file_that_is_there_is_not_fetched_again() {
    let job = embed_download("https://origin.example/p/pic.png", "image", 7);
    let mut cache = DownloadCache::new();
    assert!(fetch_for_job(&job, true, &mut cache).is_none());
    assert_eq!(cache.len(), 0);
    let request = fetch_for_job(&job, false, &mut cache).unwrap();
    assert_eq!(request.url, "https://origin.example/p/pic.png");
    assert_eq!(request.file_name, "downloads/image/png/7_pic.png");
    assert_eq!(cache.len(), 1);
    assert!(fetch_for_job(&job, false, &mut cache).is_none());
    assert!(fetch_for_job(&job, true, &mut cache).is_none());
    assert_eq!(cache.len(), 1);
}
