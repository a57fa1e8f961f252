use oxidlp::format::{filter_video_formats, Format, FormatPopupState};

fn fmt(id: &str, vcodec: Option<&str>, acodec: Option<&str>, height: Option<u32>) -> Format {
    Format {
        format_id: id.to_string(),
        resolution: None,
        ext: "mp4".to_string(),
        vcodec: vcodec.map(|s| s.to_string()),
        acodec: acodec.map(|s| s.to_string()),
        filesize: None,
        filesize_approx: None,
        tbr: None,
        width: None,
        height,
    }
}

#[test]
fn audio_and_video_predicates_are_exclusive() {
    let audio = fmt("140", Some("none"), Some("mp4a.40.2"), None);
    let video = fmt("137", Some("avc1"), Some("none"), Some(1080));
    assert!(audio.is_audio_only());
    assert!(!audio.is_video());
    assert!(video.is_video());
    assert!(!video.is_audio_only());
}

#[test]
fn missing_codecs_mean_neither() {
    let neither = fmt("0", None, None, None);
    assert!(!neither.is_video());
    assert!(!neither.is_audio_only());
    let silent = fmt("1", None, Some("none"), None);
    assert!(!silent.is_audio_only());
}

#[test]
fn video_filter_requires_codec_and_height() {
    let fs = vec![
        fmt("a", Some("avc1"), None, Some(720)),
        fmt("b", Some("none"), Some("mp4a"), None),
        fmt("c", Some("vp9"), None, None),
        fmt("d", Some("av01"), Some("opus"), Some(2160)),
    ];
    let kept = filter_video_formats(&fs);
    assert_eq!(kept.len(), 2);
    assert_eq!(kept[0].format_id, "a");
    assert_eq!(kept[1].format_id, "d");
}

#[test]
fn popup_filters_by_toggle() {
    let fs = vec![
        fmt("v1", Some("avc1"), Some("none"), Some(720)),
        fmt("a1", Some("none"), Some("mp4a"), None),
        fmt("v2", Some("vp9"), None, Some(1080)),
    ];
    let mut p = FormatPopupState::new(0, fs);
    assert_eq!(p.filtered_formats().len(), 2);
    let sel = p.selected_format().unwrap();
    assert_eq!(sel.format_id, "v1");
    p.audio_only = true;
    assert_eq!(p.filtered_formats().len(), 1);
    assert_eq!(p.selected_format().unwrap().format_id, "a1");
    p.selected = 1;
    assert!(p.selected_format().is_none());
}

#[test]
fn resolution_text_prefers_dimensions() {
    let mut f = fmt("x", Some("avc1"), None, Some(1080));
    f.width = Some(1920);
    assert_eq!(f.display_resolution(), "1920x1080");
    f.width = None;
    f.resolution = Some("1080p".to_string());
    assert_eq!(f.display_resolution(), "1080p");
    f.resolution = None;
    assert_eq!(f.display_resolution(), "audio");
}

#[test]
fn bitrate_text() {
    let mut f = fmt("x", None, None, None);
    f.tbr = Some(128);
    assert_eq!(f.display_bitrate(), "128 kbps");
    f.tbr = None;
    assert_eq!(f.display_bitrate(), "~");
}

#[test]
fn size_text_scales_with_two_decimals() {
    let mut f = fmt("x", None, None, None);
    f.filesize = Some(1536);
    assert_eq!(f.display_size(), "1.50 KiB");
    f.filesize = Some(10 * 1024 * 1024);
    assert_eq!(f.display_size(), "10.00 MiB");
    f.filesize = Some(3 * 1024 * 1024 * 1024 + 512 * 1024 * 1024);
    assert_eq!(f.display_size(), "3.50 GiB");
    f.filesize = Some(512);
    assert_eq!(f.display_size(), "512 B");
    f.filesize = None;
    f.filesize_approx = Some(2048);
    assert_eq!(f.display_size(), "2.00 KiB");
    f.filesize_approx = None;
    assert_eq!(f.display_size(), "~");
}
