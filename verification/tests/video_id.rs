use yt_thumb::{
    extract_video_id, is_valid_video_id, video_id_from_url, ExtractErrorKind, UrlParts,
};

// --- is_valid_video_id ---

#[test]
fn valid_video_id_alphanumeric() {
    assert!(is_valid_video_id("dQw4w9WgXcQ"));
}

#[test]
fn valid_video_id_with_underscore_and_dash() {
    assert!(is_valid_video_id("abc_def-gh1")); // exactly 11 chars
}

#[test]
fn invalid_video_id_too_short() {
    assert!(!is_valid_video_id("dQw4w9WgXc"));
}

#[test]
fn invalid_video_id_too_long() {
    assert!(!is_valid_video_id("dQw4w9WgXcQQ"));
}

#[test]
fn invalid_video_id_special_char() {
    assert!(!is_valid_video_id("dQw4w9WgX!Q"));
}

#[test]
fn invalid_video_id_non_ascii_letter() {
    assert!(!is_valid_video_id("dQw4w9WgXcé"));
}

#[test]
fn invalid_video_id_empty() {
    assert!(!is_valid_video_id(""));
}

// --- extract_video_id ---

#[test]
fn extract_bare_video_id() {
    assert_eq!(extract_video_id("dQw4w9WgXcQ").unwrap(), "dQw4w9WgXcQ");
}

#[test]
fn extract_from_watch_url() {
    assert_eq!(
        extract_video_id("https://www.youtube.com/watch?v=dQw4w9WgXcQ").unwrap(),
        "dQw4w9WgXcQ"
    );
}

#[test]
fn extract_from_watch_url_with_extra_params() {
    assert_eq!(
        extract_video_id("https://www.youtube.com/watch?v=dQw4w9WgXcQ&t=42&list=PL123").unwrap(),
        "dQw4w9WgXcQ"
    );
}

#[test]
fn extract_from_mobile_watch_url() {
    assert_eq!(
        extract_video_id("https://m.youtube.com/watch?v=dQw4w9WgXcQ").unwrap(),
        "dQw4w9WgXcQ"
    );
}

#[test]
fn extract_from_youtu_be() {
    assert_eq!(
        extract_video_id("https://youtu.be/dQw4w9WgXcQ").unwrap(),
        "dQw4w9WgXcQ"
    );
}

#[test]
fn extract_from_youtu_be_with_params() {
    assert_eq!(
        extract_video_id("https://youtu.be/dQw4w9WgXcQ?t=30").unwrap(),
        "dQw4w9WgXcQ"
    );
}

#[test]
fn extract_from_embed_url() {
    assert_eq!(
        extract_video_id("https://www.youtube.com/embed/dQw4w9WgXcQ").unwrap(),
        "dQw4w9WgXcQ"
    );
}

#[test]
fn extract_from_v_url() {
    assert_eq!(
        extract_video_id("https://www.youtube.com/v/dQw4w9WgXcQ").unwrap(),
        "dQw4w9WgXcQ"
    );
}

#[test]
fn extract_from_shorts_url() {
    assert_eq!(
        extract_video_id("https://www.youtube.com/shorts/dQw4w9WgXcQ").unwrap(),
        "dQw4w9WgXcQ"
    );
}

#[test]
fn extract_trims_whitespace() {
    assert_eq!(extract_video_id("  dQw4w9WgXcQ  ").unwrap(), "dQw4w9WgXcQ");
}

#[test]
fn extract_error_non_youtube_url() {
    assert!(extract_video_id("https://example.com/watch?v=dQw4w9WgXcQ").is_err());
}

#[test]
fn extract_error_invalid_string() {
    assert!(extract_video_id("not-a-url-or-id!!").is_err());
}

#[test]
fn extract_error_watch_without_v_param() {
    assert!(extract_video_id("https://www.youtube.com/watch").is_err());
}

// --- each error, with the trimmed input it names ---

#[test]
fn extract_invalid_input_kind_and_message() {
    let err = extract_video_id("  not-a-url-or-id!!\n").unwrap_err();
    assert_eq!(err.kind, ExtractErrorKind::InvalidInput);
    assert_eq!(err.input, "not-a-url-or-id!!");
    assert_eq!(err.cause.as_deref(), Some("relative URL without a base"));
    assert_eq!(err.message(), "Not a valid URL or video ID: not-a-url-or-id!!");
}

#[test]
fn extract_not_youtube_kind_and_message() {
    let err = extract_video_id("https://example.com/watch?v=dQw4w9WgXcQ").unwrap_err();
    assert_eq!(err.kind, ExtractErrorKind::NotYouTubeUrl);
    assert_eq!(err.cause, None);
    assert_eq!(
        err.message(),
        "Not a YouTube URL: https://example.com/watch?v=dQw4w9WgXcQ"
    );
}

#[test]
fn extract_missing_v_kind_and_message() {
    let err = extract_video_id("https://www.youtube.com/watch?t=3").unwrap_err();
    assert_eq!(err.kind, ExtractErrorKind::MissingVideoParam);
    assert_eq!(
        err.message(),
        "Missing `v` query parameter in URL: https://www.youtube.com/watch?t=3"
    );
}

#[test]
fn extract_unsupported_format_kind_and_message() {
    let err = extract_video_id("https://www.youtube.com/channel/xyz").unwrap_err();
    assert_eq!(err.kind, ExtractErrorKind::UnsupportedFormat);
    assert_eq!(
        err.message(),
        "Unsupported youtube.com URL format: https://www.youtube.com/channel/xyz"
    );
}

#[test]
fn extract_bad_port_cause() {
    let err = extract_video_id("https://www.youtube.com:99999/watch?v=x").unwrap_err();
    assert_eq!(err.kind, ExtractErrorKind::InvalidInput);
    assert_eq!(err.cause.as_deref(), Some("invalid port number"));
}

#[test]
fn extract_embed_without_id_is_unsupported() {
    let err = extract_video_id("https://www.youtube.com/embed/").unwrap_err();
    assert_eq!(err.kind, ExtractErrorKind::UnsupportedFormat);
}

#[test]
fn extract_short_link_without_id_kind_and_message() {
    let err = extract_video_id("https://youtu.be/").unwrap_err();
    assert_eq!(err.kind, ExtractErrorKind::MissingShortLinkId);
    assert_eq!(err.message(), "No video ID in youtu.be URL: https://youtu.be/");
}

// --- further URL forms: watch sub-paths, repeated and encoded parameters, other hosts ---

#[test]
fn extract_watch_subpath_reads_v() {
    assert_eq!(
        extract_video_id("https://www.youtube.com/watch/extra?v=abc").unwrap(),
        "abc"
    );
}

#[test]
fn extract_first_v_param_wins_and_is_decoded() {
    assert_eq!(
        extract_video_id("https://www.youtube.com/watch?x=1&v=a%2Db&v=zzz").unwrap(),
        "a-b"
    );
}

#[test]
fn extract_any_host_ending_in_youtube_com() {
    assert_eq!(
        extract_video_id("https://music.youtube.com/watch?v=dQw4w9WgXcQ").unwrap(),
        "dQw4w9WgXcQ"
    );
}

#[test]
fn extract_embed_ignores_later_segments() {
    assert_eq!(
        extract_video_id("https://www.youtube.com/embed/abc/def").unwrap(),
        "abc"
    );
}

#[test]
fn extract_surrounding_whitespace_ignored_on_urls() {
    assert_eq!(
        extract_video_id("\t https://youtu.be/dQw4w9WgXcQ \u{3000}"),
        extract_video_id("https://youtu.be/dQw4w9WgXcQ")
    );
}

#[test]
fn extract_is_idempotent_on_ids() {
    let id = extract_video_id("https://www.youtube.com/shorts/dQw4w9WgXcQ").unwrap();
    assert_eq!(extract_video_id(&id).unwrap(), id);
}

// --- video_id_from_url, on parts built by hand ---

fn parts(host: Option<&str>, path: &str, pairs: &[(&str, &str)]) -> UrlParts {
    UrlParts {
        host: host.map(|h| h.to_string()),
        path: path.to_string(),
        query_pairs: pairs.iter().map(|(k, v)| (k.to_string(), v.to_string())).collect(),
    }
}

#[test]
fn from_url_watch_reads_first_v() {
    let url = parts(Some("www.youtube.com"), "/watch", &[("a", "1"), ("v", "ID1"), ("v", "ID2")]);
    assert_eq!(video_id_from_url(&url, "orig").unwrap(), "ID1");
}

#[test]
fn from_url_without_host_is_not_youtube() {
    let url = parts(None, "/watch", &[("v", "ID1")]);
    let err = video_id_from_url(&url, "orig").unwrap_err();
    assert_eq!(err.kind, ExtractErrorKind::NotYouTubeUrl);
    assert_eq!(err.input, "orig");
}

#[test]
fn from_url_short_link_takes_first_segment() {
    let url = parts(Some("youtu.be"), "/abc/def", &[]);
    assert_eq!(video_id_from_url(&url, "orig").unwrap(), "abc");
}

#[test]
fn from_url_path_without_leading_slash() {
    let url = parts(Some("youtu.be"), "abc", &[]);
    assert_eq!(
        video_id_from_url(&url, "orig").unwrap_err().kind,
        ExtractErrorKind::MissingShortLinkId
    );
    let url = parts(Some("www.youtube.com"), "embed/abc", &[]);
    assert_eq!(
        video_id_from_url(&url, "orig").unwrap_err().kind,
        ExtractErrorKind::UnsupportedFormat
    );
}

#[test]
fn from_url_shorts_second_segment() {
    let url = parts(Some("youtube.com"), "/shorts/xyz", &[]);
    assert_eq!(video_id_from_url(&url, "orig").unwrap(), "xyz");
}
