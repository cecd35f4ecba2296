use yt_thumb::{DownloadError, DownloadSession, FetchOutcome, FetchStep, Resolution};

const BASE: &str = "http://127.0.0.1:1234";
const ID: &str = "dQw4w9WgXcQ";

fn url(file: &str) -> String {
    format!("{}/vi/{}/{}", BASE, ID, file)
}

#[test]
fn session_starts_with_maxres() {
    let (_, step) = DownloadSession::start(BASE, ID);
    assert_eq!(step, FetchStep::Fetch(url("maxresdefault.jpg")));
}

#[test]
fn download_uses_maxres_when_available() {
    let (mut s, _) = DownloadSession::start(BASE, ID);
    assert_eq!(s.step(FetchOutcome::Status(200)), FetchStep::ReadBody);
    assert_eq!(
        s.step(FetchOutcome::Body(50_000)),
        FetchStep::Finished(Resolution::MaxRes)
    );
}

#[test]
fn download_falls_back_when_maxres_is_404() {
    let (mut s, _) = DownloadSession::start(BASE, ID);
    assert_eq!(
        s.step(FetchOutcome::Status(404)),
        FetchStep::Fetch(url("sddefault.jpg"))
    );
    assert_eq!(s.step(FetchOutcome::Status(200)), FetchStep::ReadBody);
    assert_eq!(
        s.step(FetchOutcome::Body(50_000)),
        FetchStep::Finished(Resolution::Sd)
    );
}

#[test]
fn download_skips_placeholder_and_falls_back() {
    let (mut s, _) = DownloadSession::start(BASE, ID);
    assert_eq!(s.step(FetchOutcome::Status(200)), FetchStep::ReadBody);
    assert_eq!(
        s.step(FetchOutcome::Body(500)),
        FetchStep::Fetch(url("sddefault.jpg"))
    );
    assert_eq!(
        s.step(FetchOutcome::Status(404)),
        FetchStep::Fetch(url("hqdefault.jpg"))
    );
    assert_eq!(s.step(FetchOutcome::Status(200)), FetchStep::ReadBody);
    assert_eq!(
        s.step(FetchOutcome::Body(50_000)),
        FetchStep::Finished(Resolution::High)
    );
}

#[test]
fn session_placeholder_threshold_is_2000_bytes() {
    let (mut s, _) = DownloadSession::start(BASE, ID);
    s.step(FetchOutcome::Status(200));
    assert_eq!(
        s.step(FetchOutcome::Body(1_999)),
        FetchStep::Fetch(url("sddefault.jpg"))
    );
    s.step(FetchOutcome::Status(204));
    assert_eq!(
        s.step(FetchOutcome::Body(2_000)),
        FetchStep::Finished(Resolution::Sd)
    );
}

#[test]
fn download_errors_when_no_thumbnail_available() {
    let (mut s, _) = DownloadSession::start(BASE, ID);
    for file in ["sddefault.jpg", "hqdefault.jpg", "mqdefault.jpg", "default.jpg"] {
        assert_eq!(s.step(FetchOutcome::Status(404)), FetchStep::Fetch(url(file)));
    }
    let last = s.step(FetchOutcome::Status(404));
    assert_eq!(
        last,
        FetchStep::Failed(DownloadError::NoThumbnail { video_id: ID.to_string() })
    );
    if let FetchStep::Failed(e) = last {
        assert_eq!(e.message(), "No thumbnail available for video: dQw4w9WgXcQ");
    }
}

#[test]
fn download_errors_on_server_error() {
    let (mut s, _) = DownloadSession::start(BASE, ID);
    let step = s.step(FetchOutcome::Status(500));
    assert_eq!(
        step,
        FetchStep::Failed(DownloadError::HttpStatus {
            status: 500,
            url: url("maxresdefault.jpg")
        })
    );
    if let FetchStep::Failed(e) = step {
        assert!(e.message().contains("500"), "Expected HTTP 500 error");
        assert_eq!(
            e.message(),
            format!("HTTP 500 Internal Server Error from {}", url("maxresdefault.jpg"))
        );
    }
}

#[test]
fn download_errors_on_rate_limit() {
    let (mut s, _) = DownloadSession::start(BASE, ID);
    let step = s.step(FetchOutcome::Status(429));
    if let FetchStep::Failed(e) = step {
        assert!(e.message().contains("429"), "Expected HTTP 429 error");
    } else {
        panic!("expected a failure, got {:?}", step);
    }
}

#[test]
fn session_redirect_status_is_an_error() {
    let (mut s, _) = DownloadSession::start(BASE, ID);
    s.step(FetchOutcome::Status(404));
    assert_eq!(
        s.step(FetchOutcome::Status(301)),
        FetchStep::Failed(DownloadError::HttpStatus {
            status: 301,
            url: url("sddefault.jpg")
        })
    );
}

#[test]
fn session_request_and_body_failures() {
    let (mut s, _) = DownloadSession::start(BASE, ID);
    let step = s.step(FetchOutcome::RequestFailed);
    assert_eq!(
        step,
        FetchStep::Failed(DownloadError::RequestFailed { url: url("maxresdefault.jpg") })
    );
    if let FetchStep::Failed(e) = step {
        assert_eq!(e.message(), format!("Request failed: {}", url("maxresdefault.jpg")));
    }
    let step = s.step(FetchOutcome::BodyFailed);
    if let FetchStep::Failed(e) = step {
        assert_eq!(
            e.message(),
            format!("Failed to read body from {}", url("maxresdefault.jpg"))
        );
    } else {
        panic!("expected a failure");
    }
}

#[test]
fn decimal_status_in_message() {
    for (status, text) in [
        (0u16, "0 <unknown status code>"),
        (7, "7 <unknown status code>"),
        (10, "10 <unknown status code>"),
        (404, "404 Not Found"),
        (429, "429 Too Many Requests"),
        (599, "599 <unknown status code>"),
        (65535, "65535 <unknown status code>"),
    ] {
        let e = DownloadError::HttpStatus { status, url: "u".to_string() };
        assert_eq!(e.message(), format!("HTTP {} from u", text));
    }
}

#[test]
fn session_after_exhaustion_keeps_failing() {
    let (mut s, _) = DownloadSession::start(BASE, ID);
    for _ in 0..5 {
        s.step(FetchOutcome::Status(404));
    }
    assert_eq!(
        s.step(FetchOutcome::Body(50_000)),
        FetchStep::Failed(DownloadError::NoThumbnail { video_id: ID.to_string() })
    );
}
