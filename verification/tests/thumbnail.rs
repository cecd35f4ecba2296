use yt_thumb::{thumbnail_url, Resolution};

#[test]
fn thumbnail_url_maxres() {
    assert_eq!(
        thumbnail_url("https://img.youtube.com", "dQw4w9WgXcQ", &Resolution::MaxRes),
        "https://img.youtube.com/vi/dQw4w9WgXcQ/maxresdefault.jpg"
    );
}

#[test]
fn thumbnail_url_base_url_trailing_slash() {
    assert_eq!(
        thumbnail_url("https://img.youtube.com/", "abc", &Resolution::Default),
        "https://img.youtube.com/vi/abc/default.jpg"
    );
}

#[test]
fn thumbnail_url_many_trailing_slashes() {
    assert_eq!(
        thumbnail_url("http://host:8080///", "abc", &Resolution::Sd),
        "http://host:8080/vi/abc/sddefault.jpg"
    );
}

#[test]
fn thumbnail_url_trailing_slash_law_on_each_resolution() {
    for r in Resolution::all() {
        assert_eq!(
            thumbnail_url("https://img.youtube.com/", "id", &r),
            thumbnail_url("https://img.youtube.com", "id", &r)
        );
    }
}

#[test]
fn resolution_all_in_descending_order() {
    assert_eq!(
        Resolution::all(),
        vec![
            Resolution::MaxRes,
            Resolution::Sd,
            Resolution::High,
            Resolution::Medium,
            Resolution::Default
        ]
    );
}

#[test]
fn resolution_filenames() {
    let names: Vec<&str> = Resolution::all().iter().map(|r| r.filename()).collect();
    assert_eq!(
        names,
        vec![
            "maxresdefault.jpg",
            "sddefault.jpg",
            "hqdefault.jpg",
            "mqdefault.jpg",
            "default.jpg"
        ]
    );
}

#[test]
fn resolution_filenames_distinct() {
    let all = Resolution::all();
    for a in &all {
        for b in &all {
            assert_eq!(a == b, a.filename() == b.filename());
        }
    }
}

#[test]
fn resolution_labels() {
    assert_eq!(Resolution::MaxRes.label(), "maxres (1280×720)");
    assert_eq!(Resolution::Sd.label(), "sd (640×480)");
    assert_eq!(Resolution::High.label(), "hq (480×360)");
    assert_eq!(Resolution::Medium.label(), "mq (320×180)");
    assert_eq!(Resolution::Default.label(), "default (120×90)");
}
