//! Where a thumbnail of a given resolution is served.
use vstd::prelude::*;

use crate::resolution::{filename_of, Resolution};
use crate::text::to_chars;

verus! {

/// `s` without its trailing slashes.
pub open spec fn trim_end_slashes(s: Seq<char>) -> Seq<char>
    decreases s.len(),
{
    if s.len() > 0 && s.last() == '/' {
        trim_end_slashes(s.drop_last())
    } else {
        s
    }
}

/// `{base_url without trailing slashes}/vi/{video_id}/{file name}`.
pub open spec fn thumbnail_url_of(base_url: Seq<char>, video_id: Seq<char>, r: Resolution) -> Seq<
    char,
> {
    trim_end_slashes(base_url) + "/vi/"@ + video_id + "/"@ + filename_of(r)
}

/// Build the thumbnail URL for a given video ID and resolution.
pub fn thumbnail_url(base_url: &str, video_id: &str, resolution: &Resolution) -> (url: String)
    ensures
        url@ == thumbnail_url_of(base_url@, video_id@, *resolution),
{
    let cs = to_chars(base_url);
    let mut end = cs.len();
    assert(base_url@.take(end as int) =~= base_url@);
    while end > 0 && cs[end - 1] == '/'
        invariant
            cs@ == base_url@,
            end <= cs.len(),
            trim_end_slashes(base_url@) == trim_end_slashes(base_url@.take(end as int)),
        decreases end,
    {
        assert(base_url@.take(end as int).drop_last() =~= base_url@.take(end - 1));
        end = end - 1;
    }
    let mut url = base_url.substring_char(0, end).to_owned();
    assert(base_url@.subrange(0, end as int) =~= base_url@.take(end as int));
    url.append("/vi/");
    url.append(video_id);
    url.append("/");
    url.append(resolution.filename());
    url
}

/// A trailing slash on the base URL does not change the thumbnail URL.
pub proof fn lemma_trailing_slash_ignored(base_url: Seq<char>, video_id: Seq<char>, r: Resolution)
    ensures
        thumbnail_url_of(base_url.push('/'), video_id, r) == thumbnail_url_of(base_url, video_id, r),
{
    assert(base_url.push('/').drop_last() =~= base_url);
}

/// The URL is the base URL without trailing slashes, then `/vi/`, then the
/// video ID exactly as given, then `/`, then the file name of the
/// resolution: each part can be read back at its place.
pub proof fn lemma_url_parts_in_place(base_url: Seq<char>, video_id: Seq<char>, r: Resolution)
    ensures
        ({
            let u = thumbnail_url_of(base_url, video_id, r);
            let n = trim_end_slashes(base_url).len() as int;
            let m = n + 4 + video_id.len();
            &&& u.len() == m + 1 + filename_of(r).len()
            &&& u.take(n) == trim_end_slashes(base_url)
            &&& u.subrange(n, n + 4) == seq!['/', 'v', 'i', '/']
            &&& u.subrange(n + 4, m) == video_id
            &&& u[m] == '/'
            &&& u.skip(m + 1) == filename_of(r)
        }),
{
    reveal_strlit("/vi/");
    reveal_strlit("/");
    let u = thumbnail_url_of(base_url, video_id, r);
    let b = trim_end_slashes(base_url);
    let n = b.len() as int;
    let m = n + 4 + video_id.len();
    assert(u.take(n) =~= b);
    assert(u.subrange(n, n + 4) =~= seq!['/', 'v', 'i', '/']);
    assert(u.subrange(n + 4, m) =~= video_id);
    assert(u.skip(m + 1) =~= filename_of(r));
}

/// Different video IDs give different thumbnail URLs for the same base URL
/// and resolution.
pub proof fn lemma_url_determines_id(
    base_url: Seq<char>,
    id1: Seq<char>,
    id2: Seq<char>,
    r: Resolution,
)
    ensures
        thumbnail_url_of(base_url, id1, r) == thumbnail_url_of(base_url, id2, r) ==> id1 == id2,
{
    lemma_url_parts_in_place(base_url, id1, r);
    lemma_url_parts_in_place(base_url, id2, r);
}

/// Trimming the base URL removes its trailing slashes and nothing else: the
/// result begins the base URL, only slashes follow it there, and it does not
/// itself end in a slash.
pub proof fn lemma_trimmed_base(base_url: Seq<char>)
    ensures
        ({
            let b = trim_end_slashes(base_url);
            &&& b.len() <= base_url.len()
            &&& base_url.take(b.len() as int) == b
            &&& forall|i: int| b.len() <= i < base_url.len() ==> base_url[i] == '/'
            &&& b.len() == 0 || b.last() != '/'
        }),
    decreases base_url.len(),
{
    if base_url.len() > 0 && base_url.last() == '/' {
        let d = base_url.drop_last();
        lemma_trimmed_base(d);
        let b = trim_end_slashes(d);
        assert(base_url.take(b.len() as int) =~= d.take(b.len() as int));
        assert forall|i: int| b.len() <= i < base_url.len() implies base_url[i] == '/' by {
            if i < d.len() {
                assert(base_url[i] == d[i]);
            }
        }
    } else {
        assert(base_url.take(base_url.len() as int) =~= base_url);
    }
}

} // verus!
