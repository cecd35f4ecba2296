//! Telling a YouTube video ID apart from other text, and finding the ID in
//! the URL forms that YouTube uses.
use vstd::prelude::*;

use crate::text::{
    all_whitespace, ends_with, index_of_char, is_unicode_whitespace, lemma_index_of_char,
    lemma_split_char_first, lemma_trim_ignores_surrounding_whitespace, split_char, starts_with, str_ends_with, str_eq,
    str_starts_with, to_chars, trim, trim_end_ws, trim_start_ws, trim_ws,
};

verus! {

/// A character allowed in a video ID: ASCII letters and digits, `_` and `-`.
pub open spec fn is_video_id_char(c: char) -> bool {
    ||| ('A' <= c && c <= 'Z')
    ||| ('a' <= c && c <= 'z')
    ||| ('0' <= c && c <= '9')
    ||| c == '_'
    ||| c == '-'
}

/// Exactly 11 characters, each of them allowed in a video ID.
pub open spec fn is_video_id(s: Seq<char>) -> bool {
    s.len() == 11 && forall|i: int| 0 <= i < s.len() ==> is_video_id_char(#[trigger] s[i])
}

/// Why an input yields no video ID.
#[derive(Debug, Clone, Copy, PartialEq, Eq, Structural)]
pub enum ExtractErrorKind {
    /// Neither a video ID nor a URL that parses.
    InvalidInput,
    /// A URL whose host is neither youtube.com nor youtu.be.
    NotYouTubeUrl,
    /// A youtube.com watch URL without a `v` query parameter.
    MissingVideoParam,
    /// A youtube.com URL that is not a watch, embed, v or shorts URL.
    UnsupportedFormat,
    /// A youtu.be URL with an empty path.
    MissingShortLinkId,
}

/// The failure of `extract_video_id`: its kind, the trimmed input, and,
/// where the URL parser refused the input, the parser's own error message.
#[derive(Debug, Clone, PartialEq, Eq)]
pub struct ExtractError {
    pub kind: ExtractErrorKind,
    pub input: String,
    pub cause: Option<String>,
}

/// The mathematical value of `ExtractError`: kind, input and cause.
pub type ExtractFailure = (ExtractErrorKind, Seq<char>, Option<Seq<char>>);

/// The view of an optional text.
pub open spec fn opt_text_view(t: Option<String>) -> Option<Seq<char>> {
    match t {
        Some(s) => Some(s@),
        None => None,
    }
}

impl View for ExtractError {
    type V = ExtractFailure;

    open spec fn view(&self) -> ExtractFailure {
        (self.kind, self.input@, opt_text_view(self.cause))
    }
}

/// The text of the message that describes an error of `kind` on `input`.
pub open spec fn error_message_of(kind: ExtractErrorKind, input: Seq<char>) -> Seq<char> {
    match kind {
        ExtractErrorKind::InvalidInput => "Not a valid URL or video ID: "@ + input,
        ExtractErrorKind::NotYouTubeUrl => "Not a YouTube URL: "@ + input,
        ExtractErrorKind::MissingVideoParam => "Missing `v` query parameter in URL: "@ + input,
        ExtractErrorKind::UnsupportedFormat => "Unsupported youtube.com URL format: "@ + input,
        ExtractErrorKind::MissingShortLinkId => "No video ID in youtu.be URL: "@ + input,
    }
}

impl ExtractError {
    /// The message that describes this error to a reader.
    pub fn message(&self) -> (text: String)
        ensures
            text@ == error_message_of(self.kind, self.input@),
    {
        let head = match self.kind {
            ExtractErrorKind::InvalidInput => "Not a valid URL or video ID: ",
            ExtractErrorKind::NotYouTubeUrl => "Not a YouTube URL: ",
            ExtractErrorKind::MissingVideoParam => "Missing `v` query parameter in URL: ",
            ExtractErrorKind::UnsupportedFormat => "Unsupported youtube.com URL format: ",
            ExtractErrorKind::MissingShortLinkId => "No video ID in youtu.be URL: ",
        };
        let mut text = head.to_owned();
        text.append(self.input.as_str());
        text
    }
}

/// What the extraction reads of a parsed URL: its host, its path, and the
/// decoded `(key, value)` pairs of its query, in order.
pub struct UrlParts {
    pub host: Option<String>,
    pub path: String,
    pub query_pairs: Vec<(String, String)>,
}

/// The mathematical value of `UrlParts`.
pub struct UrlModel {
    pub host: Option<Seq<char>>,
    pub path: Seq<char>,
    pub query_pairs: Seq<(Seq<char>, Seq<char>)>,
}

impl View for UrlParts {
    type V = UrlModel;

    open spec fn view(&self) -> UrlModel {
        UrlModel {
            host: match self.host {
                Some(h) => Some(h@),
                None => None,
            },
            path: self.path@,
            query_pairs: self.query_pairs@.map_values(|p: (String, String)| (p.0@, p.1@)),
        }
    }
}

/// What `url::Url::parse` makes of `input`, read through `host_str`, `path`
/// and `query_pairs`; where it refuses the input, the message of its error.
pub uninterp spec fn url_parse(input: Seq<char>) -> Result<UrlModel, Seq<char>>;

/// Calls `url::Url::parse` on `input`. A parsed URL is read through
/// `Url::host_str`, `Url::path` and `Url::query_pairs`; a `url::ParseError`
/// is turned into its `Display` text. Claimed: the result is
/// `url_parse(input)`, parts or error text. Nothing is claimed of what
/// `url_parse` is on a given input.
#[verifier::external_body]
fn parse_url(input: &str) -> (r: Result<UrlParts, String>)
    ensures
        match r {
            Ok(parts) => url_parse(input@) == Ok::<UrlModel, Seq<char>>(parts@),
            Err(text) => url_parse(input@) == Err::<UrlModel, Seq<char>>(text@),
        },
{
    let u = url::Url::parse(input).map_err(|e| e.to_string())?;
    Ok(UrlParts {
        host: u.host_str().map(|h| h.to_string()),
        path: u.path().to_string(),
        query_pairs: u.query_pairs().map(|(k, v)| (k.into_owned(), v.into_owned())).collect(),
    })
}

/// The path segments of a URL path, as `Url::path_segments` gives them:
/// the pieces between slashes after the leading one; `None` without it.
pub open spec fn path_segments_of(path: Seq<char>) -> Option<Seq<Seq<char>>> {
    if path.len() > 0 && path[0] == '/' {
        Some(split_char(path.drop_first(), '/'))
    } else {
        None
    }
}

/// The `i`-th path segment, or the empty text where there is none.
pub open spec fn segment_or_empty(path: Seq<char>, i: int) -> Seq<char> {
    match path_segments_of(path) {
        Some(segs) => if i < segs.len() {
            segs[i]
        } else {
            seq![]
        },
        None => seq![],
    }
}

/// The value of the first query pair whose key is `key`.
pub open spec fn first_value_for(pairs: Seq<(Seq<char>, Seq<char>)>, key: Seq<char>) -> Option<
    Seq<char>,
>
    decreases pairs.len(),
{
    if pairs.len() == 0 {
        None
    } else if pairs[0].0 == key {
        Some(pairs[0].1)
    } else {
        first_value_for(pairs.drop_first(), key)
    }
}

pub open spec fn spec_from_youtube_com(url: UrlModel, original: Seq<char>) -> Result<
    Seq<char>,
    ExtractFailure,
> {
    if url.path == "/watch"@ || starts_with(url.path, "/watch/"@) {
        match first_value_for(url.query_pairs, "v"@) {
            Some(v) => Ok(v),
            None => Err((ExtractErrorKind::MissingVideoParam, original, None)),
        }
    } else {
        let first = segment_or_empty(url.path, 0);
        let id = segment_or_empty(url.path, 1);
        if (first == "embed"@ || first == "v"@ || first == "shorts"@) && id.len() > 0 {
            Ok(id)
        } else {
            Err((ExtractErrorKind::UnsupportedFormat, original, None))
        }
    }
}

pub open spec fn spec_from_youtu_be(url: UrlModel, original: Seq<char>) -> Result<
    Seq<char>,
    ExtractFailure,
> {
    match path_segments_of(url.path) {
        Some(segs) => if segs[0].len() > 0 {
            Ok(segs[0])
        } else {
            Err((ExtractErrorKind::MissingShortLinkId, original, None))
        },
        None => Err((ExtractErrorKind::MissingShortLinkId, original, None)),
    }
}

/// The video ID that a parsed URL names, by its host.
pub open spec fn spec_video_id_from_url(url: UrlModel, original: Seq<char>) -> Result<
    Seq<char>,
    ExtractFailure,
> {
    let host = match url.host {
        Some(h) => h,
        None => seq![],
    };
    if ends_with(host, "youtube.com"@) {
        spec_from_youtube_com(url, original)
    } else if host == "youtu.be"@ {
        spec_from_youtu_be(url, original)
    } else {
        Err((ExtractErrorKind::NotYouTubeUrl, original, None))
    }
}

/// The video ID in `input`: the trimmed input itself where it is a video ID,
/// else what its URL names.
pub open spec fn spec_extract_video_id(input: Seq<char>) -> Result<
    Seq<char>,
    ExtractFailure,
> {
    let t = trim_ws(input);
    if is_video_id(t) {
        Ok(t)
    } else {
        match url_parse(t) {
            Err(cause) => Err((ExtractErrorKind::InvalidInput, t, Some(cause))),
            Ok(url) => spec_video_id_from_url(url, t),
        }
    }
}

/// The view of an extraction result.
pub open spec fn result_view(r: Result<String, ExtractError>) -> Result<
    Seq<char>,
    ExtractFailure,
> {
    match r {
        Ok(s) => Ok(s@),
        Err(e) => Err(e@),
    }
}

fn video_id_char(c: char) -> (r: bool)
    ensures
        r == is_video_id_char(c),
{
    ('A' <= c && c <= 'Z') || ('a' <= c && c <= 'z') || ('0' <= c && c <= '9') || c == '_' || c
        == '-'
}

/// Returns `true` if `s` is a syntactically valid YouTube video ID
/// (exactly 11 characters from `[A-Za-z0-9_-]`).
pub fn is_valid_video_id(s: &str) -> (r: bool)
    ensures
        r == is_video_id(s@),
{
    let cs = to_chars(s);
    if cs.len() != 11 {
        return false;
    }
    let mut i: usize = 0;
    while i < cs.len()
        invariant
            cs@ == s@,
            cs.len() == 11,
            i <= cs.len(),
            forall|j: int| 0 <= j < i ==> is_video_id_char(#[trigger] cs@[j]),
        decreases cs.len() - i,
    {
        if !video_id_char(cs[i]) {
            return false;
        }
        i = i + 1;
    }
    true
}

fn extract_error(kind: ExtractErrorKind, original: &str) -> (e: ExtractError)
    ensures
        e@ == (kind, original@, None::<Seq<char>>),
{
    ExtractError { kind, input: original.to_owned(), cause: None }
}

/// The end of the segment of `cs` that starts at `start`: the index of the
/// next slash, or the length.
fn segment_end(cs: &Vec<char>, start: usize) -> (end: usize)
    requires
        start <= cs.len(),
    ensures
        start <= end <= cs.len(),
        end - start == index_of_char(cs@.skip(start as int), '/'),
{
    let mut j = start;
    while j < cs.len() && cs[j] != '/'
        invariant
            start <= j <= cs.len(),
            forall|i: int| start <= i < j ==> cs@[i] != '/',
        decreases cs.len() - j,
    {
        j = j + 1;
    }
    proof {
        let s = cs@.skip(start as int);
        assert forall|i: int| 0 <= i < j - start implies s[i] != '/' by {
            assert(s[i] == cs@[start + i]);
        }
        if j < cs.len() {
            assert(s[j - start] == cs@[j as int]);
        }
        lemma_index_of_char(s, '/', j - start);
    }
    j
}

/// The first two path segments of `path`, each empty where missing.
fn first_two_segments(path: &str) -> (r: (String, String))
    ensures
        r.0@ == segment_or_empty(path@, 0),
        r.1@ == segment_or_empty(path@, 1),
{
    let cs = to_chars(path);
    let n = cs.len();
    if n == 0 || cs[0] != '/' {
        return (String::new(), String::new());
    }
    let e1 = segment_end(&cs, 1);
    let first = path.substring_char(1, e1).to_owned();
    let ghost rest = path@.drop_first();
    proof {
        assert(rest =~= path@.skip(1));
        let k = index_of_char(rest, '/');
        reveal_with_fuel(split_char, 2);
        assert(rest.take(k as int) =~= path@.subrange(1, e1 as int));
    }
    if e1 == n {
        proof {
            reveal_with_fuel(split_char, 2);
            assert(split_char(rest, '/') == seq![rest]);
            assert(rest =~= path@.subrange(1, e1 as int));
        }
        return (first, String::new());
    }
    let e2 = segment_end(&cs, e1 + 1);
    let second = path.substring_char(e1 + 1, e2).to_owned();
    proof {
        let k = index_of_char(rest, '/');
        let tail = rest.skip(k + 1 as int);
        assert(tail =~= path@.skip(e1 + 1));
        let segs = split_char(rest, '/');
        assert(segs == seq![rest.take(k as int)] + split_char(tail, '/'));
        let k2 = index_of_char(tail, '/');
        let piece = if k2 < tail.len() {
            tail.take(k2 as int)
        } else {
            tail
        };
        assert(split_char(tail, '/')[0] == piece);
        assert(piece =~= path@.subrange(e1 + 1, e2 as int));
        assert(segs[1] == split_char(tail, '/')[0]);
    }
    (first, second)
}

/// The value of the first `v` query parameter.
fn find_v_param(pairs: &Vec<(String, String)>) -> (r: Option<String>)
    ensures
        match r {
            Some(v) => first_value_for(
                pairs@.map_values(|p: (String, String)| (p.0@, p.1@)),
                "v"@,
            ) == Some(v@),
            None => first_value_for(
                pairs@.map_values(|p: (String, String)| (p.0@, p.1@)),
                "v"@,
            ) is None,
        },
{
    let ghost all = pairs@.map_values(|p: (String, String)| (p.0@, p.1@));
    let mut i: usize = 0;
    assert(all.skip(0) =~= all);
    while i < pairs.len()
        invariant
            all == pairs@.map_values(|p: (String, String)| (p.0@, p.1@)),
            i <= pairs.len(),
            first_value_for(all, "v"@) == first_value_for(all.skip(i as int), "v"@),
        decreases pairs.len() - i,
    {
        let pair = &pairs[i];
        assert(all.skip(i as int)[0] == (pair.0@, pair.1@));
        if str_eq(pair.0.as_str(), "v") {
            return Some(pair.1.clone());
        }
        assert(all.skip(i as int).drop_first() =~= all.skip(i + 1));
        i = i + 1;
    }
    None
}

fn extract_from_youtube_com(url: &UrlParts, original: &str) -> (r: Result<String, ExtractError>)
    ensures
        result_view(r) == spec_from_youtube_com(url@, original@),
{
    let path = url.path.as_str();
    if str_eq(path, "/watch") || str_starts_with(path, "/watch/") {
        match find_v_param(&url.query_pairs) {
            Some(v) => Ok(v),
            None => Err(extract_error(ExtractErrorKind::MissingVideoParam, original)),
        }
    } else {
        let (first, id) = first_two_segments(path);
        let f = first.as_str();
        if (str_eq(f, "embed") || str_eq(f, "v") || str_eq(f, "shorts")) && !id.as_str().is_empty() {
            Ok(id)
        } else {
            Err(extract_error(ExtractErrorKind::UnsupportedFormat, original))
        }
    }
}

fn extract_from_youtu_be(url: &UrlParts, original: &str) -> (r: Result<String, ExtractError>)
    ensures
        result_view(r) == spec_from_youtu_be(url@, original@),
{
    let path = url.path.as_str();
    let (first, _) = first_two_segments(path);
    if !first.as_str().is_empty() {
        Ok(first)
    } else {
        Err(extract_error(ExtractErrorKind::MissingShortLinkId, original))
    }
}

/// The video ID that the parsed URL `url` names; `original` is the text it
/// was parsed from, and stands in the error.
pub fn video_id_from_url(url: &UrlParts, original: &str) -> (r: Result<String, ExtractError>)
    ensures
        result_view(r) == spec_video_id_from_url(url@, original@),
{
    let host = match &url.host {
        Some(h) => h.as_str(),
        None => "",
    };
    proof {
        reveal_strlit("");
        assert(""@ =~= Seq::<char>::empty());
    }
    if str_ends_with(host, "youtube.com") {
        extract_from_youtube_com(url, original)
    } else if str_eq(host, "youtu.be") {
        extract_from_youtu_be(url, original)
    } else {
        Err(extract_error(ExtractErrorKind::NotYouTubeUrl, original))
    }
}

/// Extract a YouTube video ID from a URL or a bare video ID string.
///
/// Supported formats:
/// - Bare video ID (`dQw4w9WgXcQ`)
/// - `https://www.youtube.com/watch?v=ID`
/// - `https://m.youtube.com/watch?v=ID`
/// - `https://youtu.be/ID`
/// - `https://www.youtube.com/embed/ID`
/// - `https://www.youtube.com/v/ID`
/// - `https://www.youtube.com/shorts/ID`
pub fn extract_video_id(input: &str) -> (r: Result<String, ExtractError>)
    ensures
        result_view(r) == spec_extract_video_id(input@),
{
    let trimmed = trim(input);
    if is_valid_video_id(trimmed) {
        return Ok(trimmed.to_owned());
    }
    match parse_url(trimmed) {
        Err(cause) => Err(
            ExtractError {
                kind: ExtractErrorKind::InvalidInput,
                input: trimmed.to_owned(),
                cause: Some(cause),
            },
        ),
        Ok(url) => video_id_from_url(&url, trimmed),
    }
}

/// Whitespace before and after the input does not change the result.
pub proof fn lemma_surrounding_whitespace_ignored(
    before: Seq<char>,
    input: Seq<char>,
    after: Seq<char>,
)
    requires
        all_whitespace(before),
        all_whitespace(after),
    ensures
        spec_extract_video_id(before + input + after) == spec_extract_video_id(input),
{
    lemma_trim_ignores_surrounding_whitespace(before, input, after);
}

/// A video ID is given back as it is, so that extracting an extracted ID
/// again gives the same ID.
pub proof fn lemma_video_id_returned_unchanged(id: Seq<char>)
    requires
        is_video_id(id),
    ensures
        spec_extract_video_id(id) == Ok::<Seq<char>, ExtractFailure>(id),
{
    assert(!is_unicode_whitespace(id[0]));
    assert(trim_start_ws(id) == id);
    assert(id.last() == id[10]);
    assert(!is_unicode_whitespace(id.last()));
    assert(trim_end_ws(id) == id);
}

/// Every error names the trimmed input.
pub proof fn lemma_error_names_trimmed_input(input: Seq<char>)
    ensures
        spec_extract_video_id(input) matches Err((_, text, _)) ==> text == trim_ws(input),
{
}

/// An error carries the URL parser's message exactly when the input was
/// refused as neither a video ID nor a URL.
pub proof fn lemma_cause_only_for_invalid_input(input: Seq<char>)
    ensures
        spec_extract_video_id(input) matches Err((kind, _, cause)) ==> (cause is Some <==> kind
            == ExtractErrorKind::InvalidInput),
{
}

/// A video ID is exactly eleven characters, each an ASCII upper-case or
/// lower-case letter, an ASCII digit, `_` or `-`.
pub proof fn lemma_video_id_alphabet(s: Seq<char>)
    ensures
        is_video_id(s) <==> (s.len() == 11 && forall|i: int|
            #![trigger s[i]]
            0 <= i < s.len() ==> {
                ||| 'A' <= s[i] && s[i] <= 'Z'
                ||| 'a' <= s[i] && s[i] <= 'z'
                ||| '0' <= s[i] && s[i] <= '9'
                ||| s[i] == '_'
                ||| s[i] == '-'
            }),
{
}

proof fn lemma_first_value_at(pairs: Seq<(Seq<char>, Seq<char>)>, key: Seq<char>, i: int)
    requires
        0 <= i < pairs.len(),
        pairs[i].0 == key,
        forall|j: int| 0 <= j < i ==> pairs[j].0 != key,
    ensures
        first_value_for(pairs, key) == Some(pairs[i].1),
    decreases i,
{
    if i > 0 {
        let t = pairs.drop_first();
        assert forall|j: int| 0 <= j < i - 1 implies t[j].0 != key by {
            assert(t[j] == pairs[j + 1]);
        }
        assert(t[i - 1] == pairs[i]);
        lemma_first_value_at(t, key, i - 1);
    }
}

proof fn lemma_no_value(pairs: Seq<(Seq<char>, Seq<char>)>, key: Seq<char>)
    requires
        forall|j: int| 0 <= j < pairs.len() ==> pairs[j].0 != key,
    ensures
        first_value_for(pairs, key) is None,
    decreases pairs.len(),
{
    if pairs.len() > 0 {
        let t = pairs.drop_first();
        assert forall|j: int| 0 <= j < t.len() implies t[j].0 != key by {
            assert(t[j] == pairs[j + 1]);
        }
        lemma_no_value(t, key);
    }
}

proof fn lemma_youtube_host(prefix: Seq<char>)
    ensures
        ends_with(prefix + "youtube.com"@, "youtube.com"@),
{
    let h = prefix + "youtube.com"@;
    assert(h.skip(h.len() - "youtube.com"@.len()) =~= "youtube.com"@);
}

/// On a youtube.com host (any name ending in `youtube.com`), a `/watch` path
/// or a path under `/watch/` yields the value of the first `v` query
/// parameter, whole, and a missing `v` parameter is an error.
pub proof fn lemma_watch_url_yields_first_v(
    host_prefix: Seq<char>,
    rest: Seq<char>,
    pairs: Seq<(Seq<char>, Seq<char>)>,
    original: Seq<char>,
)
    requires
        rest.len() == 0 || rest[0] == '/',
    ensures
        ({
            let url = UrlModel {
                host: Some(host_prefix + "youtube.com"@),
                path: "/watch"@ + rest,
                query_pairs: pairs,
            };
            &&& forall|i: int|
                #![trigger pairs[i]]
                0 <= i < pairs.len() && pairs[i].0 == seq!['v'] && (forall|j: int|
                    0 <= j < i ==> pairs[j].0 != seq!['v']) ==> spec_video_id_from_url(
                    url,
                    original,
                ) == Ok::<Seq<char>, ExtractFailure>(pairs[i].1)
            &&& (forall|j: int| 0 <= j < pairs.len() ==> pairs[j].0 != seq!['v'])
                ==> spec_video_id_from_url(url, original) == Err::<Seq<char>, ExtractFailure>(
                (ExtractErrorKind::MissingVideoParam, original, None),
            )
        }),
{
    reveal_strlit("/watch");
    reveal_strlit("/watch/");
    reveal_strlit("v");
    assert("v"@ =~= seq!['v']);
    lemma_youtube_host(host_prefix);
    let path = "/watch"@ + rest;
    if rest.len() == 0 {
        assert(path =~= "/watch"@);
    } else {
        assert(path.take(7) =~= "/watch/"@);
    }
    assert forall|i: int|
        #![trigger pairs[i]]
        0 <= i < pairs.len() && pairs[i].0 == seq!['v'] && (forall|j: int|
            0 <= j < i ==> pairs[j].0 != seq!['v']) implies first_value_for(pairs, "v"@) == Some(
        pairs[i].1,
    ) by {
        lemma_first_value_at(pairs, "v"@, i);
    }
    if forall|j: int| 0 <= j < pairs.len() ==> pairs[j].0 != seq!['v'] {
        lemma_no_value(pairs, "v"@);
    }
}

/// On a youtube.com host, an `/embed/ID`, `/v/ID` or `/shorts/ID` path
/// yields the ID segment, whole, whatever follows it after a slash.
pub proof fn lemma_embed_url_yields_id(
    host_prefix: Seq<char>,
    kind: Seq<char>,
    id: Seq<char>,
    tail: Seq<char>,
    pairs: Seq<(Seq<char>, Seq<char>)>,
    original: Seq<char>,
)
    requires
        kind == "embed"@ || kind == "v"@ || kind == "shorts"@,
        id.len() > 0,
        forall|i: int| 0 <= i < id.len() ==> id[i] != '/',
        tail.len() == 0 || tail[0] == '/',
    ensures
        spec_video_id_from_url(
            UrlModel {
                host: Some(host_prefix + "youtube.com"@),
                path: seq!['/'] + kind + seq!['/'] + id + tail,
                query_pairs: pairs,
            },
            original,
        ) == Ok::<Seq<char>, ExtractFailure>(id),
{
    reveal_strlit("embed");
    reveal_strlit("v");
    reveal_strlit("shorts");
    reveal_strlit("/watch");
    reveal_strlit("/watch/");
    lemma_youtube_host(host_prefix);
    let path = seq!['/'] + kind + seq!['/'] + id + tail;
    assert(path[1] == kind[0]);
    assert(path != "/watch"@);
    assert(!starts_with(path, "/watch/"@)) by {
        if starts_with(path, "/watch/"@) {
            assert(path.take(7)[1] == "/watch/"@[1]);
        }
    }
    let after = seq!['/'] + id + tail;
    assert(path.drop_first() =~= kind + after);
    assert forall|i: int| 0 <= i < kind.len() implies kind[i] != '/' by {}
    lemma_split_char_first(kind, '/', after);
    assert(after.drop_first() =~= id + tail);
    lemma_split_char_first(id, '/', tail);
}

/// On the youtu.be host, a path `/ID` yields the ID segment, whole,
/// whatever follows it after a slash.
pub proof fn lemma_short_link_yields_id(
    id: Seq<char>,
    tail: Seq<char>,
    pairs: Seq<(Seq<char>, Seq<char>)>,
    original: Seq<char>,
)
    requires
        id.len() > 0,
        forall|i: int| 0 <= i < id.len() ==> id[i] != '/',
        tail.len() == 0 || tail[0] == '/',
    ensures
        spec_video_id_from_url(
            UrlModel { host: Some("youtu.be"@), path: seq!['/'] + id + tail, query_pairs: pairs },
            original,
        ) == Ok::<Seq<char>, ExtractFailure>(id),
{
    reveal_strlit("youtu.be");
    reveal_strlit("youtube.com");
    assert(!ends_with("youtu.be"@, "youtube.com"@));
    let path = seq!['/'] + id + tail;
    assert(path.drop_first() =~= id + tail);
    lemma_split_char_first(id, '/', tail);
}

/// An input that is not a video ID once trimmed, and that the URL parser
/// accepts, yields what the parsed URL names.
pub proof fn lemma_parsed_url_decides(input: Seq<char>, url: UrlModel)
    requires
        !is_video_id(trim_ws(input)),
        url_parse(trim_ws(input)) == Ok::<UrlModel, Seq<char>>(url),
    ensures
        spec_extract_video_id(input) == spec_video_id_from_url(url, trim_ws(input)),
{
}

proof fn lemma_not_watch_path(seg: Seq<char>, tail: Seq<char>)
    requires
        forall|i: int| 0 <= i < seg.len() ==> seg[i] != '/',
        tail.len() == 0 || tail[0] == '/',
        seg != "watch"@,
    ensures
        seq!['/'] + seg + tail != "/watch"@,
        !starts_with(seq!['/'] + seg + tail, "/watch/"@),
{
    reveal_strlit("/watch");
    reveal_strlit("/watch/");
    reveal_strlit("watch");
    let path = seq!['/'] + seg + tail;
    let n = seg.len() as int;
    assert forall|i: int| 0 <= i < n implies path[1 + i] == seg[i] by {}
    if tail.len() > 0 {
        assert(path[1 + n] == '/');
    }
    assert(path.len() == 1 + n + tail.len());
    if path == "/watch"@ {
        if tail.len() > 0 {
            assert(1 + n < 6);
            assert("/watch"@[1 + n] != '/');
        } else {
            assert(seg =~= "watch"@) by {
                assert forall|i: int| 0 <= i < n implies seg[i] == "watch"@[i] by {
                    assert(path[1 + i] == "/watch"@[1 + i]);
                }
            }
        }
    }
    if starts_with(path, "/watch/"@) {
        let w = "/watch/"@;
        assert(forall|i: int| 0 <= i < 7 ==> path[i] == #[trigger] w[i]) by {
            assert forall|i: int| 0 <= i < 7 implies path[i] == #[trigger] w[i] by {
                assert(path.take(7)[i] == path[i]);
            }
        }
        if n < 5 {
            assert(tail.len() > 0);
            assert(path[1 + n] == w[1 + n]);
        } else if n > 5 {
            assert(path[6] == seg[5]);
            assert(w[6] == '/');
        } else {
            assert(seg =~= "watch"@) by {
                assert forall|i: int| 0 <= i < n implies seg[i] == "watch"@[i] by {
                    assert(path[1 + i] == w[1 + i]);
                }
            }
        }
    }
}

/// On a youtube.com host, a path whose first segment is none of `watch`,
/// `embed`, `v` and `shorts` is not a supported form.
pub proof fn lemma_other_youtube_path_unsupported(
    host_prefix: Seq<char>,
    seg: Seq<char>,
    tail: Seq<char>,
    pairs: Seq<(Seq<char>, Seq<char>)>,
    original: Seq<char>,
)
    requires
        forall|i: int| 0 <= i < seg.len() ==> seg[i] != '/',
        tail.len() == 0 || tail[0] == '/',
        seg != "watch"@ && seg != "embed"@ && seg != "v"@ && seg != "shorts"@,
    ensures
        spec_video_id_from_url(
            UrlModel {
                host: Some(host_prefix + "youtube.com"@),
                path: seq!['/'] + seg + tail,
                query_pairs: pairs,
            },
            original,
        ) == Err::<Seq<char>, ExtractFailure>(
            (ExtractErrorKind::UnsupportedFormat, original, None),
        ),
{
    lemma_youtube_host(host_prefix);
    lemma_not_watch_path(seg, tail);
    let path = seq!['/'] + seg + tail;
    assert(path.drop_first() =~= seg + tail);
    lemma_split_char_first(seg, '/', tail);
}

/// A host that is neither youtu.be nor a name ending in `youtube.com`, or a
/// URL without a host, is not a YouTube URL.
pub proof fn lemma_other_host_not_youtube(url: UrlModel, original: Seq<char>)
    requires
        url.host matches Some(h) ==> h != "youtu.be"@ && forall|p: Seq<char>|
            h != p + "youtube.com"@,
    ensures
        spec_video_id_from_url(url, original) == Err::<Seq<char>, ExtractFailure>(
            (ExtractErrorKind::NotYouTubeUrl, original, None),
        ),
{
    reveal_strlit("youtu.be");
    reveal_strlit("youtube.com");
    match url.host {
        Some(h) => {
            if ends_with(h, "youtube.com"@) {
                let p = h.take(h.len() - 11);
                assert(h =~= p + "youtube.com"@);
                assert(h != p + "youtube.com"@);
            }
        },
        None => {
            assert(Seq::<char>::empty().len() != "youtu.be"@.len());
        },
    }
}

/// On the youtu.be host, a path without a leading slash, or with an empty
/// first segment, names no video.
pub proof fn lemma_short_link_without_id(
    path: Seq<char>,
    pairs: Seq<(Seq<char>, Seq<char>)>,
    original: Seq<char>,
)
    requires
        path.len() == 0 || path[0] != '/' || path.len() == 1 || path[1] == '/',
    ensures
        spec_video_id_from_url(
            UrlModel { host: Some("youtu.be"@), path, query_pairs: pairs },
            original,
        ) == Err::<Seq<char>, ExtractFailure>(
            (ExtractErrorKind::MissingShortLinkId, original, None),
        ),
{
    reveal_strlit("youtu.be");
    reveal_strlit("youtube.com");
    assert(!ends_with("youtu.be"@, "youtube.com"@));
    if path.len() > 0 && path[0] == '/' {
        let rest = path.drop_first();
        assert(rest =~= Seq::<char>::empty() + rest);
        lemma_split_char_first(Seq::<char>::empty(), '/', rest);
    }
}

} // verus!
