//! The decisions of a thumbnail download: which URL to request next, when
//! to read a response body, when to fall back to a lower resolution, and
//! when to stop. The requests themselves are made by the caller, who hands
//! each outcome back to `DownloadSession::step`.
use vstd::prelude::*;

use crate::resolution::{all_resolutions, Resolution};
use crate::thumbnail::{thumbnail_url, thumbnail_url_of};

verus! {

/// Minimum byte size below which a response is treated as a placeholder image.
pub const MIN_THUMBNAIL_BYTES: usize = 2000;

/// The number of resolutions that a download tries.
pub const RESOLUTION_COUNT: usize = 5;

/// An HTTP status in the 2xx range, as `StatusCode::is_success` tells it.
pub open spec fn is_success_status(status: u16) -> bool {
    200 <= status && status <= 299
}

/// What became of the latest request, as the caller observed it.
#[derive(Debug, Clone, Copy, PartialEq, Eq, Structural)]
pub enum FetchOutcome {
    /// The request could not be sent or got no response.
    RequestFailed,
    /// The response arrived with this HTTP status.
    Status(u16),
    /// The body of a successful response could not be read.
    BodyFailed,
    /// The body of a successful response was read; this is its length.
    Body(usize),
}

/// Why a download ends without a thumbnail.
#[derive(Debug, Clone, PartialEq, Eq)]
pub enum DownloadError {
    RequestFailed { url: String },
    BodyReadFailed { url: String },
    HttpStatus { status: u16, url: String },
    NoThumbnail { video_id: String },
}

/// The mathematical value of `DownloadError`.
pub enum DownloadFailure {
    RequestFailed(Seq<char>),
    BodyReadFailed(Seq<char>),
    HttpStatus(u16, Seq<char>),
    NoThumbnail(Seq<char>),
}

impl View for DownloadError {
    type V = DownloadFailure;

    open spec fn view(&self) -> DownloadFailure {
        match self {
            DownloadError::RequestFailed { url } => DownloadFailure::RequestFailed(url@),
            DownloadError::BodyReadFailed { url } => DownloadFailure::BodyReadFailed(url@),
            DownloadError::HttpStatus { status, url } => DownloadFailure::HttpStatus(
                *status,
                url@,
            ),
            DownloadError::NoThumbnail { video_id } => DownloadFailure::NoThumbnail(video_id@),
        }
    }
}

/// What the caller is to do next.
#[derive(Debug, Clone, PartialEq, Eq)]
pub enum FetchStep {
    /// Request this URL and report the outcome.
    Fetch(String),
    /// Read the body of the response just received and report the outcome.
    ReadBody,
    /// The body just read is the thumbnail, of this resolution.
    Finished(Resolution),
    /// Stop: the download failed.
    Failed(DownloadError),
}

/// The mathematical value of `FetchStep`.
pub enum StepModel {
    Fetch(Seq<char>),
    ReadBody,
    Finished(Resolution),
    Failed(DownloadFailure),
}

impl View for FetchStep {
    type V = StepModel;

    open spec fn view(&self) -> StepModel {
        match self {
            FetchStep::Fetch(url) => StepModel::Fetch(url@),
            FetchStep::ReadBody => StepModel::ReadBody,
            FetchStep::Finished(r) => StepModel::Finished(*r),
            FetchStep::Failed(e) => StepModel::Failed(e@),
        }
    }
}

/// The state of a download: where thumbnails are served, which video, and
/// the index in `all_resolutions()` of the resolution being tried.
pub struct DownloadSession {
    base_url: String,
    video_id: String,
    attempt: usize,
}

/// The mathematical value of `DownloadSession`.
pub struct SessionModel {
    pub base_url: Seq<char>,
    pub video_id: Seq<char>,
    pub attempt: nat,
}

impl View for DownloadSession {
    type V = SessionModel;

    closed spec fn view(&self) -> SessionModel {
        SessionModel {
            base_url: self.base_url@,
            video_id: self.video_id@,
            attempt: self.attempt as nat,
        }
    }
}

/// The state in which a download of `video_id` from `base_url` begins.
pub open spec fn start_model(base_url: Seq<char>, video_id: Seq<char>) -> SessionModel {
    SessionModel { base_url, video_id, attempt: 0 }
}

/// The URL of the thumbnail of resolution number `i`.
pub open spec fn attempt_url(m: SessionModel, i: int) -> Seq<char> {
    thumbnail_url_of(m.base_url, m.video_id, all_resolutions()[i])
}

/// Give up on the current resolution and go on with the next lower one.
pub open spec fn fall_back(m: SessionModel) -> (SessionModel, StepModel) {
    let next = m.attempt + 1;
    let m2 = SessionModel { attempt: next, ..m };
    if next < all_resolutions().len() {
        (m2, StepModel::Fetch(attempt_url(m, next as int)))
    } else {
        (m2, StepModel::Failed(DownloadFailure::NoThumbnail(m.video_id)))
    }
}

/// The next state and step of a download in state `m` that observed `o`.
/// A 404 or a body shorter than `MIN_THUMBNAIL_BYTES` moves on to the next
/// lower resolution; any other status outside 2xx ends the download.
pub open spec fn next_step(m: SessionModel, o: FetchOutcome) -> (SessionModel, StepModel) {
    if m.attempt >= all_resolutions().len() {
        (m, StepModel::Failed(DownloadFailure::NoThumbnail(m.video_id)))
    } else {
        let url = attempt_url(m, m.attempt as int);
        match o {
            FetchOutcome::RequestFailed => (
                m,
                StepModel::Failed(DownloadFailure::RequestFailed(url)),
            ),
            FetchOutcome::Status(s) => if s == 404 {
                fall_back(m)
            } else if !is_success_status(s) {
                (m, StepModel::Failed(DownloadFailure::HttpStatus(s, url)))
            } else {
                (m, StepModel::ReadBody)
            },
            FetchOutcome::BodyFailed => (
                m,
                StepModel::Failed(DownloadFailure::BodyReadFailed(url)),
            ),
            FetchOutcome::Body(len) => if len < MIN_THUMBNAIL_BYTES {
                fall_back(m)
            } else {
                (m, StepModel::Finished(all_resolutions()[m.attempt as int]))
            },
        }
    }
}

impl DownloadSession {
    /// Begin a download of the thumbnails of `video_id` from `base_url`:
    /// the first step requests the highest resolution.
    pub fn start(base_url: &str, video_id: &str) -> (r: (DownloadSession, FetchStep))
        ensures
            r.0@ == start_model(base_url@, video_id@),
            r.1@ == StepModel::Fetch(attempt_url(r.0@, 0)),
    {
        let session = DownloadSession {
            base_url: base_url.to_owned(),
            video_id: video_id.to_owned(),
            attempt: 0,
        };
        let url = session.url_for(0);
        (session, FetchStep::Fetch(url))
    }

    fn url_for(&self, i: usize) -> (url: String)
        requires
            i < all_resolutions().len(),
        ensures
            url@ == attempt_url(self@, i as int),
    {
        let all = Resolution::all();
        thumbnail_url(self.base_url.as_str(), self.video_id.as_str(), &all[i])
    }

    fn fall_back(&mut self) -> (step: FetchStep)
        requires
            old(self)@.attempt < all_resolutions().len(),
        ensures
            (final(self)@, step@) == fall_back(old(self)@),
    {
        self.attempt = self.attempt + 1;
        if self.attempt < RESOLUTION_COUNT {
            FetchStep::Fetch(self.url_for(self.attempt))
        } else {
            FetchStep::Failed(DownloadError::NoThumbnail { video_id: self.video_id.clone() })
        }
    }

    /// Take in the outcome of the step last returned and decide the next one.
    pub fn step(&mut self, outcome: FetchOutcome) -> (step: FetchStep)
        ensures
            (final(self)@, step@) == next_step(old(self)@, outcome),
    {
        if self.attempt >= RESOLUTION_COUNT {
            return FetchStep::Failed(DownloadError::NoThumbnail { video_id: self.video_id.clone() });
        }
        match outcome {
            FetchOutcome::RequestFailed => FetchStep::Failed(
                DownloadError::RequestFailed { url: self.url_for(self.attempt) },
            ),
            FetchOutcome::Status(s) => {
                if s == 404 {
                    self.fall_back()
                } else if !(200 <= s && s <= 299) {
                    FetchStep::Failed(
                        DownloadError::HttpStatus { status: s, url: self.url_for(self.attempt) },
                    )
                } else {
                    FetchStep::ReadBody
                }
            },
            FetchOutcome::BodyFailed => FetchStep::Failed(
                DownloadError::BodyReadFailed { url: self.url_for(self.attempt) },
            ),
            FetchOutcome::Body(len) => {
                if len < MIN_THUMBNAIL_BYTES {
                    self.fall_back()
                } else {
                    let all = Resolution::all();
                    FetchStep::Finished(all[self.attempt])
                }
            },
        }
    }
}


/// The decimal digit `d`.
pub open spec fn digit_char(d: nat) -> char {
    seq!['0', '1', '2', '3', '4', '5', '6', '7', '8', '9'][d as int]
}

/// The decimal notation of `n`, without leading zeros.
pub open spec fn decimal_of(n: nat) -> Seq<char>
    decreases n,
{
    if n < 10 {
        seq![digit_char(n)]
    } else {
        decimal_of(n / 10).push(digit_char(n % 10))
    }
}

/// The canonical reason phrase of an HTTP status, as
/// `StatusCode::canonical_reason` gives it (`None` also where `StatusCode`
/// refuses the number).
pub uninterp spec fn status_reason(status: u16) -> Option<Seq<char>>;

/// Calls `reqwest::StatusCode::from_u16` and `StatusCode::canonical_reason`
/// on the status code. Claimed: the phrase is `status_reason(status)`.
/// Nothing is claimed of which phrase a given status has.
#[verifier::external_body]
fn canonical_reason(status: u16) -> (r: Option<&'static str>)
    ensures
        match r {
            Some(phrase) => status_reason(status) == Some(phrase@),
            None => status_reason(status) is None,
        },
{
    reqwest::StatusCode::from_u16(status).ok().and_then(|code| code.canonical_reason())
}

/// A status code as `StatusCode`'s `Display` writes it: the number, a space,
/// and the reason phrase or `<unknown status code>`.
pub open spec fn status_text(status: u16) -> Seq<char> {
    decimal_of(status as nat) + " "@ + match status_reason(status) {
        Some(phrase) => phrase,
        None => "<unknown status code>"@,
    }
}

/// The text of the message that describes the failure `f`.
pub open spec fn failure_message(f: DownloadFailure) -> Seq<char> {
    match f {
        DownloadFailure::RequestFailed(url) => "Request failed: "@ + url,
        DownloadFailure::BodyReadFailed(url) => "Failed to read body from "@ + url,
        DownloadFailure::HttpStatus(status, url) => "HTTP "@ + status_text(status) + " from "@
            + url,
        DownloadFailure::NoThumbnail(video_id) => "No thumbnail available for video: "@
            + video_id,
    }
}

fn digit_str(d: u16) -> (s: &'static str)
    requires
        d < 10,
    ensures
        s@ == seq![digit_char(d as nat)],
{
    proof {
        reveal_strlit("0");
        reveal_strlit("1");
        reveal_strlit("2");
        reveal_strlit("3");
        reveal_strlit("4");
        reveal_strlit("5");
        reveal_strlit("6");
        reveal_strlit("7");
        reveal_strlit("8");
        reveal_strlit("9");
    }
    let s = match d {
        0 => "0",
        1 => "1",
        2 => "2",
        3 => "3",
        4 => "4",
        5 => "5",
        6 => "6",
        7 => "7",
        8 => "8",
        _ => "9",
    };
    assert(s@ =~= seq![digit_char(d as nat)]);
    s
}

fn decimal_string(n: u16) -> (s: String)
    ensures
        s@ == decimal_of(n as nat),
    decreases n,
{
    if n < 10 {
        digit_str(n).to_owned()
    } else {
        let mut s = decimal_string(n / 10);
        s.append(digit_str(n % 10));
        s
    }
}

impl DownloadError {
    /// The message that describes this error to a reader.
    pub fn message(&self) -> (text: String)
        ensures
            text@ == failure_message(self@),
    {
        match self {
            DownloadError::RequestFailed { url } => {
                let mut text = "Request failed: ".to_owned();
                text.append(url.as_str());
                text
            },
            DownloadError::BodyReadFailed { url } => {
                let mut text = "Failed to read body from ".to_owned();
                text.append(url.as_str());
                text
            },
            DownloadError::HttpStatus { status, url } => {
                let mut text = "HTTP ".to_owned();
                let code = decimal_string(*status);
                text.append(code.as_str());
                text.append(" ");
                match canonical_reason(*status) {
                    Some(phrase) => text.append(phrase),
                    None => text.append("<unknown status code>"),
                }
                text.append(" from ");
                text.append(url.as_str());
                text
            },
            DownloadError::NoThumbnail { video_id } => {
                let mut text = "No thumbnail available for video: ".to_owned();
                text.append(video_id.as_str());
                text
            },
        }
    }
}

/// A download never goes back to a resolution it has left, and it requests
/// a new URL only when it moves on to the next lower resolution, whose URL
/// it then requests.
pub proof fn lemma_fetches_descend(m: SessionModel, o: FetchOutcome)
    ensures
        next_step(m, o).0.attempt >= m.attempt,
        next_step(m, o).0.base_url == m.base_url,
        next_step(m, o).0.video_id == m.video_id,
        next_step(m, o).1 is Fetch ==> {
            &&& next_step(m, o).0.attempt == m.attempt + 1
            &&& next_step(m, o).0.attempt < all_resolutions().len()
            &&& next_step(m, o).1 == StepModel::Fetch(attempt_url(m, m.attempt + 1 as int))
        },
{
}

/// A 404, or a body too small to be more than a placeholder, makes the
/// download fall back to the next lower resolution; after the lowest one it
/// fails with `NoThumbnail`.
pub proof fn lemma_falls_back(m: SessionModel, o: FetchOutcome)
    requires
        m.attempt < all_resolutions().len(),
        o == FetchOutcome::Status(404) || (o matches FetchOutcome::Body(len)
            && len < MIN_THUMBNAIL_BYTES),
    ensures
        next_step(m, o).0.attempt == m.attempt + 1,
        m.attempt + 1 < all_resolutions().len() ==> next_step(m, o).1 == StepModel::Fetch(
            thumbnail_url_of(m.base_url, m.video_id, all_resolutions()[m.attempt + 1 as int]),
        ),
        m.attempt + 1 == all_resolutions().len() ==> next_step(m, o).1 == StepModel::Failed(
            DownloadFailure::NoThumbnail(m.video_id),
        ),
{
}

/// Any status outside 2xx other than 404 ends the download at once with
/// that status and the URL that answered it.
pub proof fn lemma_error_status_stops(m: SessionModel, status: u16)
    requires
        m.attempt < all_resolutions().len(),
        status != 404,
        !is_success_status(status),
    ensures
        next_step(m, FetchOutcome::Status(status)) == (m, StepModel::Failed(
            DownloadFailure::HttpStatus(status, attempt_url(m, m.attempt as int)),
        )),
{
}

/// A download finishes only on a body of at least `MIN_THUMBNAIL_BYTES`,
/// and with the resolution whose URL it requested last.
pub proof fn lemma_finishes_on_full_body(m: SessionModel, o: FetchOutcome, r: Resolution)
    requires
        next_step(m, o).1 == StepModel::Finished(r),
    ensures
        m.attempt < all_resolutions().len(),
        o matches FetchOutcome::Body(len) && len >= MIN_THUMBNAIL_BYTES,
        r == all_resolutions()[m.attempt as int],
        attempt_url(m, m.attempt as int) == thumbnail_url_of(m.base_url, m.video_id, r),
{
}

/// The state after a download in state `m` observes the outcomes `os` in
/// turn, and the step that it decided last (`None` for no outcome).
pub open spec fn run(m: SessionModel, os: Seq<FetchOutcome>) -> (SessionModel, Option<StepModel>)
    decreases os.len(),
{
    if os.len() == 0 {
        (m, None)
    } else {
        let first = next_step(m, os[0]);
        let rest = run(first.0, os.drop_first());
        (rest.0, if os.len() == 1 {
            Some(first.1)
        } else {
            rest.1
        })
    }
}

/// The outcomes of trying one resolution that is not available: a 404, or
/// a 2xx response whose body is too small to be more than a placeholder.
pub open spec fn is_unavailable(b: Seq<FetchOutcome>) -> bool {
    ||| b == seq![FetchOutcome::Status(404)]
    ||| {
        &&& b.len() == 2
        &&& b[0] matches FetchOutcome::Status(s) && is_success_status(s)
        &&& b[1] matches FetchOutcome::Body(len) && len < MIN_THUMBNAIL_BYTES
    }
}

/// The outcomes of trying one resolution that is available: a 2xx response
/// with a body of at least `MIN_THUMBNAIL_BYTES`.
pub open spec fn is_available(b: Seq<FetchOutcome>) -> bool {
    &&& b.len() == 2
    &&& b[0] matches FetchOutcome::Status(s) && is_success_status(s)
    &&& b[1] matches FetchOutcome::Body(len) && len >= MIN_THUMBNAIL_BYTES
}

/// The outcomes of the blocks `bs`, one after the other.
pub open spec fn concat_blocks(bs: Seq<Seq<FetchOutcome>>) -> Seq<FetchOutcome>
    decreases bs.len(),
{
    if bs.len() == 0 {
        seq![]
    } else {
        concat_blocks(bs.drop_last()) + bs.last()
    }
}

proof fn lemma_run_append(m: SessionModel, a: Seq<FetchOutcome>, b: Seq<FetchOutcome>)
    requires
        b.len() > 0,
    ensures
        run(m, a + b) == run(run(m, a).0, b),
    decreases a.len(),
{
    if a.len() == 0 {
        assert(a + b =~= b);
    } else {
        assert((a + b)[0] == a[0]);
        assert((a + b).drop_first() =~= a.drop_first() + b);
        lemma_run_append(next_step(m, a[0]).0, a.drop_first(), b);
    }
}

proof fn lemma_run_unavailable(m: SessionModel, b: Seq<FetchOutcome>)
    requires
        m.attempt < all_resolutions().len(),
        is_unavailable(b),
    ensures
        run(m, b) == (fall_back(m).0, Some(fall_back(m).1)),
{
    reveal_with_fuel(run, 3);
    if b.len() == 2 {
        let m1 = next_step(m, b[0]).0;
        assert(m1 == m);
        assert(b.drop_first() =~= seq![b[1]]);
        assert(b.drop_first().drop_first() =~= Seq::<FetchOutcome>::empty());
    } else {
        assert(b.drop_first() =~= Seq::<FetchOutcome>::empty());
    }
}

proof fn lemma_run_unavailable_blocks(base_url: Seq<char>, video_id: Seq<char>, bs: Seq<Seq<FetchOutcome>>)
    requires
        bs.len() <= all_resolutions().len(),
        forall|i: int| 0 <= i < bs.len() ==> is_unavailable(#[trigger] bs[i]),
    ensures
        run(start_model(base_url, video_id), concat_blocks(bs)).0 == (SessionModel {
            base_url,
            video_id,
            attempt: bs.len(),
        }),
        0 < bs.len() < all_resolutions().len() ==> run(
            start_model(base_url, video_id),
            concat_blocks(bs),
        ).1 == Some(StepModel::Fetch(attempt_url(start_model(base_url, video_id), bs.len() as int))),
        bs.len() == all_resolutions().len() ==> run(
            start_model(base_url, video_id),
            concat_blocks(bs),
        ).1 == Some(StepModel::Failed(DownloadFailure::NoThumbnail(video_id))),
    decreases bs.len(),
{
    let m0 = start_model(base_url, video_id);
    if bs.len() > 0 {
        let init = bs.drop_last();
        assert forall|i: int| 0 <= i < init.len() implies is_unavailable(#[trigger] init[i]) by {
            assert(init[i] == bs[i]);
        }
        lemma_run_unavailable_blocks(base_url, video_id, init);
        let last = bs.last();
        assert(is_unavailable(bs[bs.len() - 1]));
        lemma_run_append(m0, concat_blocks(init), last);
        let mk = run(m0, concat_blocks(init)).0;
        lemma_run_unavailable(mk, last);
    }
}

/// Trying the resolutions best first, a download that finds the first
/// `skipped.len()` of them unavailable and the next one available finishes
/// with that next one.
pub proof fn lemma_download_finds_best_available(
    base_url: Seq<char>,
    video_id: Seq<char>,
    skipped: Seq<Seq<FetchOutcome>>,
    found: Seq<FetchOutcome>,
)
    requires
        skipped.len() < all_resolutions().len(),
        forall|i: int| 0 <= i < skipped.len() ==> is_unavailable(#[trigger] skipped[i]),
        is_available(found),
    ensures
        run(start_model(base_url, video_id), concat_blocks(skipped) + found).1 == Some(
            StepModel::Finished(all_resolutions()[skipped.len() as int]),
        ),
{
    let m0 = start_model(base_url, video_id);
    lemma_run_unavailable_blocks(base_url, video_id, skipped);
    lemma_run_append(m0, concat_blocks(skipped), found);
    let mk = run(m0, concat_blocks(skipped)).0;
    reveal_with_fuel(run, 3);
    assert(next_step(mk, found[0]).0 == mk);
    assert(found.drop_first() =~= seq![found[1]]);
    assert(found.drop_first().drop_first() =~= Seq::<FetchOutcome>::empty());
}

/// A download that finds every resolution unavailable, each requested in
/// turn from the best down, fails with `NoThumbnail`.
pub proof fn lemma_download_exhausted(
    base_url: Seq<char>,
    video_id: Seq<char>,
    skipped: Seq<Seq<FetchOutcome>>,
)
    requires
        skipped.len() == all_resolutions().len(),
        forall|i: int| 0 <= i < skipped.len() ==> is_unavailable(#[trigger] skipped[i]),
    ensures
        forall|k: int|
            0 < k < all_resolutions().len() ==> run(
                start_model(base_url, video_id),
                #[trigger] concat_blocks(skipped.take(k)),
            ).1 == Some(StepModel::Fetch(attempt_url(start_model(base_url, video_id), k))),
        run(start_model(base_url, video_id), concat_blocks(skipped)).1 == Some(
            StepModel::Failed(DownloadFailure::NoThumbnail(video_id)),
        ),
{
    lemma_run_unavailable_blocks(base_url, video_id, skipped);
    assert forall|k: int| 0 < k < all_resolutions().len() implies run(
        start_model(base_url, video_id),
        #[trigger] concat_blocks(skipped.take(k)),
    ).1 == Some(StepModel::Fetch(attempt_url(start_model(base_url, video_id), k))) by {
        let pre = skipped.take(k);
        assert forall|i: int| 0 <= i < pre.len() implies is_unavailable(#[trigger] pre[i]) by {
            assert(pre[i] == skipped[i]);
        }
        lemma_run_unavailable_blocks(base_url, video_id, pre);
    }
}

/// How one observation is read, by number: a status from 200 to 299 means
/// the body is read next; 404 means the next lower resolution is tried;
/// every other status ends the download with that status; a body of at
/// least 2000 bytes is the thumbnail, and a shorter one is passed over.
pub proof fn lemma_observation_classes(m: SessionModel, status: u16, len: usize)
    requires
        m.attempt < all_resolutions().len(),
    ensures
        200 <= status <= 299 ==> next_step(m, FetchOutcome::Status(status)) == (
            m,
            StepModel::ReadBody,
        ),
        status == 404 ==> next_step(m, FetchOutcome::Status(status)) == fall_back(m),
        (status < 200 || status > 299) && status != 404 ==> next_step(
            m,
            FetchOutcome::Status(status),
        ) == (m, StepModel::Failed(
            DownloadFailure::HttpStatus(status, attempt_url(m, m.attempt as int)),
        )),
        len >= 2000 ==> next_step(m, FetchOutcome::Body(len)) == (m, StepModel::Finished(
            all_resolutions()[m.attempt as int],
        )),
        len < 2000 ==> next_step(m, FetchOutcome::Body(len)) == fall_back(m),
        fall_back(m).0.attempt == m.attempt + 1,
{
}

} // verus!
