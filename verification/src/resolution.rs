//! The thumbnail resolutions that YouTube serves, from the highest down.
use vstd::prelude::*;

verus! {

/// YouTube thumbnail resolution variants, ordered from highest to lowest.
#[derive(Debug, Clone, Copy, PartialEq, Eq, Structural)]
pub enum Resolution {
    MaxRes,
    Sd,
    High,
    Medium,
    Default,
}

/// The image file that holds a thumbnail of resolution `r`.
pub open spec fn filename_of(r: Resolution) -> Seq<char> {
    match r {
        Resolution::MaxRes => "maxresdefault.jpg"@,
        Resolution::Sd => "sddefault.jpg"@,
        Resolution::High => "hqdefault.jpg"@,
        Resolution::Medium => "mqdefault.jpg"@,
        Resolution::Default => "default.jpg"@,
    }
}

/// The human-readable name of `r`, with its pixel size.
pub open spec fn label_of(r: Resolution) -> Seq<char> {
    match r {
        Resolution::MaxRes => "maxres (1280×720)"@,
        Resolution::Sd => "sd (640×480)"@,
        Resolution::High => "hq (480×360)"@,
        Resolution::Medium => "mq (320×180)"@,
        Resolution::Default => "default (120×90)"@,
    }
}

/// Every resolution, best first.
pub open spec fn all_resolutions() -> Seq<Resolution> {
    seq![
        Resolution::MaxRes,
        Resolution::Sd,
        Resolution::High,
        Resolution::Medium,
        Resolution::Default,
    ]
}

/// The position of `r` in the quality order: 0 is the best.
pub open spec fn quality_rank(r: Resolution) -> int {
    match r {
        Resolution::MaxRes => 0,
        Resolution::Sd => 1,
        Resolution::High => 2,
        Resolution::Medium => 3,
        Resolution::Default => 4,
    }
}

impl Resolution {
    pub fn filename(&self) -> (name: &'static str)
        ensures
            name@ == filename_of(*self),
    {
        match self {
            Resolution::MaxRes => "maxresdefault.jpg",
            Resolution::Sd => "sddefault.jpg",
            Resolution::High => "hqdefault.jpg",
            Resolution::Medium => "mqdefault.jpg",
            Resolution::Default => "default.jpg",
        }
    }

    /// All resolutions in descending quality order.
    pub fn all() -> (v: Vec<Resolution>)
        ensures
            v@ == all_resolutions(),
    {
        let v = vec![
            Resolution::MaxRes,
            Resolution::Sd,
            Resolution::High,
            Resolution::Medium,
            Resolution::Default,
        ];
        assert(v@ =~= all_resolutions());
        v
    }

    /// The text that names this resolution to a reader.
    pub fn label(&self) -> (text: &'static str)
        ensures
            text@ == label_of(*self),
    {
        match self {
            Resolution::MaxRes => "maxres (1280×720)",
            Resolution::Sd => "sd (640×480)",
            Resolution::High => "hq (480×360)",
            Resolution::Medium => "mq (320×180)",
            Resolution::Default => "default (120×90)",
        }
    }
}

/// `Resolution::all` lists every resolution exactly once, at the place that
/// its quality rank gives it, so that earlier entries are of higher quality.
pub proof fn lemma_all_in_quality_order(r: Resolution)
    ensures
        0 <= quality_rank(r) < all_resolutions().len(),
        all_resolutions()[quality_rank(r)] == r,
        forall|i: int|
            0 <= i < all_resolutions().len() && all_resolutions()[i] == r ==> i == quality_rank(r),
        forall|i: int| 0 <= i < all_resolutions().len() ==> quality_rank(#[trigger] all_resolutions()[i]) == i,
{
}

/// Different resolutions are stored under different file names.
pub proof fn lemma_filename_distinct(a: Resolution, b: Resolution)
    requires
        a != b,
    ensures
        filename_of(a) != filename_of(b),
{
    reveal_strlit("maxresdefault.jpg");
    reveal_strlit("sddefault.jpg");
    reveal_strlit("hqdefault.jpg");
    reveal_strlit("mqdefault.jpg");
    reveal_strlit("default.jpg");
    if filename_of(a) == filename_of(b) {
        assert(filename_of(a).len() == filename_of(b).len());
        assert(filename_of(a)[0] == filename_of(b)[0]);
    }
}

} // verus!
