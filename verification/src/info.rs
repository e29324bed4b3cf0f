//! What a resolution carries from stage to stage, and how it can end.

use crate::error::{Fault, FaultView};
use crate::parse::{retarget, Request, RequestView};
use crate::path::{join_path, join_spec};
use crate::text::{chars_of, push_all, text_of};
use vstd::prelude::*;

verus! {

/// A request and the directory it is read from.
pub struct ResolverInfo {
    pub path: String,
    pub request: Request,
}

/// A `ResolverInfo` as plain text.
pub ghost struct InfoView {
    pub path: Seq<char>,
    pub request: RequestView,
}

impl View for ResolverInfo {
    type V = InfoView;

    open spec fn view(&self) -> InfoView {
        InfoView { path: self.path@, request: self.request@ }
    }
}

/// The path that the info denotes: its directory where the target is empty,
/// else the target seen from the directory.
pub open spec fn normalized_path(info: InfoView) -> Seq<char> {
    if info.request.target.len() == 0 {
        info.path
    } else {
        join_spec(info.path, info.request.target)
    }
}

/// The denoted path with query and fragment behind it.
pub open spec fn joined_path(info: InfoView) -> Seq<char> {
    normalized_path(info) + info.request.query + info.request.fragment
}

/// The info with another directory.
pub open spec fn repath(info: InfoView, path: Seq<char>) -> InfoView {
    InfoView { path, ..info }
}

/// The info with another target.
pub open spec fn reaim(info: InfoView, target: Seq<char>) -> InfoView {
    InfoView { request: retarget(info.request, target), ..info }
}

/// The info that stands for the file at `path`: no target is left.
pub open spec fn settled(info: InfoView, path: Seq<char>) -> InfoView {
    reaim(repath(info, path), Seq::empty())
}

impl ResolverInfo {
    pub fn from(path: String, request: Request) -> (r: ResolverInfo)
        ensures
            r.path == path,
            r.request == request,
    {
        ResolverInfo { path, request }
    }

    /// The path that the info denotes.
    pub fn get_path(&self) -> (r: String)
        ensures
            r@ == normalized_path(self@),
    {
        if self.request.target.as_str().is_empty() {
            self.path.clone()
        } else {
            join_path(self.path.as_str(), self.request.target.as_str())
        }
    }

    /// The info with another directory.
    pub fn with_path(self, path: String) -> (r: ResolverInfo)
        ensures
            r@ == repath(self@, path@),
            r.path == path,
            r.request == self.request,
    {
        ResolverInfo { path, request: self.request }
    }

    /// The info with another target, whose kind is taken anew.
    pub fn with_target(self, target: &str) -> (r: ResolverInfo)
        ensures
            r@ == reaim(self@, target@),
            r.path == self.path,
    {
        ResolverInfo { path: self.path, request: self.request.with_target(target) }
    }

    /// The denoted path with query and fragment behind it.
    pub fn join(&self) -> (r: String)
        ensures
            r@ == joined_path(self@),
    {
        let mut whole = chars_of(self.get_path().as_str());
        push_all(&mut whole, &chars_of(self.request.query.as_str()));
        push_all(&mut whole, &chars_of(self.request.fragment.as_str()));
        text_of(&whole)
    }

    /// A copy of the info.
    pub fn duplicate(&self) -> (r: ResolverInfo)
        ensures
            r@ == self@,
    {
        ResolverInfo { path: self.path.clone(), request: self.request.duplicate() }
    }
}

/// How a resolution ended.
pub enum ResolverResult {
    /// The file that the request denotes, with the request's query and
    /// fragment.
    Info(ResolverInfo),
    /// The request is to be left out.
    Ignored,
}

/// A `ResolverResult` as plain text.
pub ghost enum ResultView {
    Info(InfoView),
    Ignored,
}

impl View for ResolverResult {
    type V = ResultView;

    open spec fn view(&self) -> ResultView {
        match self {
            ResolverResult::Info(info) => ResultView::Info(info@),
            ResolverResult::Ignored => ResultView::Ignored,
        }
    }
}

/// Where a resolution stands after a stage.
pub enum ResolverStats {
    /// Done.
    Success(ResolverResult),
    /// Nothing decided: the next stage takes the info.
    Resolving(ResolverInfo),
    /// Nothing found here: the caller may try elsewhere.
    Failed(ResolverInfo),
    /// The resolution cannot go on.
    Error(Fault),
}

/// A `ResolverStats` as plain text.
pub ghost enum StatsView {
    Success(ResultView),
    Resolving(InfoView),
    Failed(InfoView),
    Error(FaultView),
}

impl View for ResolverStats {
    type V = StatsView;

    open spec fn view(&self) -> StatsView {
        match self {
            ResolverStats::Success(r) => StatsView::Success(r@),
            ResolverStats::Resolving(info) => StatsView::Resolving(info@),
            ResolverStats::Failed(info) => StatsView::Failed(info@),
            ResolverStats::Error(fault) => StatsView::Error(fault@),
        }
    }
}

impl StatsView {
    /// Whether the resolution is over, well or badly.
    pub open spec fn is_finished(self) -> bool {
        self is Success || self is Error
    }
}

impl ResolverStats {
    /// Applies `op` to the info of a state that is still resolving; any
    /// other state stays as it is.
    pub fn and_then<F: FnOnce(ResolverInfo) -> ResolverStats>(self, op: F) -> (r: ResolverStats)
        requires
            self is Resolving ==> op.requires((self->Resolving_0,)),
        ensures
            self is Resolving ==> op.ensures((self->Resolving_0,), r),
            !(self is Resolving) ==> r == self,
    {
        match self {
            ResolverStats::Resolving(info) => op(info),
            _ => self,
        }
    }

    pub fn is_success(&self) -> (r: bool)
        ensures
            r == (self is Success),
    {
        matches!(self, ResolverStats::Success(_))
    }

    /// Whether the resolution is over, well or badly.
    pub fn is_finished(&self) -> (r: bool)
        ensures
            r == (self is Success || self is Error),
            r == self@.is_finished(),
    {
        matches!(self, ResolverStats::Success(_) | ResolverStats::Error(_))
    }

    /// The info of a state that carries one.
    pub fn extract_info(self) -> (r: ResolverInfo)
        requires
            self is Resolving || self is Failed,
        ensures
            self is Resolving ==> r == self->Resolving_0,
            self is Failed ==> r == self->Failed_0,
    {
        match self {
            ResolverStats::Resolving(info) => info,
            ResolverStats::Failed(info) => info,
            _ => {
                proof {
                    assert(false);
                }
                unreached()
            },
        }
    }
}

} // verus!
