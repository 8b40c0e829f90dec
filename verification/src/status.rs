//! What an endpoint reports of itself.

use vstd::prelude::*;

use crate::text::{join2, opt};

verus! {

/// A detail of a status.
#[derive(Debug, PartialEq, Eq)]
pub enum Detail {
    Absent,
    Text(String),
    Flag(bool),
    Count(usize),
}

/// A detail over mathematical values.
pub enum DetailView {
    Absent,
    Text(Seq<char>),
    Flag(bool),
    Count(usize),
}

impl View for Detail {
    type V = DetailView;

    open spec fn view(&self) -> DetailView {
        match self {
            Detail::Absent => DetailView::Absent,
            Detail::Text(t) => DetailView::Text(t@),
            Detail::Flag(b) => DetailView::Flag(*b),
            Detail::Count(n) => DetailView::Count(*n),
        }
    }
}

/// What an endpoint reports of itself.
#[derive(Debug)]
pub struct EndpointStatus {
    pub healthy: bool,
    /// What the endpoint reads from or writes to.
    pub target: String,
    /// How many messages wait.
    pub pending: Option<usize>,
    /// How many messages may wait.
    pub capacity: Option<usize>,
    pub error: Option<String>,
    pub details: Vec<(String, Detail)>,
}

/// A status over mathematical values.
#[verifier::ext_equal]
pub struct EndpointStatusView {
    pub healthy: bool,
    pub target: Seq<char>,
    pub pending: Option<usize>,
    pub capacity: Option<usize>,
    pub error: Option<Seq<char>>,
    pub details: Seq<(Seq<char>, DetailView)>,
}

/// Details over mathematical values.
pub open spec fn detail_views(details: Seq<(String, Detail)>) -> Seq<(Seq<char>, DetailView)> {
    details.map_values(|d: (String, Detail)| (d.0@, d.1@))
}

impl View for EndpointStatus {
    type V = EndpointStatusView;

    open spec fn view(&self) -> EndpointStatusView {
        EndpointStatusView {
            healthy: self.healthy,
            target: self.target@,
            pending: self.pending,
            capacity: self.capacity,
            error: opt(self.error),
            details: detail_views(self.details@),
        }
    }
}

/// A text, or nothing.
pub open spec fn text_or_absent(o: Option<Seq<char>>) -> DetailView {
    match o {
        Some(t) => DetailView::Text(t),
        None => DetailView::Absent,
    }
}

/// A text as a detail, or nothing.
pub fn optional_detail(o: &Option<String>) -> (d: Detail)
    ensures
        d@ == text_or_absent(opt(*o)),
{
    match o {
        Some(t) => Detail::Text(t.clone()),
        None => Detail::Absent,
    }
}

/// A text as a detail.
pub fn text_detail(t: &str) -> (d: Detail)
    ensures
        d@ == DetailView::Text(t@),
{
    Detail::Text(t.to_owned())
}

/// Adds a detail.
pub fn push_detail(details: &mut Vec<(String, Detail)>, key: &str, value: Detail)
    ensures
        detail_views(final(details)@) == detail_views(old(details)@).push((key@, value@)),
{
    let name = key.to_owned();
    let ghost before = details@;
    details.push((name, value));
    assert(detail_views(details@) =~= detail_views(before).push((key@, value@)));
}

/// No details.
pub fn no_details() -> (details: Vec<(String, Detail)>)
    ensures
        detail_views(details@) == Seq::<(Seq<char>, DetailView)>::empty(),
{
    let details: Vec<(String, Detail)> = Vec::new();
    assert(detail_views(details@) =~= Seq::<(Seq<char>, DetailView)>::empty());
    details
}

/// The status of an endpoint with nothing to count, given why it cannot be reached.
pub open spec fn plain_status(
    target: Seq<char>,
    error: Option<Seq<char>>,
    details: Seq<(Seq<char>, DetailView)>,
) -> EndpointStatusView {
    EndpointStatusView {
        healthy: error is None,
        target,
        pending: None,
        capacity: None,
        error,
        details,
    }
}

/// The status of an endpoint that can be reached and has nothing to tell.
pub fn reachable(target: &str) -> (s: EndpointStatus)
    ensures
        s@ == plain_status(target@, None, Seq::empty()),
{
    EndpointStatus {
        healthy: true,
        target: target.to_owned(),
        pending: None,
        capacity: None,
        error: None,
        details: no_details(),
    }
}

/// What asking a database came to: it did not answer, or it did and counted.
#[derive(Debug)]
pub enum Probe {
    Down(String),
    Up(Result<u64, String>),
}

/// What a probe shows: whether the endpoint is healthy, how many messages wait, and
/// what went wrong. A count that failed is an error of a healthy endpoint.
pub open spec fn probed(probe: Probe, why: Seq<char>) -> (bool, Option<usize>, Option<Seq<char>>) {
    match probe {
        Probe::Down(e) => (false, None, Some(e@)),
        Probe::Up(Ok(n)) => (true, Some(n as usize), None),
        Probe::Up(Err(e)) => (true, None, Some(why + e@)),
    }
}

/// What a probe shows. `why` is put before the error of a count.
pub fn read_probe(probe: Probe, why: &str) -> (res: (bool, Option<usize>, Option<String>))
    ensures
        (res.0, res.1, opt(res.2)) == probed(probe, why@),
{
    match probe {
        Probe::Down(e) => (false, None, Some(e)),
        Probe::Up(Ok(n)) => (true, Some(n as usize), None),
        Probe::Up(Err(e)) => (true, None, Some(join2(why, e.as_str()))),
    }
}

} // verus!
