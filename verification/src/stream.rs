//! The receiving end of a streamed search: results are taken in as they
//! arrive, and the way the stream ends is kept.

use crate::path::texts;
use crate::request::SearchError;
use vstd::prelude::*;
use vstd::string::StringExecFns;

verus! {

/// How far a stream has come.
#[derive(Clone, Copy, Debug, PartialEq, Eq, Structural)]
pub enum StreamStatus {
    /// Results may still arrive.
    Open,
    /// The worker finished its walk and closed the stream.
    Completed,
    /// The stream closed although the worker had not finished.
    Failed,
}

/// The status after a stream in `status` closes. Only an open stream
/// changes: it completes if the worker finished, and fails otherwise.
pub open spec fn closed_as(status: StreamStatus, finished: bool) -> StreamStatus {
    match status {
        StreamStatus::Open => if finished {
            StreamStatus::Completed
        } else {
            StreamStatus::Failed
        },
        _ => status,
    }
}

/// The results after `path` arrives on a stream in `status`: appended while
/// the stream is open, dropped afterwards.
pub open spec fn accepted(status: StreamStatus, paths: Seq<Seq<char>>, path: Seq<char>) -> Seq<
    Seq<char>,
> {
    if status == StreamStatus::Open {
        paths.push(path)
    } else {
        paths
    }
}

/// The results after all of `arrivals` have come in, in order.
pub open spec fn accepted_all(
    status: StreamStatus,
    paths: Seq<Seq<char>>,
    arrivals: Seq<Seq<char>>,
) -> Seq<Seq<char>>
    decreases arrivals.len(),
{
    if arrivals.len() == 0 {
        paths
    } else {
        accepted(status, accepted_all(status, paths, arrivals.drop_last()), arrivals.last())
    }
}

/// The text shown for a list of results: each path on a line of its own.
pub open spec fn rendered(paths: Seq<Seq<char>>) -> Seq<char>
    decreases paths.len(),
{
    if paths.len() == 0 {
        Seq::empty()
    } else {
        rendered(paths.drop_last()) + paths.last() + seq!['\n']
    }
}

/// What a consumer holds of one streamed search.
pub struct Inbox {
    received: Vec<String>,
    status: StreamStatus,
}

impl Inbox {
    /// The results received so far, in the order of their arrival.
    pub closed spec fn paths(&self) -> Seq<Seq<char>> {
        texts(self.received@)
    }

    /// How far the stream has come.
    pub closed spec fn status(&self) -> StreamStatus {
        self.status
    }

    /// An open stream without results.
    pub fn new() -> (inbox: Inbox)
        ensures
            inbox.paths() == Seq::<Seq<char>>::empty(),
            inbox.status() == StreamStatus::Open,
    {
        let inbox = Inbox { received: Vec::new(), status: StreamStatus::Open };
        assert(inbox.paths() =~= Seq::<Seq<char>>::empty());
        inbox
    }

    /// Takes in a result that has arrived.
    pub fn accept(&mut self, path: String)
        ensures
            final(self).status() == old(self).status(),
            final(self).paths() == accepted(old(self).status(), old(self).paths(), path@),
    {
        if self.status == StreamStatus::Open {
            self.received.push(path);
            assert(self.paths() =~= old(self).paths().push(path@));
        }
    }

    /// Notes that the stream has closed; `finished` says whether the worker
    /// had finished its walk.
    pub fn close(&mut self, finished: bool)
        ensures
            final(self).paths() == old(self).paths(),
            final(self).status() == closed_as(old(self).status(), finished),
    {
        if self.status == StreamStatus::Open {
            self.status = if finished {
                StreamStatus::Completed
            } else {
                StreamStatus::Failed
            };
        }
    }

    /// How far the stream has come.
    pub fn current_status(&self) -> (status: StreamStatus)
        ensures
            status == self.status(),
    {
        self.status
    }

    /// The results received so far.
    pub fn received(&self) -> (paths: &Vec<String>)
        ensures
            texts(paths@) == self.paths(),
    {
        &self.received
    }

    /// The results of a stream that completed. A stream that failed, or one
    /// that is given up while open, has none to rely on.
    pub fn into_result(self) -> (res: Result<Vec<String>, SearchError>)
        ensures
            res is Ok <==> self.status() == StreamStatus::Completed,
            res matches Ok(paths) ==> texts(paths@) == self.paths(),
            res matches Err(e) ==> e == SearchError::ChannelClosedPrematurely,
    {
        if self.status == StreamStatus::Completed {
            Ok(self.received)
        } else {
            Err(SearchError::ChannelClosedPrematurely)
        }
    }
}

/// Renders a list of results as one text, each path on a line of its own.
pub fn render(paths: &Vec<String>) -> (text: String)
    ensures
        text@ == rendered(texts(paths@)),
{
    let mut text = String::new();
    let mut i: usize = 0;
    while i < paths.len()
        invariant
            i <= paths@.len(),
            text@ == rendered(texts(paths@).take(i as int)),
        decreases paths@.len() - i,
    {
        proof {
            reveal_strlit("\n");
            let upto = texts(paths@).take(i + 1);
            assert(upto.drop_last() =~= texts(paths@).take(i as int));
            assert(upto.last() == paths@[i as int]@);
            assert("\n"@ =~= seq!['\n']);
        }
        text.append(paths[i].as_str());
        text.append("\n");
        i = i + 1;
    }
    assert(texts(paths@).take(i as int) =~= texts(paths@));
    text
}

} // verus!
