//! The agent that serves files of a remote node: its status, the sessions that hold a connection to
//! it, and the events that it reports.

use crate::ide::filesystem::{IdeWatchEvent, IdeWatchKey};
use crate::text::{concat2, concat3, decimal, decimal_text, drop_trailing, has_prefix, same, without_trailing};
use vstd::prelude::*;

verus! {

#[derive(Clone, Copy, Debug, PartialEq, Eq, Structural)]
pub enum NodeAgentMode {
    Ask,
    Enabled,
    Disabled,
}

impl Default for NodeAgentMode {
    fn default() -> (r: Self)
        ensures
            r == NodeAgentMode::Ask,
    {
        NodeAgentMode::Ask
    }
}

#[derive(Clone, Debug, PartialEq, Eq)]
pub enum AgentStatus {
    NotDeployed,
    Deploying,
    Ready { version: String, arch: String, pid: u32 },
    Failed { reason: String },
    UnsupportedArch { arch: String },
    ManualUploadRequired { arch: String, remote_path: String },
    ManualUpdateRequired {
        arch: String,
        remote_path: String,
        current_agent_version: String,
        current_compatibility_version: u32,
        expected_compatibility_version: u32,
    },
    SftpFallback,
}

impl AgentStatus {
    pub fn is_ready(&self) -> (r: bool)
        ensures
            r == (*self is Ready),
    {
        match self {
            AgentStatus::Ready { .. } => true,
            _ => false,
        }
    }
}

/// Whether a path is the watched one or lies below it.
pub open spec fn is_watched(watched: Seq<char>, path: Seq<char>) -> bool {
    path == watched || (without_trailing(watched, '/') + "/"@).is_prefix_of(path)
}

/// An event of the agent as it is passed on to those who watch `key`; `None` where it is no matter
/// of theirs. `normalized` is the event's path as paths are compared.
pub fn dispatch_watch_event(key: &IdeWatchKey, event: IdeWatchEvent, normalized: &str) -> (r:
    Option<IdeWatchEvent>)
    ensures
        r == (if is_watched(key.path@, normalized@) {
            Some(event)
        } else {
            None
        }),
{
    let below = concat2(drop_trailing(key.path.as_str(), '/'), "/");
    if same(normalized, key.path.as_str()) || has_prefix(normalized, below.as_str()) {
        Some(event)
    } else {
        None
    }
}

/// What a subscriber got from its channel.
pub enum WatchReceipt {
    Event(IdeWatchEvent),
    Lagged,
    Closed,
}

/// What a subscriber does next.
pub enum WatchStep {
    Deliver(IdeWatchEvent),
    ReceiveAgain,
    End,
}

/// Events that were missed are passed over; the end of the channel ends the subscription.
pub fn next_watch_step(receipt: WatchReceipt) -> (r: WatchStep)
    ensures
        match receipt {
            WatchReceipt::Event(event) => r == WatchStep::Deliver(event),
            WatchReceipt::Lagged => r is ReceiveAgain,
            WatchReceipt::Closed => r is End,
        },
{
    match receipt {
        WatchReceipt::Event(event) => WatchStep::Deliver(event),
        WatchReceipt::Lagged => WatchStep::ReceiveAgain,
        WatchReceipt::Closed => WatchStep::End,
    }
}

/// A connection that a session holds, and the name it holds it under.
pub struct IdeConnectionLease {
    pub connection_id: String,
    pub consumer: String,
}

/// What came of a connection that became ready.
pub enum LeaseOutcome {
    /// The session was closed meanwhile: the connection is to be released.
    Closed { release: IdeConnectionLease },
    /// The session holds the connection; one that it held before is to be released.
    Held { release: Option<IdeConnectionLease> },
}

/// A session of the editor on a node. Its consumer name is its own, so that a late release cannot
/// hit another session on the same node.
pub struct IdeRemoteSession {
    pub node_id: String,
    pub consumer: String,
    pub lease: Option<IdeConnectionLease>,
    pub closed: bool,
}

impl IdeRemoteSession {
    /// A closed session holds nothing; what is held is held under the session's own name.
    pub open spec fn well_formed(self) -> bool {
        &&& self.closed ==> self.lease is None
        &&& self.lease matches Some(lease) ==> lease.consumer@ == self.consumer@
    }

    pub open spec fn connection(self) -> Option<Seq<char>> {
        match self.lease {
            Some(lease) => Some(lease.connection_id@),
            None => None,
        }
    }

    pub fn new(node_id: String, session_id: u64) -> (r: Self)
        ensures
            r.well_formed(),
            r.node_id@ == node_id@,
            r.consumer@ == node_id@ + ":"@ + decimal(session_id as nat),
            r.lease is None && !r.closed,
    {
        let consumer = concat3(node_id.as_str(), ":", decimal_text(session_id).as_str());
        IdeRemoteSession { node_id, consumer, lease: None, closed: false }
    }

    /// The name to ask for a connection under; a closed session asks for none, and the node is
    /// reported as not connected.
    pub fn begin_acquire(&self) -> (r: Result<String, String>)
        ensures
            match r {
                Ok(consumer) => !self.closed && consumer@ == self.consumer@,
                Err(node_id) => self.closed && node_id@ == self.node_id@,
            },
    {
        if self.closed {
            Err(self.node_id.clone())
        } else {
            Ok(self.consumer.clone())
        }
    }

    /// Takes up a connection that became ready.
    pub fn finish_acquire(&mut self, connection_id: String) -> (r: LeaseOutcome)
        requires
            old(self).well_formed(),
        ensures
            final(self).well_formed(),
            final(self).node_id == old(self).node_id,
            final(self).consumer == old(self).consumer,
            final(self).closed == old(self).closed,
            if old(self).closed {
                r matches LeaseOutcome::Closed { release } && release.connection_id@
                    == connection_id@ && release.consumer@ == old(self).consumer@ && final(
                    self).lease is None
            } else {
                &&& final(self).connection() == Some(connection_id@)
                &&& r matches LeaseOutcome::Held { release }
                &&& if old(self).connection() == Some(connection_id@) {
                    release is None
                } else {
                    release == old(self).lease
                }
            },
    {
        if self.closed {
            return LeaseOutcome::Closed {
                release: IdeConnectionLease { connection_id, consumer: self.consumer.clone() },
            };
        }
        let unchanged = match &self.lease {
            Some(lease) => same(lease.connection_id.as_str(), connection_id.as_str()),
            None => false,
        };
        if unchanged {
            LeaseOutcome::Held { release: None }
        } else {
            let mut next = Some(
                IdeConnectionLease { connection_id, consumer: self.consumer.clone() },
            );
            std::mem::swap(&mut next, &mut self.lease);
            LeaseOutcome::Held { release: next }
        }
    }

    pub fn connection_id(&self) -> (r: Option<String>)
        ensures
            match r {
                Some(id) => self.connection() == Some(id@),
                None => self.connection() is None,
            },
    {
        match &self.lease {
            Some(lease) => Some(lease.connection_id.clone()),
            None => None,
        }
    }

    /// Closes the session and hands out what it held, to be released.
    pub fn close(&mut self) -> (release: Option<IdeConnectionLease>)
        requires
            old(self).well_formed(),
        ensures
            final(self).well_formed(),
            final(self).closed,
            final(self).lease is None,
            final(self).node_id == old(self).node_id,
            final(self).consumer == old(self).consumer,
            release == old(self).lease,
    {
        let mut lease: Option<IdeConnectionLease> = None;
        std::mem::swap(&mut lease, &mut self.lease);
        self.closed = true;
        lease
    }
}

/// What lies below a watched path is watched, and so is the path.
pub proof fn law_watch_covers_the_tree(watched: Seq<char>, name: Seq<char>)
    ensures
        is_watched(watched, watched),
        is_watched(watched, without_trailing(watched, '/') + "/"@ + name),
{
    let base = without_trailing(watched, '/') + "/"@;
    assert((base + name).subrange(0, base.len() as int) =~= base);
}

/// A path beside a watched one is not watched, though its name starts alike.
pub proof fn law_only_the_tree_is_watched(watched: Seq<char>, path: Seq<char>)
    requires
        watched.len() > 0,
        watched.last() != '/',
    ensures
        is_watched(watched, watched),
        path != watched && !watched.is_prefix_of(path) ==> !is_watched(watched, path),
        path != watched && path.len() > watched.len() && path[watched.len() as int] != '/'
            ==> !is_watched(watched, path),
        path.len() > watched.len() && watched.is_prefix_of(path) && path[watched.len() as int]
            == '/' ==> is_watched(watched, path),
{
    reveal_strlit("/");
    assert("/"@ =~= seq!['/']);
    assert(without_trailing(watched, '/') == watched);
    let base = watched + "/"@;
    let n = watched.len() as int;
    if base.is_prefix_of(path) {
        assert(path.subrange(0, base.len() as int)[n] == '/');
        assert(path.subrange(0, n) =~= path.subrange(0, base.len() as int).subrange(0, n));
        assert(base.subrange(0, n) =~= watched);
    }
    if path.len() > watched.len() && watched.is_prefix_of(path) && path[n] == '/' {
        assert(path.subrange(0, n) == watched);
        assert(path.subrange(0, n + 1) =~= path.subrange(0, n).push(path[n]));
        assert(path.subrange(0, base.len() as int) =~= base);
    }
}

} // verus!
