//! The event feed of one observer: buffered watch records first, then
//! periodic polling, for as long as the observer stays.

use vstd::prelude::*;
use vstd::string::*;
use crate::clients::aggregator::Aggregator;
use crate::clients::transport::Reply;
use crate::text::{push_record_lines, record_lines, texts};

verus! {

/// Seconds between two polls of the whole cluster.
pub const POLL_INTERVAL_SECS: u64 = 3;

/// Seconds between two keep-alives of the transport.
pub const KEEP_ALIVE_SECS: u64 = 15;

/// The name of the event that carries one change record.
pub fn pod_update_event() -> (name: &'static str)
    ensures
        name@ == "pod-update"@,
{
    "pod-update"
}

/// The name of the event that carries the whole merged pod list.
pub fn pod_list_event() -> (name: &'static str)
    ensures
        name@ == "pod-list"@,
{
    "pod-list"
}

/// A feed as the contracts see it.
pub struct Feed {
    /// The registry was empty when the observer came: nothing is ever sent.
    pub idle: bool,
    /// The change records that are still to be sent, in order.
    pub backlog: Seq<Seq<char>>,
}

/// What a feed does next, as the contracts see it.
pub enum Signal {
    /// Send nothing but keep-alives.
    KeepAlive,
    /// Send this record as a `pod-update` event.
    PodUpdate { data: Seq<char> },
    /// Wait for the poll interval, then send the merged pod list as a
    /// `pod-list` event.
    Poll,
}

/// The feed's rule: an idle feed stays idle; otherwise the backlog is sent
/// record by record, and after it the feed polls for ever.
pub open spec fn feed_step(feed: Feed) -> (Feed, Signal) {
    if feed.idle {
        (feed, Signal::KeepAlive)
    } else if feed.backlog.len() > 0 {
        (
            Feed { idle: false, backlog: feed.backlog.drop_first() },
            Signal::PodUpdate { data: feed.backlog[0] },
        )
    } else {
        (feed, Signal::Poll)
    }
}

/// The feed after `n` steps.
pub open spec fn feed_after(feed: Feed, n: nat) -> Feed
    decreases n,
{
    if n == 0 {
        feed
    } else {
        feed_after(feed_step(feed).0, (n - 1) as nat)
    }
}

/// What the feed does in its step number `n`, counted from zero.
pub open spec fn signal_at(feed: Feed, n: nat) -> Signal {
    feed_step(feed_after(feed, n)).1
}

/// The records that the watches had buffered: of each reply that is not a
/// failure, the lines of its body that are not blank, reply after reply.
pub open spec fn buffered_records(replies: Seq<Reply>) -> Seq<Seq<char>>
    decreases replies.len(),
{
    if replies.len() == 0 {
        Seq::empty()
    } else {
        buffered_records(replies.drop_last()) + match replies.last().text_outcome() {
            Ok(body) => record_lines(body@),
            Err(_) => Seq::empty(),
        }
    }
}

/// An idle feed never sends a record and never ends: every step is a
/// keep-alive and leaves the feed as it was.
pub proof fn lemma_idle_feed(feed: Feed, n: nat)
    requires
        feed.idle,
    ensures
        feed_after(feed, n) == feed,
        signal_at(feed, n) == Signal::KeepAlive,
    decreases n,
{
    if n > 0 {
        lemma_idle_feed(feed, (n - 1) as nat);
    }
}

/// A feed that is not idle sends its backlog record by record, in order, and
/// polls in every step after that.
pub proof fn lemma_replay_then_poll(feed: Feed, n: nat)
    requires
        !feed.idle,
    ensures
        n < feed.backlog.len() ==> signal_at(feed, n) == (Signal::PodUpdate {
            data: feed.backlog[n as int],
        }),
        n >= feed.backlog.len() ==> signal_at(feed, n) == Signal::Poll,
        !feed_after(feed, n).idle,
        feed_after(feed, n).backlog == if n <= feed.backlog.len() {
            feed.backlog.skip(n as int)
        } else {
            Seq::empty()
        },
    decreases n,
{
    if n == 0 {
        assert(feed.backlog.skip(0) =~= feed.backlog);
    } else {
        let next = feed_step(feed).0;
        lemma_replay_then_poll(next, (n - 1) as nat);
        if feed.backlog.len() > 0 {
            assert(next.backlog == feed.backlog.drop_first());
            if n <= feed.backlog.len() {
                assert(next.backlog.skip(n - 1) =~= feed.backlog.skip(n as int));
            }
        }
    }
}

/// The event feed of one observer.
#[derive(Debug)]
pub struct PodEvents {
    idle: bool,
    records: Vec<String>,
    sent: usize,
}

impl View for PodEvents {
    type V = Feed;

    closed spec fn view(&self) -> Feed {
        Feed {
            idle: self.idle,
            backlog: if self.sent <= self.records@.len() {
                texts(self.records@).skip(self.sent as int)
            } else {
                Seq::empty()
            },
        }
    }
}

/// What the caller is to do for an observer.
#[derive(Debug)]
pub enum Emission {
    /// Send nothing but keep-alives, every `KEEP_ALIVE_SECS`.
    KeepAlive,
    /// Send `data` as a `pod-update` event.
    PodUpdate { data: String },
    /// Wait for `secs`, then send the merged pod list as a `pod-list` event.
    PollAfter { secs: u64 },
}

impl Emission {
    /// The emission as the contracts see it.
    pub open spec fn signal(self) -> Signal {
        match self {
            Emission::KeepAlive => Signal::KeepAlive,
            Emission::PodUpdate { data } => Signal::PodUpdate { data: data@ },
            Emission::PollAfter { .. } => Signal::Poll,
        }
    }
}

/// Opens the feed of an observer from what the nodes answered to their watch
/// calls. With an empty registry the feed is idle. Otherwise a node whose
/// watch failed is left out, and the records that the others had buffered
/// make the backlog, node after node.
pub fn handle_pod_events(aggregator: &Aggregator, replies: Vec<Reply>) -> (events: PodEvents)
    ensures
        events@.idle == (aggregator@.len() == 0),
        events@.backlog == if aggregator@.len() == 0 {
            Seq::<Seq<char>>::empty()
        } else {
            buffered_records(replies@)
        },
{
    if aggregator.node_count() == 0 {
        let events = PodEvents { idle: true, records: Vec::new(), sent: 0 };
        assert(events@.backlog =~= Seq::<Seq<char>>::empty());
        return events;
    }
    let mut records: Vec<String> = Vec::new();
    assert(texts(records@) =~= Seq::<Seq<char>>::empty());
    for reply in it: replies
        invariant
            it.seq() == replies@,
            texts(records@) == buffered_records(replies@.take(it.index() as int)),
    {
        proof {
            let upto = replies@.take(it.index() + 1);
            assert(upto.drop_last() =~= replies@.take(it.index() as int));
            assert(upto.last() == reply);
        }
        match reply.read_text() {
            Ok(body) => {
                push_record_lines(body.as_str(), &mut records);
            },
            Err(_) => {
                assert(texts(records@) + Seq::<Seq<char>>::empty() =~= texts(records@));
            },
        }
    }
    assert(replies@.take(replies@.len() as int) =~= replies@);
    let events = PodEvents { idle: false, records, sent: 0 };
    assert(events@.backlog =~= buffered_records(replies@));
    events
}

impl PodEvents {
    /// The next thing to do for the observer: see `feed_step`.
    pub fn next(&mut self) -> (emission: Emission)
        ensures
            final(self)@ == feed_step(old(self)@).0,
            emission.signal() == feed_step(old(self)@).1,
            emission matches Emission::PollAfter { secs } ==> secs == POLL_INTERVAL_SECS,
    {
        if self.idle {
            Emission::KeepAlive
        } else if self.sent < self.records.len() {
            let data = self.records[self.sent].clone();
            proof {
                let backlog = texts(self.records@).skip(self.sent as int);
                assert(backlog[0] == data@);
                assert(texts(self.records@).skip(self.sent + 1) =~= backlog.drop_first());
            }
            self.sent = self.sent + 1;
            Emission::PodUpdate { data }
        } else {
            proof {
                if self.sent == self.records@.len() {
                    assert(texts(self.records@).skip(self.sent as int) =~= Seq::<
                        Seq<char>,
                    >::empty());
                }
            }
            Emission::PollAfter { secs: POLL_INTERVAL_SECS }
        }
    }
}

} // verus!
