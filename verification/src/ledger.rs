//! A model of the substrate: what a host owes this module, stated over
//! plain sequences. It is the yardstick for the operations: run against it,
//! they must publish, find and deliver as promised.
//!
//! Addresses are given out by content: the same entry always gets the same
//! address, and two entries never share one.

use crate::entry::{EntryKind, EntryView, Visibility};
use crate::errors::ErrorView;
use crate::flow::{nearer, next, OutcomeView, StepView};
use crate::methods::receive_start;
use crate::substrate::{ActionView, EventView, FaultView, LinkTag, RecordView};
use crate::time::Timestamp;
use crate::zome::{open_inbox, AccessPolicyView};
use vstd::bytes::spec_u64_to_le_bytes;
use vstd::prelude::*;

verus! {

/// One commit: the record and the agent who committed it.
pub struct CommitView {
    pub record: RecordView,
    pub owner: Seq<u8>,
}

/// One plain link.
pub struct LinkView {
    pub base: Seq<u8>,
    pub target: Seq<u8>,
    pub tag: LinkTag,
}

/// One link of the time index: a target filed under an author at a time.
pub struct TimeLinkView {
    pub anchor: Seq<char>,
    pub target: Seq<u8>,
    pub tag: LinkTag,
    pub time: Timestamp,
}

/// All that the substrate holds.
pub struct LedgerView {
    /// The substrate's clock: the time it records on a commit.
    pub clock: Timestamp,
    /// The identifier of this module.
    pub module: Seq<char>,
    /// Every entry that was ever given an address, by address.
    pub contents: Seq<EntryView>,
    /// The commits, oldest first.
    pub commits: Seq<CommitView>,
    /// The plain links, oldest first.
    pub links: Seq<LinkView>,
    /// The time index, earliest first.
    pub timeline: Seq<TimeLinkView>,
    /// The agents that let any peer deliver to them.
    pub open_inboxes: Seq<Seq<u8>>,
    /// The agents that cannot be reached.
    pub offline: Seq<Seq<u8>>,
}

/// The place of `entry` among `contents`: the index of its first
/// occurrence, or the length where it does not occur.
pub open spec fn position(contents: Seq<EntryView>, entry: EntryView) -> nat
    decreases contents.len(),
{
    if contents.len() == 0 {
        0
    } else if contents[0] == entry {
        0
    } else {
        1 + position(contents.drop_first(), entry)
    }
}

/// The address of the entry at a place: the place in little-endian words
/// of eight bytes, as many as it takes.
pub open spec fn address_at(place: nat) -> Seq<u8>
    decreases place,
{
    let low = spec_u64_to_le_bytes((place % 0x1_0000_0000_0000_0000) as u64);
    if place < 0x1_0000_0000_0000_0000 {
        low
    } else {
        low + address_at(place / 0x1_0000_0000_0000_0000)
    }
}

/// An agent sees a commit if the entry is public or the commit is its own.
pub open spec fn visible(commit: CommitView, me: Seq<u8>) -> bool {
    commit.record.entry.visibility() == Visibility::Public || commit.owner == me
}

/// The oldest record at `address` that `me` sees.
pub open spec fn find(commits: Seq<CommitView>, me: Seq<u8>, address: Seq<u8>) -> Option<
    RecordView,
>
    decreases commits.len(),
{
    if commits.len() == 0 {
        None
    } else if commits[0].record.address == address && visible(commits[0], me) {
        Some(commits[0].record)
    } else {
        find(commits.drop_first(), me, address)
    }
}

/// The targets of the links of one tag on a base, oldest first.
pub open spec fn targets_of(links: Seq<LinkView>, base: Seq<u8>, tag: LinkTag) -> Seq<Seq<u8>>
    decreases links.len(),
{
    if links.len() == 0 {
        Seq::empty()
    } else {
        let before = targets_of(links.drop_last(), base, tag);
        if links.last().base == base && links.last().tag == tag {
            before.push(links.last().target)
        } else {
            before
        }
    }
}

pub open spec fn in_window(
    link: TimeLinkView,
    anchor: Seq<char>,
    from: Timestamp,
    until: Timestamp,
    tag: LinkTag,
) -> bool {
    link.anchor == anchor && link.tag == tag && link.time.within(from, until)
}

/// The links of the time index under one author and tag whose time lies in
/// `[from, until]`, in the order of the index.
pub open spec fn window_of(
    timeline: Seq<TimeLinkView>,
    anchor: Seq<char>,
    from: Timestamp,
    until: Timestamp,
    tag: LinkTag,
) -> Seq<TimeLinkView>
    decreases timeline.len(),
{
    if timeline.len() == 0 {
        Seq::empty()
    } else {
        let before = window_of(timeline.drop_last(), anchor, from, until, tag);
        if in_window(timeline.last(), anchor, from, until, tag) {
            before.push(timeline.last())
        } else {
            before
        }
    }
}

pub open spec fn link_targets(links: Seq<TimeLinkView>) -> Seq<Seq<u8>> {
    links.map_values(|link: TimeLinkView| link.target)
}

/// The records of one kind that an agent committed itself, oldest first.
pub open spec fn own_records(commits: Seq<CommitView>, me: Seq<u8>, kind: EntryKind) -> Seq<
    RecordView,
>
    decreases commits.len(),
{
    if commits.len() == 0 {
        Seq::empty()
    } else {
        let before = own_records(commits.drop_last(), me, kind);
        if commits.last().owner == me && commits.last().record.entry.kind() == Some(kind) {
            before.push(commits.last().record)
        } else {
            before
        }
    }
}

/// Where a link of time `time` goes in the time index: behind every link
/// that is not later.
pub open spec fn slot(timeline: Seq<TimeLinkView>, time: Timestamp) -> nat
    decreases timeline.len(),
{
    if timeline.len() == 0 {
        0
    } else if timeline[0].time.at_or_before(time) {
        1 + slot(timeline.drop_first(), time)
    } else {
        0
    }
}

/// A list of agents without one of them.
pub open spec fn without(agents: Seq<Seq<u8>>, agent: Seq<u8>) -> Seq<Seq<u8>>
    decreases agents.len(),
{
    if agents.len() == 0 {
        Seq::empty()
    } else {
        let before = without(agents.drop_last(), agent);
        if agents.last() == agent {
            before
        } else {
            before.push(agents.last())
        }
    }
}

pub open spec fn not_committed() -> Seq<char> {
    "Cannot index an entry that is not committed"@
}

pub open spec fn no_onward_call() -> Seq<char> {
    "A delivery cannot call a peer"@
}

pub open spec fn stalled() -> Seq<char> {
    "The operation made no progress"@
}

impl LedgerView {
    /// A substrate that holds nothing yet.
    pub open spec fn genesis(module: Seq<char>) -> LedgerView {
        LedgerView {
            clock: Timestamp { secs: 0, nanos: 0 },
            module,
            contents: Seq::empty(),
            commits: Seq::empty(),
            links: Seq::empty(),
            timeline: Seq::empty(),
            open_inboxes: Seq::empty(),
            offline: Seq::empty(),
        }
    }

    pub open spec fn at(self, now: Timestamp) -> LedgerView {
        LedgerView { clock: now, ..self }
    }

    pub open spec fn granting(self, agent: Seq<u8>) -> LedgerView {
        LedgerView { open_inboxes: self.open_inboxes.push(agent), ..self }
    }

    /// An agent installs a grant. The grant of the open inbox lets any peer
    /// deliver to the agent; no other grant bears on this module.
    pub open spec fn granted(self, agent: Seq<u8>, policy: AccessPolicyView) -> LedgerView {
        if policy == open_inbox() {
            self.granting(agent)
        } else {
            self
        }
    }

    /// An agent takes its grants back.
    pub open spec fn revoking(self, agent: Seq<u8>) -> LedgerView {
        LedgerView { open_inboxes: without(self.open_inboxes, agent), ..self }
    }

    pub open spec fn losing(self, agent: Seq<u8>) -> LedgerView {
        LedgerView { offline: self.offline.push(agent), ..self }
    }

    /// The address of an entry. An entry not seen before is given the next
    /// address, and keeps it.
    pub open spec fn hash(self, entry: EntryView) -> (LedgerView, Seq<u8>) {
        let place = position(self.contents, entry);
        if place < self.contents.len() {
            (self, address_at(place))
        } else {
            (LedgerView { contents: self.contents.push(entry), ..self }, address_at(place))
        }
    }

    /// What `me` finds at an address.
    pub open spec fn fetch(self, me: Seq<u8>, address: Seq<u8>) -> Option<RecordView> {
        find(self.commits, me, address)
    }

    /// Commits an entry at the clock's time. Committing what the agent
    /// already sees at that address adds nothing.
    pub open spec fn commit(self, me: Seq<u8>, entry: EntryView) -> (LedgerView, Seq<u8>) {
        let (named, address) = self.hash(entry);
        if named.fetch(me, address) is Some {
            (named, address)
        } else {
            (
                LedgerView {
                    commits: named.commits.push(
                        CommitView {
                            record: RecordView { address, entry, created_at: self.clock },
                            owner: me,
                        },
                    ),
                    ..named
                },
                address,
            )
        }
    }

    pub open spec fn link(self, base: Seq<u8>, target: Seq<u8>, tag: LinkTag) -> LedgerView {
        LedgerView { links: self.links.push(LinkView { base, target, tag }), ..self }
    }

    pub open spec fn targets(self, base: Seq<u8>, tag: LinkTag) -> Seq<Seq<u8>> {
        targets_of(self.links, base, tag)
    }

    /// Files a committed entry under an author, at the time of its commit.
    /// What is not committed cannot be filed.
    pub open spec fn index(self, me: Seq<u8>, anchor: Seq<char>, target: Seq<u8>, tag: LinkTag) -> (
        LedgerView,
        EventView,
    ) {
        match self.fetch(me, target) {
            Some(record) => (
                LedgerView {
                    timeline: self.timeline.insert(
                        slot(self.timeline, record.created_at) as int,
                        TimeLinkView { anchor, target, tag, time: record.created_at },
                    ),
                    ..self
                },
                EventView::Done,
            ),
            None => (self, EventView::Failed(FaultView::Substrate(not_committed()))),
        }
    }

    pub open spec fn window(
        self,
        anchor: Seq<char>,
        from: Timestamp,
        until: Timestamp,
        tag: LinkTag,
    ) -> Seq<Seq<u8>> {
        link_targets(window_of(self.timeline, anchor, from, until, tag))
    }

    pub open spec fn own(self, me: Seq<u8>, kind: EntryKind) -> Seq<RecordView> {
        own_records(self.commits, me, kind)
    }

    /// What the substrate does on a request of `me`, and what it answers.
    /// A call to a peer runs the peer's receiving operation, where the peer
    /// can be reached and has opened its inbox; `hops` bounds how far calls
    /// may chain.
    pub open spec fn act(self, me: Seq<u8>, action: ActionView, hops: nat) -> (
        LedgerView,
        EventView,
    )
        decreases hops, 0nat, 0nat, 0nat,
    {
        match action {
            ActionView::Commit { entry } => {
                let (after, address) = self.commit(me, entry);
                (after, EventView::Address(address))
            },
            ActionView::Hash { entry } => {
                let (after, address) = self.hash(entry);
                (after, EventView::Address(address))
            },
            ActionView::IndexByTime { anchor, target, tag } => self.index(me, anchor, target, tag),
            ActionView::Link { base, target, tag } => (
                self.link(base, target, tag),
                EventView::Done,
            ),
            ActionView::Get { address } => (self, EventView::Record(self.fetch(me, address))),
            ActionView::LinksOf { base, tag } => (
                self,
                EventView::Addresses(self.targets(base, tag)),
            ),
            ActionView::QueryByTime { anchor, from, until, tag } => (
                self,
                EventView::Addresses(self.window(anchor, from, until, tag)),
            ),
            ActionView::QueryLocal { kind } => (self, EventView::Records(self.own(me, kind))),
            ActionView::Provenance => (
                self,
                EventView::Provenance { module: self.module, agent: me },
            ),
            ActionView::CallRemote { to, payload } => {
                if hops == 0 {
                    (self, EventView::Failed(FaultView::Substrate(no_onward_call())))
                } else if self.offline.contains(to) {
                    (self, EventView::Failed(FaultView::NetworkUnreachable))
                } else if !self.open_inboxes.contains(to) {
                    (self, EventView::Failed(FaultView::Unauthorized))
                } else {
                    let (after, result) = run(self, to, receive_start(payload), (hops - 1) as nat);
                    match result {
                        Ok(_) => (after, EventView::Done),
                        Err(e) => (after, EventView::Failed(FaultView::Remote(e.message()))),
                    }
                }
            },
        }
    }
}

/// An operation run to its end on behalf of `me`: the substrate it leaves
/// and its result.
pub open spec fn run(ledger: LedgerView, me: Seq<u8>, step: StepView, hops: nat) -> (
    LedgerView,
    Result<OutcomeView, ErrorView>,
)
    decreases hops, 1nat, crate::flow::step_rank(step), crate::flow::step_load(step),
{
    match step {
        StepView::Done(result) => (ledger, result),
        StepView::Ask(flow, action) => {
            let (after, event) = ledger.act(me, action, hops);
            let then = next(flow, event);
            if nearer(then, step) {
                run(after, me, then, hops)
            } else {
                (after, Err(ErrorView::InternalError(stalled())))
            }
        },
    }
}

} // verus!
