//! The substrate's interface as values: what this module asks of its host,
//! and what the host answers. The module decides; the host acts.

use crate::address::Address;
use crate::entry::{Entry, EntryKind, EntryView, ExpressionView, PrivateShortFormExpression};
use crate::time::Timestamp;
use crate::views::views;
use vstd::prelude::*;

verus! {

/// The two kinds of link: from an author to an expression, and from a
/// sender's marker to a message in the inbox.
#[derive(Clone, Copy, Debug, PartialEq, Eq, Structural)]
pub enum LinkTag {
    Expression,
    Inbox,
}

impl LinkTag {
    pub open spec fn name(self) -> Seq<char> {
        match self {
            LinkTag::Expression => "expression"@,
            LinkTag::Inbox => "inbox"@,
        }
    }

    /// The tag as the substrate spells it.
    pub fn as_str(&self) -> (s: &'static str)
        ensures
            s@ == self.name(),
    {
        match self {
            LinkTag::Expression => "expression",
            LinkTag::Inbox => "inbox",
        }
    }
}

/// A committed entry as the substrate hands it back: where it is, what it
/// holds, and when the substrate recorded the commit.
#[derive(Debug, PartialEq, Eq)]
pub struct Record {
    pub address: Address,
    pub entry: Entry,
    pub created_at: Timestamp,
}

pub struct RecordView {
    pub address: Seq<u8>,
    pub entry: EntryView,
    pub created_at: Timestamp,
}

impl View for Record {
    type V = RecordView;

    open spec fn view(&self) -> RecordView {
        RecordView { address: self.address@, entry: self.entry@, created_at: self.created_at }
    }
}

impl Clone for Record {
    fn clone(&self) -> (r: Self)
        ensures
            r@ == self@,
    {
        Record {
            address: self.address.clone(),
            entry: self.entry.clone(),
            created_at: self.created_at,
        }
    }
}

/// One request to the substrate.
#[derive(Debug, PartialEq, Eq)]
pub enum Action {
    /// Commit an entry; answered by its address.
    Commit { entry: Entry },
    /// Compute the address an entry would have; answered by that address.
    Hash { entry: Entry },
    /// Record a link under an author in the time index.
    IndexByTime { anchor: String, target: Address, tag: LinkTag },
    /// Record a plain link.
    Link { base: Address, target: Address, tag: LinkTag },
    /// Fetch what is at an address; answered by the record, if any.
    Get { address: Address },
    /// The targets of the links of one tag on a base, as the substrate lists
    /// them.
    LinksOf { base: Address, tag: LinkTag },
    /// The targets indexed under an author within a time window, oldest
    /// first.
    QueryByTime { anchor: String, from: Timestamp, until: Timestamp, tag: LinkTag },
    /// The caller's own records of one kind.
    QueryLocal { kind: EntryKind },
    /// Hand a private expression to a peer's receiving function.
    CallRemote { to: Address, payload: PrivateShortFormExpression },
    /// This module's identifier and the calling agent's identity.
    Provenance,
}

pub enum ActionView {
    Commit { entry: EntryView },
    Hash { entry: EntryView },
    IndexByTime { anchor: Seq<char>, target: Seq<u8>, tag: LinkTag },
    Link { base: Seq<u8>, target: Seq<u8>, tag: LinkTag },
    Get { address: Seq<u8> },
    LinksOf { base: Seq<u8>, tag: LinkTag },
    QueryByTime { anchor: Seq<char>, from: Timestamp, until: Timestamp, tag: LinkTag },
    QueryLocal { kind: EntryKind },
    CallRemote { to: Seq<u8>, payload: ExpressionView },
    Provenance,
}

impl View for Action {
    type V = ActionView;

    open spec fn view(&self) -> ActionView {
        match self {
            Action::Commit { entry } => ActionView::Commit { entry: entry@ },
            Action::Hash { entry } => ActionView::Hash { entry: entry@ },
            Action::IndexByTime { anchor, target, tag } => ActionView::IndexByTime {
                anchor: anchor@,
                target: target@,
                tag: *tag,
            },
            Action::Link { base, target, tag } => ActionView::Link {
                base: base@,
                target: target@,
                tag: *tag,
            },
            Action::Get { address } => ActionView::Get { address: address@ },
            Action::LinksOf { base, tag } => ActionView::LinksOf { base: base@, tag: *tag },
            Action::QueryByTime { anchor, from, until, tag } => ActionView::QueryByTime {
                anchor: anchor@,
                from: *from,
                until: *until,
                tag: *tag,
            },
            Action::QueryLocal { kind } => ActionView::QueryLocal { kind: *kind },
            Action::CallRemote { to, payload } => ActionView::CallRemote {
                to: to@,
                payload: payload@,
            },
            Action::Provenance => ActionView::Provenance,
        }
    }
}

/// Why a request to the substrate failed.
#[derive(Debug, PartialEq, Eq)]
pub enum Fault {
    /// The substrate could not read or write.
    Substrate(String),
    /// The peer has not granted the capability that the call needs.
    Unauthorized,
    /// The peer could not be reached.
    NetworkUnreachable,
    /// The peer answered with a fault of its own.
    Remote(String),
}

pub enum FaultView {
    Substrate(Seq<char>),
    Unauthorized,
    NetworkUnreachable,
    Remote(Seq<char>),
}

impl View for Fault {
    type V = FaultView;

    open spec fn view(&self) -> FaultView {
        match self {
            Fault::Substrate(s) => FaultView::Substrate(s@),
            Fault::Unauthorized => FaultView::Unauthorized,
            Fault::NetworkUnreachable => FaultView::NetworkUnreachable,
            Fault::Remote(s) => FaultView::Remote(s@),
        }
    }
}

/// One answer of the substrate.
#[derive(Debug, PartialEq, Eq)]
pub enum Event {
    Address(Address),
    Done,
    Record(Option<Record>),
    Addresses(Vec<Address>),
    Records(Vec<Record>),
    Provenance { module: String, agent: Address },
    Failed(Fault),
}

pub enum EventView {
    Address(Seq<u8>),
    Done,
    Record(Option<RecordView>),
    Addresses(Seq<Seq<u8>>),
    Records(Seq<RecordView>),
    Provenance { module: Seq<char>, agent: Seq<u8> },
    Failed(FaultView),
}

impl View for Event {
    type V = EventView;

    open spec fn view(&self) -> EventView {
        match self {
            Event::Address(a) => EventView::Address(a@),
            Event::Done => EventView::Done,
            Event::Record(r) => EventView::Record(
                match r {
                    Some(record) => Some(record@),
                    None => None,
                },
            ),
            Event::Addresses(list) => EventView::Addresses(views(list@)),
            Event::Records(list) => EventView::Records(views(list@)),
            Event::Provenance { module, agent } => EventView::Provenance {
                module: module@,
                agent: agent@,
            },
            Event::Failed(f) => EventView::Failed(f@),
        }
    }
}

} // verus!
