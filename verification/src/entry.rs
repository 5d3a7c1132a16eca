//! The entries this module commits: the public expression, its private twin
//! used for peer-to-peer delivery, and the marker that anchors an inbox.

use crate::json::string_views;
use crate::text::{clone_strings, same_strings};
use crate::time::Timestamp;
use vstd::prelude::*;

verus! {

/// An authenticity assertion over an expression: carried as it came, never
/// checked here.
#[derive(Debug, PartialEq, Eq)]
pub struct ExpressionProof {
    pub signature: String,
    pub key: String,
}

pub struct ProofView {
    pub signature: Seq<char>,
    pub key: Seq<char>,
}

impl View for ExpressionProof {
    type V = ProofView;

    open spec fn view(&self) -> ProofView {
        ProofView { signature: self.signature@, key: self.key@ }
    }
}

impl Clone for ExpressionProof {
    fn clone(&self) -> (r: Self)
        ensures
            r@ == self@,
    {
        ExpressionProof { signature: self.signature.clone(), key: self.key.clone() }
    }
}

impl ExpressionProof {
    pub fn same(&self, other: &ExpressionProof) -> (r: bool)
        ensures
            r == (self@ == other@),
    {
        self.signature == other.signature && self.key == other.key
    }
}

/// The content of a short-form expression: a text body over a free-form
/// list of backgrounds.
#[derive(Debug, PartialEq, Eq)]
pub struct ShortFormExpressionData {
    pub background: Vec<String>,
    pub body: String,
}

pub struct DataView {
    pub background: Seq<Seq<char>>,
    pub body: Seq<char>,
}

impl View for ShortFormExpressionData {
    type V = DataView;

    open spec fn view(&self) -> DataView {
        DataView { background: string_views(self.background@), body: self.body@ }
    }
}

impl Clone for ShortFormExpressionData {
    fn clone(&self) -> (r: Self)
        ensures
            r@ == self@,
    {
        ShortFormExpressionData {
            background: clone_strings(&self.background),
            body: self.body.clone(),
        }
    }
}

impl ShortFormExpressionData {
    pub fn same(&self, other: &ShortFormExpressionData) -> (r: bool)
        ensures
            r == (self@ == other@),
    {
        same_strings(&self.background, &other.background) && self.body == other.body
    }
}

/// What an expression is, whatever its visibility: the public and the
/// private entry share this model.
pub struct ExpressionView {
    pub data: DataView,
    pub author: Seq<char>,
    pub timestamp: Timestamp,
    pub proof: ProofView,
}

/// An expression published for everyone. Immutable once committed.
#[derive(Debug, PartialEq, Eq)]
pub struct ShortFormExpression {
    pub data: ShortFormExpressionData,
    pub author: String,
    pub timestamp: Timestamp,
    pub proof: ExpressionProof,
}

impl View for ShortFormExpression {
    type V = ExpressionView;

    open spec fn view(&self) -> ExpressionView {
        ExpressionView {
            data: self.data@,
            author: self.author@,
            timestamp: self.timestamp,
            proof: self.proof@,
        }
    }
}

impl Clone for ShortFormExpression {
    fn clone(&self) -> (r: Self)
        ensures
            r@ == self@,
    {
        ShortFormExpression {
            data: self.data.clone(),
            author: self.author.clone(),
            timestamp: self.timestamp,
            proof: self.proof.clone(),
        }
    }
}

impl ShortFormExpression {
    pub fn same(&self, other: &ShortFormExpression) -> (r: bool)
        ensures
            r == (self@ == other@),
    {
        self.data.same(&other.data) && self.author == other.author && self.timestamp
            == other.timestamp && self.proof.same(&other.proof)
    }
}

/// The same expression with private visibility: what travels between two
/// peers and what the receiver keeps.
#[derive(Debug, PartialEq, Eq)]
pub struct PrivateShortFormExpression {
    pub data: ShortFormExpressionData,
    pub author: String,
    pub timestamp: Timestamp,
    pub proof: ExpressionProof,
}

impl View for PrivateShortFormExpression {
    type V = ExpressionView;

    open spec fn view(&self) -> ExpressionView {
        ExpressionView {
            data: self.data@,
            author: self.author@,
            timestamp: self.timestamp,
            proof: self.proof@,
        }
    }
}

impl Clone for PrivateShortFormExpression {
    fn clone(&self) -> (r: Self)
        ensures
            r@ == self@,
    {
        PrivateShortFormExpression {
            data: self.data.clone(),
            author: self.author.clone(),
            timestamp: self.timestamp,
            proof: self.proof.clone(),
        }
    }
}

impl PrivateShortFormExpression {
    pub fn same(&self, other: &PrivateShortFormExpression) -> (r: bool)
        ensures
            r == (self@ == other@),
    {
        self.data.same(&other.data) && self.author == other.author && self.timestamp
            == other.timestamp && self.proof.same(&other.proof)
    }
}

/// The anchor of one sender's messages in the receiver's inbox, keyed by the
/// sender's identity.
#[derive(Debug, PartialEq, Eq)]
pub struct PrivateAcaiAgent(pub String);

impl View for PrivateAcaiAgent {
    type V = Seq<char>;

    open spec fn view(&self) -> Seq<char> {
        self.0@
    }
}

impl Clone for PrivateAcaiAgent {
    fn clone(&self) -> (r: Self)
        ensures
            r@ == self@,
    {
        PrivateAcaiAgent(self.0.clone())
    }
}

/// The three shapes of entry of this module.
#[derive(Clone, Copy, Debug, PartialEq, Eq, Structural)]
pub enum EntryKind {
    PublicExpression,
    PrivateExpression,
    PeerMarker,
}

/// Whether entries of a kind are replicated for everyone or kept by their
/// committer.
#[derive(Clone, Copy, Debug, PartialEq, Eq, Structural)]
pub enum Visibility {
    Public,
    Private,
}

/// An entry as the substrate holds it. `Foreign` stands for content that is
/// none of this module's shapes.
#[derive(Debug, PartialEq, Eq)]
pub enum Entry {
    Public(ShortFormExpression),
    Private(PrivateShortFormExpression),
    Marker(PrivateAcaiAgent),
    Foreign,
}

pub enum EntryView {
    Public(ExpressionView),
    Private(ExpressionView),
    Marker(Seq<char>),
    Foreign,
}

impl EntryView {
    /// Only the public expression is replicated for everyone.
    pub open spec fn visibility(self) -> Visibility {
        match self {
            EntryView::Public(_) => Visibility::Public,
            _ => Visibility::Private,
        }
    }

    /// Which of this module's shapes the entry has, if any.
    pub open spec fn kind(self) -> Option<EntryKind> {
        match self {
            EntryView::Public(_) => Some(EntryKind::PublicExpression),
            EntryView::Private(_) => Some(EntryKind::PrivateExpression),
            EntryView::Marker(_) => Some(EntryKind::PeerMarker),
            EntryView::Foreign => None,
        }
    }
}

impl View for Entry {
    type V = EntryView;

    open spec fn view(&self) -> EntryView {
        match self {
            Entry::Public(e) => EntryView::Public(e@),
            Entry::Private(e) => EntryView::Private(e@),
            Entry::Marker(m) => EntryView::Marker(m@),
            Entry::Foreign => EntryView::Foreign,
        }
    }
}

impl Clone for Entry {
    fn clone(&self) -> (r: Self)
        ensures
            r@ == self@,
    {
        match self {
            Entry::Public(e) => Entry::Public(e.clone()),
            Entry::Private(e) => Entry::Private(e.clone()),
            Entry::Marker(m) => Entry::Marker(m.clone()),
            Entry::Foreign => Entry::Foreign,
        }
    }
}

impl Entry {
    pub fn same(&self, other: &Entry) -> (r: bool)
        ensures
            r == (self@ == other@),
    {
        match (self, other) {
            (Entry::Public(a), Entry::Public(b)) => a.same(b),
            (Entry::Private(a), Entry::Private(b)) => a.same(b),
            (Entry::Marker(a), Entry::Marker(b)) => a.0 == b.0,
            (Entry::Foreign, Entry::Foreign) => true,
            _ => false,
        }
    }

    pub fn visibility(&self) -> (v: Visibility)
        ensures
            v == self@.visibility(),
    {
        match self {
            Entry::Public(_) => Visibility::Public,
            _ => Visibility::Private,
        }
    }

    pub fn kind(&self) -> (k: Option<EntryKind>)
        ensures
            k == self@.kind(),
    {
        match self {
            Entry::Public(_) => Some(EntryKind::PublicExpression),
            Entry::Private(_) => Some(EntryKind::PrivateExpression),
            Entry::Marker(_) => Some(EntryKind::PeerMarker),
            Entry::Foreign => None,
        }
    }
}

} // verus!
