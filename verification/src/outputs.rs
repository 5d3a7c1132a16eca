//! What callers get back: an expression wrapped with where it came from.

use crate::address::Address;
use crate::entry::{ExpressionView, PrivateShortFormExpression, ShortFormExpression};
use crate::time::Timestamp;
use crate::views::views;
use vstd::prelude::*;

verus! {

/// Provenance of one record: its address, the module that holds it, the
/// agent on whose behalf it was read, and the time the substrate recorded at
/// commit.
#[derive(Debug, PartialEq, Eq)]
pub struct HolochainData {
    pub address: Address,
    pub expression_dna: String,
    pub creator: Address,
    pub created_at: Timestamp,
}

pub struct ProvenanceView {
    pub address: Seq<u8>,
    pub expression_dna: Seq<char>,
    pub creator: Seq<u8>,
    pub created_at: Timestamp,
}

impl View for HolochainData {
    type V = ProvenanceView;

    open spec fn view(&self) -> ProvenanceView {
        ProvenanceView {
            address: self.address@,
            expression_dna: self.expression_dna@,
            creator: self.creator@,
            created_at: self.created_at,
        }
    }
}

/// An expression with its provenance, whatever its visibility.
pub struct EnvelopeView {
    pub expression_data: ExpressionView,
    pub holochain_data: ProvenanceView,
}

/// A public expression with its provenance. Assembled per read, never stored.
#[derive(Debug, PartialEq, Eq)]
pub struct ExpressionResponse {
    pub expression_data: ShortFormExpression,
    pub holochain_data: HolochainData,
}

impl View for ExpressionResponse {
    type V = EnvelopeView;

    open spec fn view(&self) -> EnvelopeView {
        EnvelopeView {
            expression_data: self.expression_data@,
            holochain_data: self.holochain_data@,
        }
    }
}

/// A private expression with its provenance.
#[derive(Debug, PartialEq, Eq)]
pub struct PrivateExpressionResponse {
    pub expression_data: PrivateShortFormExpression,
    pub holochain_data: HolochainData,
}

impl View for PrivateExpressionResponse {
    type V = EnvelopeView;

    open spec fn view(&self) -> EnvelopeView {
        EnvelopeView {
            expression_data: self.expression_data@,
            holochain_data: self.holochain_data@,
        }
    }
}

#[derive(Debug, PartialEq, Eq)]
pub struct ManyExpressionResponse(pub Vec<ExpressionResponse>);

impl View for ManyExpressionResponse {
    type V = Seq<EnvelopeView>;

    open spec fn view(&self) -> Seq<EnvelopeView> {
        views(self.0@)
    }
}

#[derive(Debug, PartialEq, Eq)]
pub struct ManyPrivateExpressionResponse(pub Vec<PrivateExpressionResponse>);

impl View for ManyPrivateExpressionResponse {
    type V = Seq<EnvelopeView>;

    open spec fn view(&self) -> Seq<EnvelopeView> {
        views(self.0@)
    }
}

#[derive(Debug, PartialEq, Eq)]
pub struct MaybeExpression(pub Option<ExpressionResponse>);

impl View for MaybeExpression {
    type V = Option<EnvelopeView>;

    open spec fn view(&self) -> Option<EnvelopeView> {
        match self.0 {
            Some(response) => Some(response@),
            None => None,
        }
    }
}

/// The modules that must be installed beside this one, by address.
#[derive(Debug, PartialEq, Eq)]
pub struct ManyDhtHash(pub Vec<String>);

/// The envelope of `expression` read at `address` in module `module` on
/// behalf of `agent`, committed at `created_at`.
pub open spec fn envelope(
    expression: ExpressionView,
    address: Seq<u8>,
    created_at: Timestamp,
    module: Seq<char>,
    agent: Seq<u8>,
) -> EnvelopeView {
    EnvelopeView {
        expression_data: expression,
        holochain_data: ProvenanceView {
            address,
            expression_dna: module,
            creator: agent,
            created_at,
        },
    }
}

impl ExpressionResponse {
    /// Wraps a public expression with its provenance.
    pub fn assemble(
        expression: ShortFormExpression,
        address: Address,
        created_at: Timestamp,
        module: String,
        agent: Address,
    ) -> (r: ExpressionResponse)
        ensures
            r@ == envelope(expression@, address@, created_at, module@, agent@),
    {
        ExpressionResponse {
            expression_data: expression,
            holochain_data: HolochainData {
                address,
                expression_dna: module,
                creator: agent,
                created_at,
            },
        }
    }
}

impl PrivateExpressionResponse {
    /// Wraps a private expression with its provenance.
    pub fn assemble(
        expression: PrivateShortFormExpression,
        address: Address,
        created_at: Timestamp,
        module: String,
        agent: Address,
    ) -> (r: PrivateExpressionResponse)
        ensures
            r@ == envelope(expression@, address@, created_at, module@, agent@),
    {
        PrivateExpressionResponse {
            expression_data: expression,
            holochain_data: HolochainData {
                address,
                expression_dna: module,
                creator: agent,
                created_at,
            },
        }
    }
}

} // verus!
