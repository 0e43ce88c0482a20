//! What can be wrong with the input of a signing root.

use vstd::prelude::*;

verus! {

/// A field of a message whose length the schema fixes or bounds.
#[derive(Clone, Copy, Debug, PartialEq, Eq, Hash, Structural)]
pub enum SchemaField {
    /// A public key of 48 bytes.
    Pubkey,
    /// A fee recipient address of 20 bytes.
    FeeRecipient,
    /// A signature of 96 bytes.
    Signature,
    /// A selection proof, which is a signature of 96 bytes.
    SelectionProof,
    /// The participation bits of an aggregate.
    AggregationBits,
}

/// Why no signing root was computed. Every error is a function of the input:
/// nothing here is worth a second try.
#[derive(Clone, Copy, Debug, PartialEq, Eq, Hash, Structural)]
pub enum SigningRootError {
    /// Bytes could not be converted to the array or bit vector they stand for:
    /// a slice that should hold 32 bytes does not, or a bit list lacks its end
    /// marker. Whatever encoded the value upstream is at fault.
    VectorConversionError,
    /// A field does not have the length that the schema declares for it.
    /// Lengths are in bytes, for a bit list in bits.
    SchemaViolation { field: SchemaField, expected: usize, actual: usize },
    /// The fork schedule is empty, or its entries are not in the order of
    /// their epochs.
    ForkScheduleError,
}

impl SchemaField {
    /// The name of the field, as the schema writes it.
    pub open spec fn name_spec(&self) -> Seq<char> {
        match self {
            SchemaField::Pubkey => "pubkey"@,
            SchemaField::FeeRecipient => "fee_recipient"@,
            SchemaField::Signature => "signature"@,
            SchemaField::SelectionProof => "selection_proof"@,
            SchemaField::AggregationBits => "aggregation_bits"@,
        }
    }

    /// The name of the field, as the schema writes it.
    pub fn name(&self) -> (name: &'static str)
        ensures
            name@ == self.name_spec(),
    {
        match self {
            SchemaField::Pubkey => "pubkey",
            SchemaField::FeeRecipient => "fee_recipient",
            SchemaField::Signature => "signature",
            SchemaField::SelectionProof => "selection_proof",
            SchemaField::AggregationBits => "aggregation_bits",
        }
    }
}

impl SigningRootError {
    /// What the error says, without the field and the lengths it may carry.
    pub open spec fn message_spec(&self) -> Seq<char> {
        match self {
            SigningRootError::VectorConversionError => {
                "Unexpected Error in converting vector to array"@
            },
            SigningRootError::SchemaViolation { .. } => {
                "A field does not have the length that the schema declares"@
            },
            SigningRootError::ForkScheduleError => "The fork schedule is empty or out of order"@,
        }
    }

    /// What the error says, without the field and the lengths it may carry.
    pub fn message(&self) -> (text: String)
        ensures
            text@ == self.message_spec(),
    {
        let text: &'static str = match self {
            SigningRootError::VectorConversionError => {
                "Unexpected Error in converting vector to array"
            },
            SigningRootError::SchemaViolation { .. } => {
                "A field does not have the length that the schema declares"
            },
            SigningRootError::ForkScheduleError => "The fork schedule is empty or out of order",
        };
        text.to_owned()
    }
}

} // verus!
