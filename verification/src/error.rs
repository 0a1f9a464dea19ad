//! Why a generation run ended without a melody.

use crate::text::decimal;
use crate::text::decimal_string;
use vstd::prelude::*;
use vstd::string::StringExecFns;

verus! {

/// A generation run either yields a whole melody or one of these; it never
/// hands out part of a melody.
#[derive(Clone, Copy, Debug, PartialEq, Eq, Structural)]
pub enum GenerationError {
    /// No batch of twelve note lengths summed to `bars` whole notes: either
    /// none exists in the chosen vocabulary (`attempts` is then 0), or none
    /// turned up in `attempts` tries.
    ConstraintUnsatisfiable { bars: u64, complex: bool, attempts: u64 },
    /// The tone row was still incomplete after `draws` slot draws.
    InternalInvariantViolation { draws: u64 },
}

/// The name of a rhythm mode.
pub open spec fn mode_name(complex: bool) -> Seq<char> {
    if complex {
        "complex"@
    } else {
        "standard"@
    }
}

impl GenerationError {
    /// The report of the failure, with the parameters of the run that failed.
    pub open spec fn message_text(self) -> Seq<char> {
        match self {
            GenerationError::ConstraintUnsatisfiable { bars, complex, attempts } => {
                "Failed to fit the melody to "@ + decimal(bars as nat) + " bars of "@ + mode_name(
                    complex,
                ) + " rhythm in "@ + decimal(attempts as nat) + " attempts."@
            },
            GenerationError::InternalInvariantViolation { draws } => {
                "Failed to place all twelve pitch classes in "@ + decimal(draws as nat)
                    + " draws."@
            },
        }
    }

    /// Writes the report of the failure.
    pub fn message(&self) -> (text: String)
        ensures
            text@ == self.message_text(),
    {
        match self {
            GenerationError::ConstraintUnsatisfiable { bars, complex, attempts } => {
                let mut text = String::from_str("Failed to fit the melody to ");
                text.append(decimal_string(*bars).as_str());
                text.append(" bars of ");
                text.append(
                    if *complex {
                        "complex"
                    } else {
                        "standard"
                    },
                );
                text.append(" rhythm in ");
                text.append(decimal_string(*attempts).as_str());
                text.append(" attempts.");
                proof {
                    assert(text@ =~= self.message_text());
                }
                text
            },
            GenerationError::InternalInvariantViolation { draws } => {
                let mut text = String::from_str("Failed to place all twelve pitch classes in ");
                text.append(decimal_string(*draws).as_str());
                text.append(" draws.");
                proof {
                    assert(text@ =~= self.message_text());
                }
                text
            },
        }
    }
}

} // verus!
