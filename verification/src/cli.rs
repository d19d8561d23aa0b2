//! The collator node's command-line surface, as plain data: the
//! sub-commands it accepts and the chain-specification selection.
//!
//! Argument parsing and the loading of the selected specification belong to
//! the surrounding node stack; the types and the selection rule live here.

use vstd::prelude::*;

verus! {

/// Sub-commands supported by the collator.
///
/// These two are needed in order to register the chain with the
/// coordinating chain.
#[derive(Debug, Clone)]
pub enum Subcommand {
    /// Export the genesis state of the chain.
    ExportGenesisState(ExportGenesisStateCommand),
    /// Export the genesis wasm of the chain.
    ExportGenesisWasm(ExportGenesisWasmCommand),
}

/// Command for exporting the genesis state of the chain.
#[derive(Debug, Clone)]
pub struct ExportGenesisStateCommand {}

/// Command for exporting the genesis wasm file.
#[derive(Debug, Clone)]
pub struct ExportGenesisWasmCommand {}

/// Which chain specification a textual id selects.
#[derive(Debug, PartialEq, Eq, Structural, Clone, Copy)]
pub enum ChainSpecSelection {
    /// The staging testnet configuration.
    RococoStaging,
    /// The local testnet configuration.
    RococoLocal,
    /// The default testnet configuration.
    Rococo,
    /// Anything else: a path to a specification file on disk.
    JsonPath,
}

/// The selection rule: an empty id means the default testnet, the three
/// known names select their configurations, and any other id is taken as a
/// file path.
pub open spec fn spec_select_chain_spec(id: Seq<char>) -> ChainSpecSelection {
    if id.len() == 0 || id == "rococo"@ {
        ChainSpecSelection::Rococo
    } else if id == "rococo-staging"@ {
        ChainSpecSelection::RococoStaging
    } else if id == "rococo-local"@ {
        ChainSpecSelection::RococoLocal
    } else {
        ChainSpecSelection::JsonPath
    }
}

/// Select the chain specification the given id names.
pub fn select_chain_spec(id: &str) -> (r: ChainSpecSelection)
    ensures
        r == spec_select_chain_spec(id@),
{
    if id.is_empty() {
        return ChainSpecSelection::Rococo;
    }
    let owned = id.to_owned();
    if owned == "rococo".to_owned() {
        ChainSpecSelection::Rococo
    } else if owned == "rococo-staging".to_owned() {
        ChainSpecSelection::RococoStaging
    } else if owned == "rococo-local".to_owned() {
        ChainSpecSelection::RococoLocal
    } else {
        ChainSpecSelection::JsonPath
    }
}

} // verus!
