//! Stored pieces and what the ledger reports about them.
//!
//! How these are read and written is left to the embedding application;
//! the library only holds them.

use vstd::prelude::*;
use std::collections::HashMap;
use crate::cards::CardType;

verus! {

/// A stored piece: its card arrangement and how it was made.
pub struct PieceData {
    pub version: u32,
    pub name: String,
    /// Creation time, in seconds.
    pub created_at: u64,
    pub bpm: u32,
    pub cards: Vec<CardType>,
}

/// Values charged by the ledger contract.
#[derive(Clone, Copy, PartialEq, Eq, Structural, Debug)]
pub struct FeeParams {
    pub deploy_value: u64,
    pub message_value: u64,
}

/// Limits enforced by the ledger contract.
#[derive(Clone, Copy, PartialEq, Eq, Structural, Debug)]
pub struct SecurityParams {
    pub min_action_fee: u64,
    pub cool_down_seconds: u64,
}

/// What the ledger reports about the user and their pieces.
pub struct ContractInfo {
    pub fee_params: Option<FeeParams>,
    pub security_params: Option<SecurityParams>,
    pub user_vault_address: Option<String>,
    pub piece_count: Option<u32>,
    pub piece_addresses: Vec<String>,
    /// Raw stored data of each piece, by address.
    pub piece_data: HashMap<String, Option<String>>,
    /// Decoded data of each piece, by address.
    pub piece_data_structs: HashMap<String, PieceData>,
}

impl Default for ContractInfo {
    fn default() -> (r: ContractInfo)
        ensures
            r.fee_params is None,
            r.security_params is None,
            r.user_vault_address is None,
            r.piece_count is None,
            r.piece_addresses@.len() == 0,
            r.piece_data@.len() == 0,
            r.piece_data_structs@.len() == 0,
    {
        ContractInfo {
            fee_params: None,
            security_params: None,
            user_vault_address: None,
            piece_count: None,
            piece_addresses: Vec::new(),
            piece_data: HashMap::new(),
            piece_data_structs: HashMap::new(),
        }
    }
}

/// Settings of the on-screen debug display.
#[derive(Clone, Copy, PartialEq, Eq, Structural, Debug)]
pub struct DebugHudConfig {
    /// How many frame times are averaged.
    pub buffer_size: usize,
}

} // verus!
