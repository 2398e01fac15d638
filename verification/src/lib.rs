//! Verified core of the Harvesta contract suite: tree registry, carbon
//! liquidity pools, KYC attestation, farmer registry and ZK location
//! verification, each as a state machine over the contract's storage.

pub mod harvesta_errors;
pub mod common;
pub mod table;
pub mod crypto;
pub mod carbon_dex;
pub mod kyc_attestation;
pub mod tree_registry;
pub mod zk_location_verifier;
pub mod reentrancy;
pub mod farmer_registry;
pub mod contract_utils;
