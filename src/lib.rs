//! Weighted share-domain partitioning, publicly verifiable secret sharing and
//! threshold decryption share handling over the BLS12-381 pairing groups.
pub mod field;
pub mod combine;
pub mod partition;
pub mod group;
pub mod context;
pub mod pvss;
