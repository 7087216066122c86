//! aiXos Phoenix: the sovereign desktop stack's logic, verified.
pub mod asl;
pub mod bytes;
pub mod axon_interp;
pub mod shell;
pub mod kernel;
pub mod edisondb;
pub mod axfs;
pub mod input;
pub mod net;
pub mod identity;
pub mod haniel;
pub mod init;
pub mod gpu;
pub mod mmio;
