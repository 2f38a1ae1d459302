//! Client side of the Arm CCA realm services: attestation tokens and the decisions around the
//! calls to the realm services device.
//!
//! A CCA attestation token bundles two signed objects: the platform token and the realm
//! delegated token. The [`token`] module decodes the bundle, fills a claim model from the two
//! signed payloads, and checks the signatures and the binding between the two tokens. The
//! [`ioctl`] module holds what is decided between two calls to the device; the calls themselves
//! are the caller's.

pub mod ioctl;
pub mod token;
