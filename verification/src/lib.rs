//! Finds, extracts and classifies inscriptions: self-describing payloads
//! carried in the witness data of Bitcoin transaction inputs.
//!
//! A witness script is decoded into instructions ([`script`]) and scanned for
//! envelopes ([`envelope`]; what holds of the scan on every stream is proved
//! in [`envelope_laws`]). Each payload is classified ([`content`]) and put
//! with the transaction and the place it comes from ([`inscription`], [`id`]).
//! Whether a payload that is no text is an image is for a decoder to say:
//! the caller asks one and hands its answers in as an
//! [`ImageProbe`](content::ImageProbe).
//! Inscriptions are picked by filters ([`filter`]) when a block or a
//! transaction is scanned ([`scan`]).
//!
//! The rest serves the program around the library: what the command line
//! asks for ([`args`]), and the interactive explorer as a stack of screens
//! ([`explore`], [`options`]).
//!
//! Every function here is verified against its contract. The calls into
//! other crates stand behind small functions whose contracts are taken on
//! trust; each says in its comment what it claims.

pub mod args;
pub mod content;
pub mod envelope;
pub mod envelope_laws;
pub mod error;
pub mod explore;
pub mod filter;
pub mod id;
pub mod inscription;
pub mod options;
pub mod scan;
pub mod script;
pub mod text;
