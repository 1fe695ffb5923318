//! Expansion of the `settings` attribute, which turns a structure or an enum into settings: a type
//! that can be read and written with `serde`, has a default, and hands out its doc comments.
//!
//! [`expand::expand`] is the whole way from tokens to tokens. [`options`] reads the arguments of the
//! attribute, [`read`] the item that it stands on, as an item of [`syntax`]. [`derive`] and [`docs`]
//! write what is added to the item, token by token ([`token`]).
//!
//! What holds of every expansion is stated apart from that: [`written`] says which tokens are written
//! out, [`heeded`] what of attributes and arguments is heeded, [`reading`] what of the source is kept
//! where it is read, and [`answers`] what is refused and returned. [`laws`] and [`spans`] state how
//! expansions relate to each other and to what they are made of.

pub mod answers;
pub mod attr;
pub mod derive;
pub mod docs;
pub mod error;
pub mod expand;
pub mod heeded;
pub mod laws;
pub mod options;
pub mod parse;
pub mod read;
pub mod reading;
pub mod spans;
pub mod syntax;
pub mod token;
pub mod variant;
pub mod written;
