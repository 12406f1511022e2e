//! Core of a message-store exporter: canonical identities for duplicated
//! conversations and participants, the sticker conversion cascade, and the
//! routing of formatted records into per-conversation output files.

pub mod identity;
pub mod sticker;
pub mod multiplexer;

use vstd::prelude::*;

verus! {

/// Texts of a sequence of strings.
pub open spec fn texts(v: Seq<String>) -> Seq<Seq<char>> {
    v.map_values(|s: String| s@)
}

} // verus!
