// Reads an SDK repository manifest from its markup events into a typed model, and
// checks downloaded archives against the checksums that the manifest declares.

pub mod xmlhelper;
pub mod repository11;
pub mod checksum;
pub mod facts;
