//! Resolution of article references: post identifiers, link selection,
//! inline article reconstruction and parsing of extraction-service payloads.

pub mod external;
pub mod format;
pub mod inline;
pub mod links;
pub mod model;
pub mod reference;
pub mod text;
pub mod timeout;
