//! Parsing and serialising of proxy-server URIs: the structured form with
//! base64 user information, the older form that carries one base64 text in
//! the host position, and the `ssconf` pointer to a list of configurations.

pub mod codec;
pub mod config;
pub mod extra;
pub mod facade;
pub mod host;
pub mod legacy;
pub mod method;
pub mod padding;
pub mod port;
pub mod sip002;
pub mod sip008;
pub mod text;
pub mod uri;

pub use config::{SSConfig, SSParseError};
pub use extra::Extra;
pub use host::Host;
pub use legacy::LegacyFields;
pub use method::{Method, MethodParseError};
pub use sip008::{SIP008Config, SIP008ParseError};
pub use uri::UriParts;
