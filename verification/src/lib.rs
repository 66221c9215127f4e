//! Codecs for the share links of two online code sandboxes, Attempt This
//! Online and Try It Online.
//!
//! A share link is a URL that holds a whole program submission: the
//! language, the code, the input, the arguments. `ato` and `tio` read such
//! links into states and write states as links; `ato::state` resolves what
//! an Attempt This Online state means.
//!
//! The codecs are verified. What they take from other crates stands in
//! modules of its own, where each function has a contract that is believed
//! and not proved: `b64` (base64 text), `flate` (DEFLATE streams), `msgpack`
//! (MessagePack records), `weburl` (URLs) and `json` (JSON arrays). `text`
//! holds the verified helpers on sequences of characters.
pub mod ato;
pub mod b64;
pub mod flate;
pub mod json;
pub mod msgpack;
pub mod text;
pub mod tio;
pub mod weburl;
