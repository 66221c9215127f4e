//! Attempt This Online share links.
//!
//! The submodules hold the codec of the links (`link`), the meaning of what
//! they carry (`state`) and the languages of the sandbox (`api`). This
//! module itself holds the state of a link under its short names, `State`
//! and `Schema`. It has the model of a `link::LinkState`, and is read and
//! written by the codec of `link`: what is proved there holds here.
pub mod api;
pub mod link;
pub mod state;

use crate::ato::link::{
    can_link, decode_spec, encode_spec, initial, link_of, pairs_payload, payload, payload_of,
    payload_state, schema_key, unpacked, well_laid, LinkSchema, LinkState, LinkStateView, Refusal,
    Rejection,
};
use crate::b64::{all_url_safe, url_safe_text};
use crate::flate::{deflated, BEST};
use crate::msgpack::fits;
use crate::text::option_text;
use crate::weburl::url_parts;
use base64::DecodeError as Base64Error;
use rmp_serde::decode::Error as UnpackError;
use rmp_serde::encode::Error as PackError;
use url::ParseError as UrlError;
use vstd::prelude::*;

verus! {

/// The layout of the record in a link.
#[derive(Clone, Copy, Debug, PartialEq, Eq, Structural)]
pub enum Schema {
    /// Nine fields.
    V0,
    /// Eleven fields: those of `V0`, the options and the program arguments.
    V1,
}

impl Default for Schema {
    fn default() -> (r: Self)
        ensures
            r == Schema::V1,
    {
        Schema::V1
    }
}

impl Schema {
    /// The same layout, as the link codec names it.
    pub open spec fn link(self) -> LinkSchema {
        match self {
            Schema::V0 => LinkSchema::V0,
            Schema::V1 => LinkSchema::V1,
        }
    }

    /// The same layout, as the link codec names it.
    pub fn to_link(self) -> (r: LinkSchema)
        ensures
            r == self.link(),
    {
        match self {
            Schema::V0 => LinkSchema::V0,
            Schema::V1 => LinkSchema::V1,
        }
    }

    /// The layout that the link codec names so.
    pub fn of_link(schema: LinkSchema) -> (r: Schema)
        ensures
            r.link() == schema,
    {
        match schema {
            LinkSchema::V0 => Schema::V0,
            LinkSchema::V1 => Schema::V1,
        }
    }
}

/// What a link holds, as it stands in the link: every field is a string.
#[derive(Clone, Debug, PartialEq, Eq)]
pub struct State {
    pub schema: Schema,
    pub language: String,
    pub options: String,
    pub header: String,
    pub header_encoding: String,
    pub code: String,
    pub code_encoding: String,
    pub footer: String,
    pub footer_encoding: String,
    pub program_arguments: String,
    pub input: String,
    pub input_encoding: String,
}

impl View for State {
    type V = LinkStateView;

    open spec fn view(&self) -> LinkStateView {
        LinkStateView {
            schema: self.schema.link(),
            language: self.language@,
            options: self.options@,
            header: self.header@,
            header_encoding: self.header_encoding@,
            code: self.code@,
            code_encoding: self.code_encoding@,
            footer: self.footer@,
            footer_encoding: self.footer_encoding@,
            program_arguments: self.program_arguments@,
            input: self.input@,
            input_encoding: self.input_encoding@,
        }
    }
}

/// Why a link was not decoded.
#[derive(Debug)]
pub enum DecodeError {
    /// The text is no URL.
    Url(UrlError),
    /// The query string has a key that the format does not know.
    InvalidKey(String),
    /// The query string names a schema twice.
    MultipleVersions,
    /// The query string names a language twice.
    MultipleLanguages,
    /// The value is no base64 text, with or without its noise.
    Base64(Base64Error),
    /// The bytes are no DEFLATE stream.
    Deflate(std::io::Error),
    /// The record is no MessagePack array of as many strings as its schema
    /// has fields.
    MessagePack(UnpackError),
}

impl View for DecodeError {
    type V = Rejection;

    open spec fn view(&self) -> Rejection {
        match *self {
            DecodeError::Url(_) => Rejection::Url,
            DecodeError::InvalidKey(k) => Rejection::UnknownKey(k@),
            DecodeError::MultipleVersions => Rejection::MultipleVersions,
            DecodeError::MultipleLanguages => Rejection::MultipleLanguages,
            DecodeError::Base64(_) => Rejection::Base64,
            DecodeError::Deflate(_) => Rejection::Deflate,
            DecodeError::MessagePack(_) => Rejection::MessagePack,
        }
    }
}

impl DecodeError {
    /// This error for that of the link codec, with what that one carries.
    pub open spec fn for_link(e: crate::ato::link::DecodeError) -> DecodeError {
        match e {
            crate::ato::link::DecodeError::Url(u) => DecodeError::Url(u),
            crate::ato::link::DecodeError::UnknownKey(k) => DecodeError::InvalidKey(k),
            crate::ato::link::DecodeError::MultipleVersions => DecodeError::MultipleVersions,
            crate::ato::link::DecodeError::MultipleLanguages => DecodeError::MultipleLanguages,
            crate::ato::link::DecodeError::Base64(b) => DecodeError::Base64(b),
            crate::ato::link::DecodeError::Deflate(d) => DecodeError::Deflate(d),
            crate::ato::link::DecodeError::MessagePack(m) => DecodeError::MessagePack(m),
        }
    }

    /// This error for that of the link codec.
    pub fn of_link(e: crate::ato::link::DecodeError) -> (r: DecodeError)
        ensures
            r == DecodeError::for_link(e),
            r@ == e@,
    {
        match e {
            crate::ato::link::DecodeError::Url(u) => DecodeError::Url(u),
            crate::ato::link::DecodeError::UnknownKey(k) => DecodeError::InvalidKey(k),
            crate::ato::link::DecodeError::MultipleVersions => DecodeError::MultipleVersions,
            crate::ato::link::DecodeError::MultipleLanguages => DecodeError::MultipleLanguages,
            crate::ato::link::DecodeError::Base64(b) => DecodeError::Base64(b),
            crate::ato::link::DecodeError::Deflate(d) => DecodeError::Deflate(d),
            crate::ato::link::DecodeError::MessagePack(m) => DecodeError::MessagePack(m),
        }
    }
}

/// Why a state was not encoded.
#[derive(Debug)]
pub enum EncodeError {
    /// The record was not written.
    MessagePack(PackError),
    /// The record was not compressed.
    Deflate(std::io::Error),
    /// The page's address was not taken for a URL.
    Url(UrlError),
}

impl View for EncodeError {
    type V = Refusal;

    open spec fn view(&self) -> Refusal {
        match *self {
            EncodeError::MessagePack(_) => Refusal::MessagePack,
            EncodeError::Deflate(_) => Refusal::Deflate,
            EncodeError::Url(_) => Refusal::Url,
        }
    }
}

impl EncodeError {
    /// This error for that of the link codec, with what that one carries.
    pub open spec fn for_link(e: crate::ato::link::EncodeError) -> EncodeError {
        match e {
            crate::ato::link::EncodeError::MessagePack(m) => EncodeError::MessagePack(m),
            crate::ato::link::EncodeError::Deflate(d) => EncodeError::Deflate(d),
            crate::ato::link::EncodeError::Url(u) => EncodeError::Url(u),
        }
    }

    /// This error for that of the link codec.
    pub fn of_link(e: crate::ato::link::EncodeError) -> (r: EncodeError)
        ensures
            r == EncodeError::for_link(e),
            r@ == e@,
    {
        match e {
            crate::ato::link::EncodeError::MessagePack(m) => EncodeError::MessagePack(m),
            crate::ato::link::EncodeError::Deflate(d) => EncodeError::Deflate(d),
            crate::ato::link::EncodeError::Url(u) => EncodeError::Url(u),
        }
    }
}

/// The outcome of decoding a link, as plain sequences.
pub open spec fn outcome(r: Result<State, DecodeError>) -> Result<LinkStateView, Rejection> {
    match r {
        Ok(s) => Ok(s@),
        Err(e) => Err(e@),
    }
}

/// The outcome of reading a link down to its payload, as plain sequences.
pub open spec fn payload_outcome(
    r: Result<(Option<(Schema, Vec<u8>)>, Option<String>), DecodeError>,
) -> Result<(Option<(LinkSchema, Seq<u8>)>, Option<Seq<char>>), Rejection> {
    match r {
        Ok((data, language)) => Ok(
            (
                match data {
                    Some((schema, p)) => Some((schema.link(), p@)),
                    None => None,
                },
                option_text(language),
            ),
        ),
        Err(e) => Err(e@),
    }
}

/// The outcome of encoding, as plain sequences.
pub open spec fn link_outcome(r: Result<String, EncodeError>) -> Result<Seq<char>, Refusal> {
    match r {
        Ok(s) => Ok(s@),
        Err(e) => Err(e@),
    }
}

/// The outcome of writing a record, as plain sequences.
pub open spec fn record_outcome(r: Result<Vec<u8>, EncodeError>) -> Result<Seq<u8>, Refusal> {
    match r {
        Ok(b) => Ok(b@),
        Err(e) => Err(e@),
    }
}

impl Default for State {
    fn default() -> (r: Self)
        ensures
            r@ == initial(),
    {
        State::of_link(LinkState::default())
    }
}

impl State {
    /// The state of a link without payload.
    pub fn new() -> (r: Self)
        ensures
            r@ == initial(),
    {
        State::default()
    }

    /// The same state, of the type that the link codec reads.
    pub fn of_link(s: LinkState) -> (r: State)
        ensures
            r@ == s@,
    {
        State {
            schema: Schema::of_link(s.schema),
            language: s.language,
            options: s.options,
            header: s.header,
            header_encoding: s.header_encoding,
            code: s.code,
            code_encoding: s.code_encoding,
            footer: s.footer,
            footer_encoding: s.footer_encoding,
            program_arguments: s.program_arguments,
            input: s.input,
            input_encoding: s.input_encoding,
        }
    }

    /// The same state, of the type that the link codec writes.
    pub fn to_link(&self) -> (r: LinkState)
        ensures
            r@ == self@,
    {
        LinkState {
            schema: self.schema.to_link(),
            language: self.language.clone(),
            options: self.options.clone(),
            header: self.header.clone(),
            header_encoding: self.header_encoding.clone(),
            code: self.code.clone(),
            code_encoding: self.code_encoding.clone(),
            footer: self.footer.clone(),
            footer_encoding: self.footer_encoding.clone(),
            program_arguments: self.program_arguments.clone(),
            input: self.input.clone(),
            input_encoding: self.input_encoding.clone(),
        }
    }

    /// Reads a link down to the bytes of its record: the schema with the
    /// payload, where the link has one, and the language named beside it.
    pub fn decode_url(url: &str) -> (r: Result<
        (Option<(Schema, Vec<u8>)>, Option<String>),
        DecodeError,
    >)
        ensures
            payload_outcome(r) == match url_parts(url@) {
                None => Err(Rejection::Url),
                Some(parts) => pairs_payload(parts.query),
            },
    {
        match LinkState::decode_url(url) {
            Ok((data, language)) => {
                let data = match data {
                    Some((schema, p)) => Some((Schema::of_link(schema), p)),
                    None => None,
                };
                Ok((data, language))
            },
            Err(e) => Err(DecodeError::of_link(e)),
        }
    }

    /// Reads the bytes of a record into a state, as an array of as many
    /// strings as the schema has fields.
    pub fn serialize_mp(schema: Schema, data: &[u8]) -> (r: Result<State, DecodeError>)
        ensures
            outcome(r) == payload_state(schema.link(), data@),
    {
        match LinkState::deserialize_mp(schema.to_link(), data) {
            Ok(s) => Ok(State::of_link(s)),
            Err(e) => Err(DecodeError::of_link(e)),
        }
    }

    /// Decodes a link. The state it returns has a schema with a place for
    /// all it holds.
    pub fn decode(url: &str) -> (r: Result<State, DecodeError>)
        ensures
            outcome(r) == decode_spec(url@),
            r matches Ok(s) ==> well_laid(s@),
    {
        match LinkState::decode(url) {
            Ok(s) => Ok(State::of_link(s)),
            Err(e) => Err(DecodeError::of_link(e)),
        }
    }

    /// Writes the record of the state into bytes. Where its fields can be
    /// written down, reading the bytes gives the fields back.
    pub fn deserialize_mp(&self) -> (r: Result<Vec<u8>, EncodeError>)
        ensures
            record_outcome(r) == payload(self@),
            r is Ok && fits(crate::ato::link::record(self@)) ==> unpacked(
                self@.schema,
                r->Ok_0@,
            ) == Some(crate::ato::link::record(self@)),
    {
        match self.to_link().serialize_mp() {
            Ok(p) => Ok(p),
            Err(e) => Err(EncodeError::of_link(e)),
        }
    }

    /// Compresses the bytes of a record at `level` and writes the link.
    /// The link has one query pair, the schema's key with the payload's
    /// text; that text is of the URL-safe alphabet and reads back as `data`.
    pub fn encode_url(schema: Schema, data: &[u8], level: u32) -> (r: Result<String, EncodeError>)
        requires
            level <= BEST,
        ensures
            link_outcome(r) == link_of(schema.link(), data@, level),
            r is Ok ==> payload_of(url_safe_text(deflated(data@, level)->Some_0)) == Ok::<
                _,
                Rejection,
            >(data@),
            r is Ok ==> url_parts(r->Ok_0@) is Some && url_parts(r->Ok_0@)->Some_0.query == seq![
                (schema_key(schema.link()), url_safe_text(deflated(data@, level)->Some_0)),
            ],
            r is Ok ==> all_url_safe(url_safe_text(deflated(data@, level)->Some_0)),
    {
        match LinkState::encode_url(schema.to_link(), data, level) {
            Ok(link) => Ok(link),
            Err(e) => Err(EncodeError::of_link(e)),
        }
    }

    /// Encodes the state as a link, with its record compressed as far as
    /// the compressor goes. Where the state `can_link`, the link decodes to
    /// the state again.
    pub fn encode(&self) -> (r: Result<String, EncodeError>)
        ensures
            link_outcome(r) == encode_spec(self@, BEST),
            r is Ok && can_link(self@) ==> decode_spec(r->Ok_0@) == Ok::<_, Rejection>(self@),
    {
        match self.to_link().encode() {
            Ok(link) => Ok(link),
            Err(e) => Err(EncodeError::of_link(e)),
        }
    }
}

} // verus!
