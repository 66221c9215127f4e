//! Attempt This Online share links, as they stand in the link.
//!
//! A link carries one query pair. Its key names the schema, `0` or `1`; its
//! value is the URL-safe base64 text of a raw DEFLATE stream of a MessagePack
//! array of strings, nine for schema 0 and eleven for schema 1. A second
//! pair, `L` or `l`, may name the language for a record that names none.
//!
//! Reading is lenient about the payload's text: where it is no URL-safe
//! base64 as it stands, it is read once more without the characters of
//! neither alphabet and with those of the standard alphabet as their
//! URL-safe ones. Writing always gives the URL-safe text.
use crate::b64::{
    all_url_safe, decode_url_safe, encode_url_safe, is_alphabet, is_url_safe, url_safe_bytes,
    url_safe_text,
};
use crate::flate::{deflate, deflated, inflate, inflated, BEST};
use crate::msgpack::{fits, pack, packed, unpack_eleven, unpack_nine, unpacked_eleven, unpacked_nine};
use crate::text::{lemma_split_once_at, option_text, spells, texts, to_chars, to_string};
use crate::weburl::{pairs_view, split_url, url_parts, url_with_query, with_query};
use base64::DecodeError as Base64Error;
use rmp_serde::decode::Error as UnpackError;
use rmp_serde::encode::Error as PackError;
use url::ParseError as UrlError;
use vstd::prelude::*;

verus! {

/// The page that every link points to.
pub const RUN_URL: &'static str = "https://ato.pxeger.com/run";

/// The layout of the record in a link.
#[derive(Clone, Copy, Debug, PartialEq, Eq, Structural)]
pub enum LinkSchema {
    /// Nine fields.
    V0,
    /// Eleven fields: those of `V0`, the options and the program arguments.
    V1,
}

impl Default for LinkSchema {
    fn default() -> (r: Self)
        ensures
            r == LinkSchema::V1,
    {
        LinkSchema::V1
    }
}

/// What a link holds, as it stands in the link: every field is a string.
#[derive(Clone, Debug, PartialEq, Eq)]
pub struct LinkState {
    pub schema: LinkSchema,
    pub language: String,
    pub options: String,
    pub header: String,
    pub header_encoding: String,
    pub code: String,
    pub code_encoding: String,
    pub footer: String,
    pub footer_encoding: String,
    pub program_arguments: String,
    pub input: String,
    pub input_encoding: String,
}

/// A `LinkState` as plain sequences.
pub struct LinkStateView {
    pub schema: LinkSchema,
    pub language: Seq<char>,
    pub options: Seq<char>,
    pub header: Seq<char>,
    pub header_encoding: Seq<char>,
    pub code: Seq<char>,
    pub code_encoding: Seq<char>,
    pub footer: Seq<char>,
    pub footer_encoding: Seq<char>,
    pub program_arguments: Seq<char>,
    pub input: Seq<char>,
    pub input_encoding: Seq<char>,
}

impl View for LinkState {
    type V = LinkStateView;

    open spec fn view(&self) -> LinkStateView {
        LinkStateView {
            schema: self.schema,
            language: self.language@,
            options: self.options@,
            header: self.header@,
            header_encoding: self.header_encoding@,
            code: self.code@,
            code_encoding: self.code_encoding@,
            footer: self.footer@,
            footer_encoding: self.footer_encoding@,
            program_arguments: self.program_arguments@,
            input: self.input@,
            input_encoding: self.input_encoding@,
        }
    }
}

/// Why a link was not decoded.
#[derive(Debug)]
pub enum DecodeError {
    /// The text is no URL.
    Url(UrlError),
    /// The query string has a key that the format does not know.
    UnknownKey(String),
    /// The query string names a schema twice.
    MultipleVersions,
    /// The query string names a language twice.
    MultipleLanguages,
    /// The value is no base64 text, as it stands or tidied. This is the
    /// failure of the reading as it stands.
    Base64(Base64Error),
    /// The bytes are no DEFLATE stream.
    Deflate(std::io::Error),
    /// The record is no MessagePack array of as many strings as its schema
    /// has fields.
    MessagePack(UnpackError),
}

/// A `DecodeError` without what the outside libraries reported.
pub enum Rejection {
    Url,
    UnknownKey(Seq<char>),
    MultipleVersions,
    MultipleLanguages,
    Base64,
    Deflate,
    MessagePack,
}

impl View for DecodeError {
    type V = Rejection;

    open spec fn view(&self) -> Rejection {
        match *self {
            DecodeError::Url(_) => Rejection::Url,
            DecodeError::UnknownKey(k) => Rejection::UnknownKey(k@),
            DecodeError::MultipleVersions => Rejection::MultipleVersions,
            DecodeError::MultipleLanguages => Rejection::MultipleLanguages,
            DecodeError::Base64(_) => Rejection::Base64,
            DecodeError::Deflate(_) => Rejection::Deflate,
            DecodeError::MessagePack(_) => Rejection::MessagePack,
        }
    }
}

/// Why a state was not encoded.
#[derive(Debug)]
pub enum EncodeError {
    /// The record was not written.
    MessagePack(PackError),
    /// The record was not compressed.
    Deflate(std::io::Error),
    /// The page's address was not taken for a URL.
    Url(UrlError),
}

/// An `EncodeError` without what the outside libraries reported.
pub enum Refusal {
    MessagePack,
    Deflate,
    Url,
}

impl View for EncodeError {
    type V = Refusal;

    open spec fn view(&self) -> Refusal {
        match *self {
            EncodeError::MessagePack(_) => Refusal::MessagePack,
            EncodeError::Deflate(_) => Refusal::Deflate,
            EncodeError::Url(_) => Refusal::Url,
        }
    }
}

/// What the query string of a link says: the schema with the payload's
/// text, and the language named beside it.
pub struct Query {
    pub data: Option<(LinkSchema, String)>,
    pub language: Option<String>,
}

/// A `Query` as plain sequences.
pub struct QueryView {
    pub data: Option<(LinkSchema, Seq<char>)>,
    pub language: Option<Seq<char>>,
}

impl View for Query {
    type V = QueryView;

    open spec fn view(&self) -> QueryView {
        QueryView {
            data: match self.data {
                Some((schema, text)) => Some((schema, text@)),
                None => None,
            },
            language: option_text(self.language),
        }
    }
}

/// The outcome of decoding a link, as plain sequences.
pub open spec fn outcome(r: Result<LinkState, DecodeError>) -> Result<LinkStateView, Rejection> {
    match r {
        Ok(s) => Ok(s@),
        Err(e) => Err(e@),
    }
}

/// The outcome of reading a query string, as plain sequences.
pub open spec fn query_outcome(r: Result<Query, DecodeError>) -> Result<QueryView, Rejection> {
    match r {
        Ok(q) => Ok(q@),
        Err(e) => Err(e@),
    }
}

/// The outcome of unpacking a payload, as plain sequences.
pub open spec fn bytes_outcome(r: Result<Vec<u8>, DecodeError>) -> Result<Seq<u8>, Rejection> {
    match r {
        Ok(b) => Ok(b@),
        Err(e) => Err(e@),
    }
}

/// The outcome of encoding, as plain sequences.
pub open spec fn link_outcome(r: Result<String, EncodeError>) -> Result<Seq<char>, Refusal> {
    match r {
        Ok(s) => Ok(s@),
        Err(e) => Err(e@),
    }
}

/// The outcome of writing a record, as plain sequences.
pub open spec fn record_outcome(r: Result<Vec<u8>, EncodeError>) -> Result<Seq<u8>, Refusal> {
    match r {
        Ok(b) => Ok(b@),
        Err(e) => Err(e@),
    }
}

/// The key that names a schema in the query string.
pub open spec fn schema_key(schema: LinkSchema) -> Seq<char> {
    match schema {
        LinkSchema::V0 => "0"@,
        LinkSchema::V1 => "1"@,
    }
}

/// The number of fields of a record.
pub open spec fn arity(schema: LinkSchema) -> nat {
    match schema {
        LinkSchema::V0 => 9,
        LinkSchema::V1 => 11,
    }
}

/// Nothing read yet.
pub open spec fn no_query() -> QueryView {
    QueryView { data: None, language: None }
}

/// The query after one more pair. A schema's key may come once, a
/// language's key once, and no other key at all.
pub open spec fn take_pair(pair: (Seq<char>, Seq<char>), got: QueryView) -> Result<
    QueryView,
    Rejection,
> {
    let (key, value) = pair;
    if key == "0"@ || key == "1"@ {
        if got.data is Some {
            Err(Rejection::MultipleVersions)
        } else {
            let schema = if key == "0"@ {
                LinkSchema::V0
            } else {
                LinkSchema::V1
            };
            Ok(QueryView { data: Some((schema, value)), ..got })
        }
    } else if key == "L"@ || key == "l"@ {
        if got.language is Some {
            Err(Rejection::MultipleLanguages)
        } else {
            Ok(QueryView { language: Some(value), ..got })
        }
    } else {
        Err(Rejection::UnknownKey(key))
    }
}

/// What the pairs of a query string say, read from left to right: all of
/// it, or the failure of the first pair that fails.
pub open spec fn resolve(pairs: Seq<(Seq<char>, Seq<char>)>) -> Result<QueryView, Rejection>
    decreases pairs.len(),
{
    if pairs.len() == 0 {
        Ok(no_query())
    } else {
        match resolve(pairs.drop_last()) {
            Err(e) => Err(e),
            Ok(got) => take_pair(pairs.last(), got),
        }
    }
}

/// The URL-safe character for the six bits that `c` stands for: `-` for
/// `+`, `_` for `/`, and `c` itself where it is neither.
pub open spec fn url_safe_of(c: char) -> char {
    if c == '+' {
        '-'
    } else if c == '/' {
        '_'
    } else {
        c
    }
}

/// `text` without its noise and in one alphabet: the characters that are of
/// neither base64 alphabet are left out, and those of the standard alphabet
/// are replaced by their URL-safe ones.
pub open spec fn tidied(text: Seq<char>) -> Seq<char>
    decreases text.len(),
{
    if text.len() == 0 {
        Seq::empty()
    } else if is_alphabet(text.last()) {
        tidied(text.drop_last()).push(url_safe_of(text.last()))
    } else {
        tidied(text.drop_last())
    }
}

/// The compressed bytes of a payload's text: what the tidied text stands
/// for as URL-safe base64. A text that is URL-safe base64 as it stands is
/// tidy, so this is the text read as it stands wherever that can be done,
/// and read once more tidied wherever it cannot.
pub open spec fn stream_of(text: Seq<char>) -> Option<Seq<u8>> {
    url_safe_bytes(tidied(text))
}

/// The bytes of a compressed payload.
pub open spec fn unpack_stream(stream: Seq<u8>) -> Result<Seq<u8>, Rejection> {
    match inflated(stream) {
        Some(p) => Ok(p),
        None => Err(Rejection::Deflate),
    }
}

/// The bytes of the payload that a text stands for.
pub open spec fn payload_of(text: Seq<char>) -> Result<Seq<u8>, Rejection> {
    match stream_of(text) {
        Some(z) => unpack_stream(z),
        None => Err(Rejection::Base64),
    }
}

/// The strings of the record that `payload` begins with, where it begins
/// with an array of as many strings as the schema has fields.
pub open spec fn unpacked(schema: LinkSchema, payload: Seq<u8>) -> Option<Seq<Seq<char>>> {
    match schema {
        LinkSchema::V0 => unpacked_nine(payload),
        LinkSchema::V1 => unpacked_eleven(payload),
    }
}

/// The state that the fields of a record make: by position, as the schema
/// lays them out. A record of schema 0 has no options and no arguments. It
/// is meant for as many fields as the schema has.
pub open spec fn record_state(schema: LinkSchema, f: Seq<Seq<char>>) -> LinkStateView {
    match schema {
        LinkSchema::V0 => LinkStateView {
            schema,
            language: f[0],
            options: Seq::empty(),
            header: f[1],
            header_encoding: f[2],
            code: f[3],
            code_encoding: f[4],
            footer: f[5],
            footer_encoding: f[6],
            program_arguments: Seq::empty(),
            input: f[7],
            input_encoding: f[8],
        },
        LinkSchema::V1 => LinkStateView {
            schema,
            language: f[0],
            options: f[1],
            header: f[2],
            header_encoding: f[3],
            code: f[4],
            code_encoding: f[5],
            footer: f[6],
            footer_encoding: f[7],
            program_arguments: f[8],
            input: f[9],
            input_encoding: f[10],
        },
    }
}

/// The state that the bytes of a payload stand for. Bytes that are no array
/// of strings, or an array of another length than the schema's, stand for
/// none.
pub open spec fn payload_state(schema: LinkSchema, payload: Seq<u8>) -> Result<
    LinkStateView,
    Rejection,
> {
    match unpacked(schema, payload) {
        Some(f) => Ok(record_state(schema, f)),
        None => Err(Rejection::MessagePack),
    }
}

/// The fields of the record of a state, in the order of its schema.
pub open spec fn record(s: LinkStateView) -> Seq<Seq<char>> {
    match s.schema {
        LinkSchema::V0 => seq![
            s.language,
            s.header,
            s.header_encoding,
            s.code,
            s.code_encoding,
            s.footer,
            s.footer_encoding,
            s.input,
            s.input_encoding,
        ],
        LinkSchema::V1 => seq![
            s.language,
            s.options,
            s.header,
            s.header_encoding,
            s.code,
            s.code_encoding,
            s.footer,
            s.footer_encoding,
            s.program_arguments,
            s.input,
            s.input_encoding,
        ],
    }
}

/// The state of a link without payload: schema 1 and empty fields.
pub open spec fn initial() -> LinkStateView {
    LinkStateView {
        schema: LinkSchema::V1,
        language: Seq::empty(),
        options: Seq::empty(),
        header: Seq::empty(),
        header_encoding: Seq::empty(),
        code: Seq::empty(),
        code_encoding: Seq::empty(),
        footer: Seq::empty(),
        footer_encoding: Seq::empty(),
        program_arguments: Seq::empty(),
        input: Seq::empty(),
        input_encoding: Seq::empty(),
    }
}

/// `s` with the language that the query string names, where `s` names none.
pub open spec fn backfill(s: LinkStateView, language: Option<Seq<char>>) -> LinkStateView {
    match language {
        Some(l) => if s.language.len() == 0 {
            LinkStateView { language: l, ..s }
        } else {
            s
        },
        None => s,
    }
}

/// The payload of a query, where it has one, and its language.
pub open spec fn query_payload(q: QueryView) -> Result<
    (Option<(LinkSchema, Seq<u8>)>, Option<Seq<char>>),
    Rejection,
> {
    match q.data {
        None => Ok((None, q.language)),
        Some((schema, text)) => match payload_of(text) {
            Err(e) => Err(e),
            Ok(p) => Ok((Some((schema, p)), q.language)),
        },
    }
}

/// The payload and the language that the pairs of a query string stand for.
pub open spec fn pairs_payload(pairs: Seq<(Seq<char>, Seq<char>)>) -> Result<
    (Option<(LinkSchema, Seq<u8>)>, Option<Seq<char>>),
    Rejection,
> {
    match resolve(pairs) {
        Err(e) => Err(e),
        Ok(q) => query_payload(q),
    }
}

/// The state that a payload and a language stand for. Without payload it
/// is the initial state.
pub open spec fn payload_link(
    data: Option<(LinkSchema, Seq<u8>)>,
    language: Option<Seq<char>>,
) -> Result<LinkStateView, Rejection> {
    match data {
        None => Ok(backfill(initial(), language)),
        Some((schema, p)) => match payload_state(schema, p) {
            Err(e) => Err(e),
            Ok(s) => Ok(backfill(s, language)),
        },
    }
}

/// The state that the pairs of a query string stand for.
pub open spec fn decode_pairs(pairs: Seq<(Seq<char>, Seq<char>)>) -> Result<
    LinkStateView,
    Rejection,
> {
    match pairs_payload(pairs) {
        Err(e) => Err(e),
        Ok((data, language)) => payload_link(data, language),
    }
}

/// The state that the text of a link stands for.
pub open spec fn decode_spec(url: Seq<char>) -> Result<LinkStateView, Rejection> {
    match url_parts(url) {
        None => Err(Rejection::Url),
        Some(parts) => decode_pairs(parts.query),
    }
}

/// The query string for a schema and a compressed record.
pub open spec fn query_text(schema: LinkSchema, stream: Seq<u8>) -> Seq<char> {
    schema_key(schema) + seq!['='] + url_safe_text(stream)
}

/// The link for a schema and the bytes of a record, compressed at `level`.
pub open spec fn link_of(schema: LinkSchema, payload: Seq<u8>, level: u32) -> Result<
    Seq<char>,
    Refusal,
> {
    match deflated(payload, level) {
        None => Err(Refusal::Deflate),
        Some(z) => match url_with_query(RUN_URL@, query_text(schema, z)) {
            None => Err(Refusal::Url),
            Some(link) => Ok(link),
        },
    }
}

/// The bytes of the record of a state.
pub open spec fn payload(s: LinkStateView) -> Result<Seq<u8>, Refusal> {
    match packed(record(s)) {
        Some(p) => Ok(p),
        None => Err(Refusal::MessagePack),
    }
}

/// The link of a state, with its record compressed at `level`.
pub open spec fn encode_spec(s: LinkStateView, level: u32) -> Result<Seq<char>, Refusal> {
    match payload(s) {
        Err(e) => Err(e),
        Ok(p) => link_of(s.schema, p, level),
    }
}

/// A state whose schema has a place for all it holds: one of schema 0 has
/// no options and no arguments.
pub open spec fn well_laid(s: LinkStateView) -> bool {
    s.schema == LinkSchema::V0 ==> s.options.len() == 0 && s.program_arguments.len() == 0
}

/// A state that a link can say in full: its schema has a place for all it
/// holds, and every field can be written down.
pub open spec fn can_link(s: LinkStateView) -> bool {
    well_laid(s) && fits(record(s))
}

/// No character of `text` is of one of the two base64 alphabets.
pub open spec fn all_noise(text: Seq<char>) -> bool {
    forall|i: int| 0 <= i < text.len() ==> !is_alphabet(#[trigger] text[i])
}

/// `key` names a schema.
pub open spec fn is_schema_key(key: Seq<char>) -> bool {
    key == "0"@ || key == "1"@
}

/// The query pair of the link of a state. It is meant for a state whose
/// record was written and compressed.
pub open spec fn link_pair(s: LinkStateView, level: u32) -> (Seq<char>, Seq<char>) {
    (schema_key(s.schema), url_safe_text(deflated(packed(record(s))->Some_0, level)->Some_0))
}

/// Decoding the query pair of the link of `s` gives `s`.
pub open spec fn reads_back(s: LinkStateView, level: u32) -> bool {
    decode_pairs(seq![link_pair(s, level)]) == Ok::<_, Rejection>(s)
}

/// Whether `c` is of one of the two base64 alphabets.
fn in_alphabet(c: char) -> (r: bool)
    ensures
        r == is_alphabet(c),
{
    (c >= 'A' && c <= 'Z') || (c >= 'a' && c <= 'z') || (c >= '0' && c <= '9') || c == '-' || c
        == '_' || c == '+' || c == '/'
}

/// Tidies the text of a payload: leaves out every character that is of
/// neither base64 alphabet, and writes `-` for `+` and `_` for `/`.
pub fn tidy(text: &str) -> (r: String)
    ensures
        r@ == tidied(text@),
{
    let chars = to_chars(text);
    let mut out: Vec<char> = Vec::new();
    let mut i: usize = 0;
    assert(chars@.take(0) =~= Seq::<char>::empty());
    while i < chars.len()
        invariant
            i <= chars.len(),
            out@ == tidied(chars@.take(i as int)),
        decreases chars.len() - i,
    {
        assert(chars@.take(i + 1).drop_last() =~= chars@.take(i as int));
        let c = chars[i];
        if c == '+' {
            out.push('-');
        } else if c == '/' {
            out.push('_');
        } else if in_alphabet(c) {
            out.push(c);
        }
        i += 1;
    }
    assert(chars@.take(chars@.len() as int) =~= chars@);
    to_string(&out)
}

/// What two readings of a text come to: the bytes of the second where it
/// gave some, and the failure of the first where it gave none.
pub fn second_reading(first: Base64Error, second: Result<Vec<u8>, Base64Error>) -> (r: Result<
    Vec<u8>,
    DecodeError,
>)
    ensures
        match second {
            Ok(z) => r == Ok::<_, DecodeError>(z),
            Err(_) => r == Err::<Vec<u8>, _>(DecodeError::Base64(first)),
        },
{
    match second {
        Ok(z) => Ok(z),
        Err(_) => Err(DecodeError::Base64(first)),
    }
}

/// Reads the text of a payload as base64: as it stands first, and tidied
/// where that fails. Either way what is read is what the tidied text
/// stands for: noise and the standard alphabet make no difference.
pub fn decode_stream(text: &str) -> (r: Result<Vec<u8>, DecodeError>)
    ensures
        match r {
            Ok(z) => stream_of(text@) == Some(z@),
            Err(e) => stream_of(text@) is None && e@ == Rejection::Base64,
        },
        url_safe_bytes(text@) is Some ==> stream_of(text@) == url_safe_bytes(text@),
{
    match decode_url_safe(text) {
        Ok(z) => {
            proof {
                lemma_tidied_clean(text@);
            }
            Ok(z)
        },
        Err(first) => {
            let clean = tidy(text);
            second_reading(first, decode_url_safe(clean.as_str()))
        },
    }
}

/// Unpacks a compressed payload.
pub fn inflate_stream(stream: &[u8]) -> (r: Result<Vec<u8>, DecodeError>)
    ensures
        bytes_outcome(r) == unpack_stream(stream@),
{
    match inflate(stream) {
        Ok(p) => Ok(p),
        Err(e) => Err(DecodeError::Deflate(e)),
    }
}

/// Reads the text of a payload and unpacks it.
pub fn decode_payload(text: &str) -> (r: Result<Vec<u8>, DecodeError>)
    ensures
        bytes_outcome(r) == payload_of(text@),
{
    match decode_stream(text) {
        Ok(z) => inflate_stream(z.as_slice()),
        Err(e) => Err(e),
    }
}

/// A failure among the first `n` pairs is the failure of all of them.
proof fn lemma_resolve_fails(pairs: Seq<(Seq<char>, Seq<char>)>, n: int)
    requires
        0 <= n <= pairs.len(),
        resolve(pairs.take(n)) is Err,
    ensures
        resolve(pairs) == resolve(pairs.take(n)),
    decreases pairs.len() - n,
{
    if n < pairs.len() {
        assert(pairs.take(n + 1).drop_last() =~= pairs.take(n));
        lemma_resolve_fails(pairs, n + 1);
    } else {
        assert(pairs.take(n) =~= pairs);
    }
}

/// The outcome of reading a link down to its payload, as plain sequences.
pub open spec fn payload_outcome(
    r: Result<(Option<(LinkSchema, Vec<u8>)>, Option<String>), DecodeError>,
) -> Result<(Option<(LinkSchema, Seq<u8>)>, Option<Seq<char>>), Rejection> {
    match r {
        Ok((data, language)) => Ok(
            (
                match data {
                    Some((schema, p)) => Some((schema, p@)),
                    None => None,
                },
                option_text(language),
            ),
        ),
        Err(e) => Err(e@),
    }
}

impl Default for LinkState {
    fn default() -> (r: Self)
        ensures
            r@ == initial(),
    {
        LinkState {
            schema: LinkSchema::V1,
            language: String::new(),
            options: String::new(),
            header: String::new(),
            header_encoding: String::new(),
            code: String::new(),
            code_encoding: String::new(),
            footer: String::new(),
            footer_encoding: String::new(),
            program_arguments: String::new(),
            input: String::new(),
            input_encoding: String::new(),
        }
    }
}

impl LinkState {
    /// The state of a link without payload.
    pub fn new() -> (r: Self)
        ensures
            r@ == initial(),
    {
        LinkState::default()
    }

    /// Reads the pairs of a query string: which schema, which payload,
    /// which language.
    pub fn resolve(pairs: &Vec<(String, String)>) -> (r: Result<Query, DecodeError>)
        ensures
            query_outcome(r) == resolve(pairs_view(pairs@)),
    {
        let mut got = Query { data: None, language: None };
        let mut i: usize = 0;
        assert(pairs_view(pairs@).take(0) =~= Seq::<(Seq<char>, Seq<char>)>::empty());
        while i < pairs.len()
            invariant
                i <= pairs.len(),
                resolve(pairs_view(pairs@).take(i as int)) == Ok::<_, Rejection>(got@),
            decreases pairs.len() - i,
        {
            let ghost now = pairs_view(pairs@).take(i + 1);
            assert(now.drop_last() =~= pairs_view(pairs@).take(i as int));
            assert(now.last() == (pairs@[i as int].0@, pairs@[i as int].1@));
            proof {
                if take_pair(now.last(), got@) is Err {
                    lemma_resolve_fails(pairs_view(pairs@), i + 1);
                }
            }
            let key = to_chars(pairs[i].0.as_str());
            let zero = spells(&key, "0");
            if zero || spells(&key, "1") {
                if got.data.is_some() {
                    return Err(DecodeError::MultipleVersions);
                }
                let schema = if zero {
                    LinkSchema::V0
                } else {
                    LinkSchema::V1
                };
                got.data = Some((schema, pairs[i].1.clone()));
            } else if spells(&key, "L") || spells(&key, "l") {
                if got.language.is_some() {
                    return Err(DecodeError::MultipleLanguages);
                }
                got.language = Some(pairs[i].1.clone());
            } else {
                return Err(DecodeError::UnknownKey(pairs[i].0.clone()));
            }
            i += 1;
        }
        assert(pairs_view(pairs@).take(pairs@.len() as int) =~= pairs_view(pairs@));
        Ok(got)
    }

    /// Reads a link down to the bytes of its record: the schema with the
    /// payload, where the link has one, and the language named beside it.
    pub fn decode_url(url: &str) -> (r: Result<
        (Option<(LinkSchema, Vec<u8>)>, Option<String>),
        DecodeError,
    >)
        ensures
            payload_outcome(r) == match url_parts(url@) {
                None => Err(Rejection::Url),
                Some(parts) => pairs_payload(parts.query),
            },
    {
        let parts = match split_url(url) {
            Ok(parts) => parts,
            Err(e) => {
                return Err(DecodeError::Url(e));
            },
        };
        let query = match LinkState::resolve(&parts.query) {
            Ok(q) => q,
            Err(e) => {
                return Err(e);
            },
        };
        match query.data {
            None => Ok((None, query.language)),
            Some((schema, text)) => match decode_payload(text.as_str()) {
                Ok(p) => Ok((Some((schema, p)), query.language)),
                Err(e) => Err(e),
            },
        }
    }

    /// Makes a state of the fields of a record, by position. There are as
    /// many fields as the schema has.
    pub fn from_record(schema: LinkSchema, fields: &Vec<String>) -> (r: LinkState)
        requires
            fields.len() == arity(schema),
        ensures
            r@ == record_state(schema, texts(fields@)),
    {
        match schema {
            LinkSchema::V0 => LinkState {
                schema,
                language: fields[0].clone(),
                options: String::new(),
                header: fields[1].clone(),
                header_encoding: fields[2].clone(),
                code: fields[3].clone(),
                code_encoding: fields[4].clone(),
                footer: fields[5].clone(),
                footer_encoding: fields[6].clone(),
                program_arguments: String::new(),
                input: fields[7].clone(),
                input_encoding: fields[8].clone(),
            },
            LinkSchema::V1 => LinkState {
                schema,
                language: fields[0].clone(),
                options: fields[1].clone(),
                header: fields[2].clone(),
                header_encoding: fields[3].clone(),
                code: fields[4].clone(),
                code_encoding: fields[5].clone(),
                footer: fields[6].clone(),
                footer_encoding: fields[7].clone(),
                program_arguments: fields[8].clone(),
                input: fields[9].clone(),
                input_encoding: fields[10].clone(),
            },
        }
    }

    /// Reads the bytes of a record, as an array of as many strings as the
    /// schema has fields.
    pub fn deserialize_mp(schema: LinkSchema, data: &[u8]) -> (r: Result<LinkState, DecodeError>)
        ensures
            outcome(r) == payload_state(schema, data@),
    {
        let read = match schema {
            LinkSchema::V0 => unpack_nine(data),
            LinkSchema::V1 => unpack_eleven(data),
        };
        match read {
            Ok(fields) => Ok(LinkState::from_record(schema, &fields)),
            Err(e) => Err(DecodeError::MessagePack(e)),
        }
    }

    /// Decodes a link. The state it returns has a schema with a place for
    /// all it holds.
    pub fn decode(url: &str) -> (r: Result<LinkState, DecodeError>)
        ensures
            outcome(r) == decode_spec(url@),
            r matches Ok(s) ==> well_laid(s@),
    {
        let (data, language) = match LinkState::decode_url(url) {
            Ok(found) => found,
            Err(e) => {
                return Err(e);
            },
        };
        let mut state = match data {
            Some((schema, payload)) => match LinkState::deserialize_mp(
                schema,
                payload.as_slice(),
            ) {
                Ok(s) => s,
                Err(e) => {
                    return Err(e);
                },
            },
            None => LinkState::default(),
        };
        match language {
            Some(l) => {
                if state.language.as_str().is_empty() {
                    state.language = l;
                }
            },
            None => {},
        }
        Ok(state)
    }

    /// The fields of the record of the state, in the order of its schema.
    pub fn fields(&self) -> (r: Vec<String>)
        ensures
            texts(r@) == record(self@),
    {
        let mut out: Vec<String> = Vec::new();
        out.push(self.language.clone());
        if self.schema == LinkSchema::V1 {
            out.push(self.options.clone());
        }
        out.push(self.header.clone());
        out.push(self.header_encoding.clone());
        out.push(self.code.clone());
        out.push(self.code_encoding.clone());
        out.push(self.footer.clone());
        out.push(self.footer_encoding.clone());
        if self.schema == LinkSchema::V1 {
            out.push(self.program_arguments.clone());
        }
        out.push(self.input.clone());
        out.push(self.input_encoding.clone());
        assert(texts(out@) =~= record(self@));
        out
    }

    /// Writes the record of the state. Where its fields can be written
    /// down, reading the bytes gives the fields back.
    pub fn serialize_mp(&self) -> (r: Result<Vec<u8>, EncodeError>)
        ensures
            record_outcome(r) == payload(self@),
            r is Ok && fits(record(self@)) ==> unpacked(self@.schema, r->Ok_0@) == Some(
                record(self@),
            ),
    {
        let fields = self.fields();
        match pack(&fields) {
            Ok(p) => Ok(p),
            Err(e) => Err(EncodeError::MessagePack(e)),
        }
    }

    /// Compresses the bytes of a record at `level` and writes the link.
    /// The link has one query pair, the schema's key with the payload's
    /// text; that text is of the URL-safe alphabet and reads back as `data`.
    pub fn encode_url(schema: LinkSchema, data: &[u8], level: u32) -> (r: Result<
        String,
        EncodeError,
    >)
        requires
            level <= BEST,
        ensures
            link_outcome(r) == link_of(schema, data@, level),
            r is Ok ==> payload_of(url_safe_text(deflated(data@, level)->Some_0)) == Ok::<
                _,
                Rejection,
            >(data@),
            r is Ok ==> url_parts(r->Ok_0@) is Some && url_parts(r->Ok_0@)->Some_0.query == seq![
                (schema_key(schema), url_safe_text(deflated(data@, level)->Some_0)),
            ],
            r is Ok ==> all_url_safe(url_safe_text(deflated(data@, level)->Some_0)),
    {
        let stream = match deflate(data, level) {
            Ok(z) => z,
            Err(e) => {
                return Err(EncodeError::Deflate(e));
            },
        };
        let text = encode_url_safe(stream.as_slice());
        let mut query: Vec<char> = match schema {
            LinkSchema::V0 => to_chars("0"),
            LinkSchema::V1 => to_chars("1"),
        };
        query.push('=');
        crate::text::append(&mut query, &to_chars(text.as_str()));
        assert(query@ =~= query_text(schema, stream@));
        let query = to_string(&query);
        proof {
            reveal_strlit("https://ato.pxeger.com/run");
            reveal_strlit("0");
            reveal_strlit("1");
            lemma_split_once_at(schema_key(schema), '=', text@);
            lemma_tidied_clean(text@);
        }
        match with_query(RUN_URL, query.as_str()) {
            Ok(link) => Ok(link),
            Err(e) => Err(EncodeError::Url(e)),
        }
    }

    /// Encodes the state as a link, with its record compressed at `level`.
    /// Where the state `can_link`, the link decodes to the state again.
    pub fn encode_at(&self, level: u32) -> (r: Result<String, EncodeError>)
        requires
            level <= BEST,
        ensures
            link_outcome(r) == encode_spec(self@, level),
            r is Ok && can_link(self@) ==> reads_back(self@, level),
            r is Ok && can_link(self@) ==> decode_spec(r->Ok_0@) == Ok::<_, Rejection>(self@),
    {
        let payload = match self.serialize_mp() {
            Ok(p) => p,
            Err(e) => {
                return Err(e);
            },
        };
        let r = LinkState::encode_url(self.schema, payload.as_slice(), level);
        proof {
            if r is Ok && can_link(self@) {
                lemma_link_reads_back(self@, level);
            }
        }
        r
    }

    /// Encodes the state as a link, with its record compressed as far as
    /// the compressor goes.
    pub fn encode(&self) -> (r: Result<String, EncodeError>)
        ensures
            link_outcome(r) == encode_spec(self@, BEST),
            r is Ok && can_link(self@) ==> reads_back(self@, BEST),
            r is Ok && can_link(self@) ==> decode_spec(r->Ok_0@) == Ok::<_, Rejection>(self@),
    {
        self.encode_at(BEST)
    }
}

/// The record of the link of `s` was written and compressed, and reading
/// undoes both, as the outside libraries promise of their own output.
pub open spec fn transport_inverts(s: LinkStateView, level: u32) -> bool {
    &&& packed(record(s)) is Some
    &&& unpacked(s.schema, packed(record(s))->Some_0) == Some(record(s))
    &&& deflated(packed(record(s))->Some_0, level) is Some
    &&& payload_of(link_pair(s, level).1) == Ok::<_, Rejection>(packed(record(s))->Some_0)
}

/// Decoding the query pair of the link of a state gives the state back,
/// for every state that a link can say in full, given that reading undoes
/// writing in the outside libraries.
pub proof fn lemma_link_reads_back(s: LinkStateView, level: u32)
    requires
        can_link(s),
        transport_inverts(s, level),
    ensures
        reads_back(s, level),
{
    reveal_strlit("0");
    reveal_strlit("1");
    reveal_strlit("L");
    reveal_strlit("l");
    let pair = link_pair(s, level);
    let pairs = seq![pair];
    assert(pairs.drop_last() =~= Seq::<(Seq<char>, Seq<char>)>::empty());
    assert(pairs.last() == pair);
    let schema = s.schema;
    let q = QueryView { data: Some((schema, pair.1)), language: None };
    assert("0"@ != "1"@) by {
        assert("0"@[0] != "1"@[0]);
    }
    assert(resolve(pairs.drop_last()) == Ok::<_, Rejection>(no_query()));
    assert(take_pair(pair, no_query()) == Ok::<_, Rejection>(q));
    assert(resolve(pairs) == Ok::<_, Rejection>(q));
    let p = packed(record(s))->Some_0;
    assert(query_payload(q) == Ok::<_, Rejection>((Some((schema, p)), None::<Seq<char>>)));
    let f = record(s);
    let back = record_state(schema, f);
    assert(back.options =~= s.options);
    assert(back.program_arguments =~= s.program_arguments);
    assert(back == s);
}

/// A link that names a schema twice is rejected for that, whatever its
/// payloads hold: the pairs up to the second naming decide, and no payload
/// is read before the pairs are.
pub proof fn lemma_second_schema_rejected(pairs: Seq<(Seq<char>, Seq<char>)>, n: int)
    requires
        0 <= n < pairs.len(),
        is_schema_key(pairs[n].0),
        resolve(pairs.take(n)) matches Ok(q) && q.data is Some,
    ensures
        decode_pairs(pairs) == Err::<LinkStateView, _>(Rejection::MultipleVersions),
{
    assert(pairs.take(n + 1).drop_last() =~= pairs.take(n));
    assert(pairs.take(n + 1).last() == pairs[n]);
    lemma_resolve_fails(pairs, n + 1);
}

/// A link with both schema keys is rejected for that, in either order and
/// whatever the two values are.
pub proof fn lemma_both_schemas_rejected(first: Seq<char>, second: Seq<char>)
    ensures
        decode_pairs(seq![("0"@, first), ("1"@, second)]) == Err::<LinkStateView, _>(
            Rejection::MultipleVersions,
        ),
        decode_pairs(seq![("1"@, first), ("0"@, second)]) == Err::<LinkStateView, _>(
            Rejection::MultipleVersions,
        ),
{
    lemma_two_schemas(seq![("0"@, first), ("1"@, second)]);
    lemma_two_schemas(seq![("1"@, first), ("0"@, second)]);
}

/// Two pairs that both name a schema are rejected.
proof fn lemma_two_schemas(pairs: Seq<(Seq<char>, Seq<char>)>)
    requires
        pairs.len() == 2,
        is_schema_key(pairs[0].0),
        is_schema_key(pairs[1].0),
    ensures
        decode_pairs(pairs) == Err::<LinkStateView, _>(Rejection::MultipleVersions),
{
    let head = pairs.take(1);
    assert(head.drop_last() =~= Seq::<(Seq<char>, Seq<char>)>::empty());
    assert(head.last() == pairs[0]);
    assert(resolve(head.drop_last()) == Ok::<_, Rejection>(no_query()));
    assert(resolve(head) == take_pair(pairs[0], no_query()));
    lemma_second_schema_rejected(pairs, 1);
}

/// Tidying two texts in a row tidies each.
pub proof fn lemma_tidied_concat(a: Seq<char>, b: Seq<char>)
    ensures
        tidied(a + b) == tidied(a) + tidied(b),
    decreases b.len(),
{
    if b.len() == 0 {
        assert(a + b =~= a);
        assert(tidied(a) + tidied(b) =~= tidied(a));
    } else {
        assert((a + b).drop_last() =~= a + b.drop_last());
        assert((a + b).last() == b.last());
        lemma_tidied_concat(a, b.drop_last());
        if is_alphabet(b.last()) {
            assert(tidied(a + b) =~= tidied(a) + tidied(b));
        }
    }
}

/// A text of the URL-safe alphabet is tidy as it stands.
pub proof fn lemma_tidied_clean(text: Seq<char>)
    requires
        all_url_safe(text),
    ensures
        tidied(text) == text,
    decreases text.len(),
{
    if text.len() > 0 {
        assert(is_url_safe(text.last()));
        lemma_tidied_clean(text.drop_last());
        assert(text.drop_last().push(text.last()) =~= text);
    }
}

/// Of a text that is all noise nothing is left.
pub proof fn lemma_tidied_junk(text: Seq<char>)
    requires
        all_noise(text),
    ensures
        tidied(text) == Seq::<char>::empty(),
    decreases text.len(),
{
    if text.len() > 0 {
        lemma_tidied_junk(text.drop_last());
    }
}

/// A tidied text is of the URL-safe alphabet, and tidy as it stands:
/// tidying twice reads the same payload.
pub proof fn lemma_tidied_twice(text: Seq<char>)
    ensures
        all_url_safe(tidied(text)),
        tidied(tidied(text)) == tidied(text),
        payload_of(tidied(text)) == payload_of(text),
    decreases text.len(),
{
    if text.len() > 0 {
        lemma_tidied_twice(text.drop_last());
    }
    lemma_tidied_clean(tidied(text));
}

/// Noise in a payload's text does not change what is read: a text of the
/// URL-safe alphabet with noise spliced into it reads as the text without
/// the noise does.
pub proof fn lemma_noise_is_ignored(head: Seq<char>, junk: Seq<char>, tail: Seq<char>)
    requires
        all_url_safe(head),
        all_url_safe(tail),
        all_noise(junk),
    ensures
        tidied(head + junk + tail) == head + tail,
        payload_of(head + junk + tail) == payload_of(head + tail),
{
    lemma_tidied_concat(head + junk, tail);
    lemma_tidied_concat(head, junk);
    lemma_tidied_clean(head);
    lemma_tidied_clean(tail);
    lemma_tidied_junk(junk);
    assert(head + Seq::<char>::empty() + tail =~= head + tail);
    lemma_tidied_concat(head, tail);
}

/// Noise anywhere in a payload's text does not change what a link decodes
/// to: two links whose pairs differ only in the noise of one value decode
/// alike, to the same state or to the same failure.
pub proof fn lemma_noisy_pair_decodes_alike(
    before: Seq<(Seq<char>, Seq<char>)>,
    key: Seq<char>,
    noisy: Seq<char>,
    clean: Seq<char>,
    after: Seq<(Seq<char>, Seq<char>)>,
)
    requires
        is_schema_key(key),
        tidied(noisy) == tidied(clean),
    ensures
        decode_pairs(before + seq![(key, noisy)] + after) == decode_pairs(
            before + seq![(key, clean)] + after,
        ),
    decreases after.len(),
{
    let a = before + seq![(key, noisy)] + after;
    let b = before + seq![(key, clean)] + after;
    lemma_resolve_alike(before, key, noisy, clean, after);
}

/// The pairs of two such links resolve alike, but for the text of the
/// payload, which tidies alike.
proof fn lemma_resolve_alike(
    before: Seq<(Seq<char>, Seq<char>)>,
    key: Seq<char>,
    noisy: Seq<char>,
    clean: Seq<char>,
    after: Seq<(Seq<char>, Seq<char>)>,
)
    requires
        is_schema_key(key),
        tidied(noisy) == tidied(clean),
    ensures
        match (
            resolve(before + seq![(key, noisy)] + after),
            resolve(before + seq![(key, clean)] + after),
        ) {
            (Ok(p), Ok(q)) => p.language == q.language && (match (p.data, q.data) {
                (Some((s, t)), Some((u, v))) => s == u && tidied(t) == tidied(v),
                (None, None) => true,
                _ => false,
            }),
            (Err(e), Err(f)) => e == f,
            _ => false,
        },
    decreases after.len(),
{
    let a = before + seq![(key, noisy)] + after;
    let b = before + seq![(key, clean)] + after;
    if after.len() == 0 {
        assert(a.drop_last() =~= before);
        assert(b.drop_last() =~= before);
        assert(a.last() == (key, noisy));
        assert(b.last() == (key, clean));
    } else {
        assert(a.drop_last() =~= before + seq![(key, noisy)] + after.drop_last());
        assert(b.drop_last() =~= before + seq![(key, clean)] + after.drop_last());
        assert(a.last() == after.last());
        assert(b.last() == after.last());
        lemma_resolve_alike(before, key, noisy, clean, after.drop_last());
    }
}

/// One character of an alphabet tidies to its URL-safe one.
proof fn lemma_tidied_one(c: char)
    requires
        is_alphabet(c),
    ensures
        tidied(seq![c]) == seq![url_safe_of(c)],
{
    let s = seq![c];
    assert(s.drop_last() =~= Seq::<char>::empty());
    assert(tidied(s.drop_last()) =~= Seq::<char>::empty());
    assert(s.last() == c);
    assert(tidied(s) =~= seq![url_safe_of(c)]);
}

/// A character of the standard alphabet reads as its URL-safe one: a text
/// with `/` or `+` in it tidies to the text with `_` or `-` in that place.
pub proof fn lemma_alphabets_mix(head: Seq<char>, tail: Seq<char>)
    ensures
        tidied(head + seq!['/'] + tail) == tidied(head + seq!['_'] + tail),
        tidied(head + seq!['+'] + tail) == tidied(head + seq!['-'] + tail),
{
    lemma_tidied_concat(head + seq!['/'], tail);
    lemma_tidied_concat(head, seq!['/']);
    lemma_tidied_concat(head + seq!['_'], tail);
    lemma_tidied_concat(head, seq!['_']);
    lemma_tidied_concat(head + seq!['+'], tail);
    lemma_tidied_concat(head, seq!['+']);
    lemma_tidied_concat(head + seq!['-'], tail);
    lemma_tidied_concat(head, seq!['-']);
    lemma_tidied_one('/');
    lemma_tidied_one('_');
    lemma_tidied_one('+');
    lemma_tidied_one('-');
}

/// Every state that decoding returns has a schema with a place for all it
/// holds: encoding it loses none of it.
pub proof fn lemma_decoded_well_laid(pairs: Seq<(Seq<char>, Seq<char>)>)
    ensures
        decode_pairs(pairs) matches Ok(s) ==> well_laid(s),
{
}

/// A decoded state survives another round: where its link was written, and
/// reading undoes writing in the outside libraries, the query pair of that
/// link decodes to the same state.
pub proof fn lemma_decoded_reads_back(pairs: Seq<(Seq<char>, Seq<char>)>, level: u32)
    ensures
        decode_pairs(pairs) matches Ok(s) ==> (fits(record(s)) && transport_inverts(s, level)
            ==> reads_back(s, level)),
{
    lemma_decoded_well_laid(pairs);
    match decode_pairs(pairs) {
        Ok(s) => {
            if fits(record(s)) && transport_inverts(s, level) {
                lemma_link_reads_back(s, level);
            }
        },
        Err(_) => {},
    }
}


} // verus!
