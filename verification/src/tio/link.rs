//! Try It Online share links in the first link format.
//!
//! Such a link names the language in its host, its path or its fragment, and
//! carries the program in the fragment, as `key=value` fields joined by `&`.
//! Every value is base64 text of UTF-8 bytes. Reading is lenient about the
//! alphabet; writing always uses the URL-safe one.
use crate::b64::{
    all_url_safe, is_url_safe, decode_standard, decode_url_safe, encode_url_safe, standard_bytes,
    url_safe_bytes, url_safe_text,
};
use crate::text::{
    append, cut, cut_once, ends_with, has_prefix, has_suffix, holds, join, join_all,
    lemma_concat_lacks, lemma_find_none, lemma_join_lacks, lemma_split_join, lemma_split_once_at,
    option_text, slice, spells, split, split_once, starts_with, texts, to_chars, to_string, views,
};
use crate::weburl::{split_url, url_parts, UrlParts};
use base64::DecodeError as Base64Error;
use url::ParseError as UrlError;
use vstd::prelude::*;
use vstd::utf8::{decode_utf8, encode_utf8, valid_utf8};

verus! {

/// The format of a link.
#[derive(Clone, Copy, Debug, PartialEq, Eq, Structural)]
pub enum LinkSchema {
    /// The first format: plain base64 fields in the fragment.
    V1,
    /// The second format.
    V2,
}

impl Default for LinkSchema {
    fn default() -> (r: Self)
        ensures
            r == LinkSchema::V2,
    {
        LinkSchema::V2
    }
}

/// The site that a link points to.
#[derive(Clone, Copy, Debug, PartialEq, Eq, Structural)]
pub enum LinkDomain {
    /// `https://tio.run/`, with the language in the fragment.
    Tio,
    /// `https://tio.run/nexus/`, with the language in the path.
    TioNexus,
    /// `http://<language>.tryitonline.net/`, with the language in the host.
    TryItOnline,
}

impl Default for LinkDomain {
    fn default() -> (r: Self)
        ensures
            r == LinkDomain::Tio,
    {
        LinkDomain::Tio
    }
}

/// What a link holds, as it stands in the link.
#[derive(Clone, Debug, PartialEq, Eq)]
pub struct LinkState {
    pub schema: LinkSchema,
    pub domain: LinkDomain,
    pub language: String,
    pub code: String,
    pub input: String,
    pub args: Vec<String>,
    pub debug: bool,
}

/// A `LinkState` as plain sequences.
pub struct LinkStateView {
    pub schema: LinkSchema,
    pub domain: LinkDomain,
    pub language: Seq<char>,
    pub code: Seq<char>,
    pub input: Seq<char>,
    pub args: Seq<Seq<char>>,
    pub debug: bool,
}

impl View for LinkState {
    type V = LinkStateView;

    open spec fn view(&self) -> LinkStateView {
        LinkStateView {
            schema: self.schema,
            domain: self.domain,
            language: self.language@,
            code: self.code@,
            input: self.input@,
            args: texts(self.args@),
            debug: self.debug,
        }
    }
}

/// Why a link was not decoded.
#[derive(Debug)]
pub enum DecodeError {
    /// The text is no URL.
    Url(UrlError),
    /// The host is none of the sandbox's.
    UnknownDomain(String),
    /// The language is named twice.
    MultipleLanguages,
    /// A field's value holds a `=`.
    FieldContainsEquals,
    /// A field has a key that the format does not know.
    UnknownField(String),
    /// A field occurs twice.
    DuplicateField(String),
    /// A value is no base64 text.
    Base64(Base64Error),
    /// A value's bytes are no UTF-8.
    Utf8(std::string::FromUtf8Error),
}

/// A `DecodeError` without what the outside libraries reported.
pub enum Rejection {
    Url,
    UnknownDomain(Seq<char>),
    MultipleLanguages,
    FieldContainsEquals,
    UnknownField(Seq<char>),
    DuplicateField(Seq<char>),
    Base64,
    Utf8,
}

impl View for DecodeError {
    type V = Rejection;

    open spec fn view(&self) -> Rejection {
        match *self {
            DecodeError::Url(_) => Rejection::Url,
            DecodeError::UnknownDomain(d) => Rejection::UnknownDomain(d@),
            DecodeError::MultipleLanguages => Rejection::MultipleLanguages,
            DecodeError::FieldContainsEquals => Rejection::FieldContainsEquals,
            DecodeError::UnknownField(k) => Rejection::UnknownField(k@),
            DecodeError::DuplicateField(k) => Rejection::DuplicateField(k@),
            DecodeError::Base64(_) => Rejection::Base64,
            DecodeError::Utf8(_) => Rejection::Utf8,
        }
    }
}

/// Encoding cannot fail: no value of this type can be made.
#[derive(Debug)]
pub enum EncodeError {
    Never(core::convert::Infallible),
}

/// The fields of a fragment that have been read so far.
pub struct FieldsView {
    pub code: Option<Seq<char>>,
    pub input: Option<Seq<char>>,
    pub args: Option<Seq<Seq<char>>>,
    pub debug: Option<bool>,
}

struct Fields {
    code: Option<String>,
    input: Option<String>,
    args: Option<Vec<String>>,
    debug: Option<bool>,
}

impl View for Fields {
    type V = FieldsView;

    closed spec fn view(&self) -> FieldsView {
        FieldsView {
            code: option_text(self.code),
            input: option_text(self.input),
            args: match self.args {
                Some(a) => Some(texts(a@)),
                None => None,
            },
            debug: self.debug,
        }
    }
}

/// The outcome of decoding a link, as plain sequences.
pub open spec fn outcome(r: Result<LinkState, DecodeError>) -> Result<LinkStateView, Rejection> {
    match r {
        Ok(s) => Ok(s@),
        Err(e) => Err(e@),
    }
}

/// The outcome of decoding one value, as plain sequences.
pub open spec fn text_outcome(r: Result<String, DecodeError>) -> Result<Seq<char>, Rejection> {
    match r {
        Ok(s) => Ok(s@),
        Err(e) => Err(e@),
    }
}

/// The bytes of a base64 value: read with the URL-safe alphabet, and with the
/// standard one where that fails.
pub open spec fn field_bytes(value: Seq<char>) -> Option<Seq<u8>> {
    match url_safe_bytes(value) {
        Some(b) => Some(b),
        None => standard_bytes(value),
    }
}

/// The text that bytes spell as UTF-8.
pub open spec fn bytes_text(bytes: Seq<u8>) -> Result<Seq<char>, Rejection> {
    if valid_utf8(bytes) {
        Ok(decode_utf8(bytes))
    } else {
        Err(Rejection::Utf8)
    }
}

/// The text that a base64 value stands for.
pub open spec fn field_text(value: Seq<char>) -> Result<Seq<char>, Rejection> {
    match field_bytes(value) {
        Some(b) => bytes_text(b),
        None => Err(Rejection::Base64),
    }
}

/// The texts that the pieces of an `args` value stand for: all of them, or
/// the failure of the first piece that fails.
pub open spec fn args_text(pieces: Seq<Seq<char>>) -> Result<Seq<Seq<char>>, Rejection>
    decreases pieces.len(),
{
    if pieces.len() == 0 {
        Ok(Seq::empty())
    } else {
        match args_text(pieces.drop_last()) {
            Err(e) => Err(e),
            Ok(done) => match field_text(pieces.last()) {
                Err(e) => Err(e),
                Ok(t) => Ok(done.push(t)),
            },
        }
    }
}

/// The fields after one more `key=value` piece of the fragment. A piece
/// without `=` changes nothing, and `debug` is set by its presence, whatever
/// its value.
pub open spec fn take_field(field: Seq<char>, got: FieldsView) -> Result<FieldsView, Rejection> {
    match split_once(field, '=') {
        None => Ok(got),
        Some((key, value)) => if value.contains('=') {
            Err(Rejection::FieldContainsEquals)
        } else if key == "code"@ {
            if got.code is None {
                match field_text(value) {
                    Ok(t) => Ok(FieldsView { code: Some(t), ..got }),
                    Err(e) => Err(e),
                }
            } else {
                Err(Rejection::DuplicateField(key))
            }
        } else if key == "input"@ {
            if got.input is None {
                match field_text(value) {
                    Ok(t) => Ok(FieldsView { input: Some(t), ..got }),
                    Err(e) => Err(e),
                }
            } else {
                Err(Rejection::DuplicateField(key))
            }
        } else if key == "args"@ {
            if got.args is None {
                match args_text(split(value, '+')) {
                    Ok(a) => Ok(FieldsView { args: Some(a), ..got }),
                    Err(e) => Err(e),
                }
            } else {
                Err(Rejection::DuplicateField(key))
            }
        } else if key == "debug"@ {
            if got.debug is None {
                Ok(FieldsView { debug: Some(true), ..got })
            } else {
                Err(Rejection::DuplicateField(key))
            }
        } else {
            Err(Rejection::UnknownField(key))
        },
    }
}

/// No field read yet.
pub open spec fn no_fields() -> FieldsView {
    FieldsView { code: None, input: None, args: None, debug: None }
}

/// The fields of the pieces of a fragment, read from left to right: all of
/// them, or the failure of the first piece that fails.
pub open spec fn scan(pieces: Seq<Seq<char>>) -> Result<FieldsView, Rejection>
    decreases pieces.len(),
{
    if pieces.len() == 0 {
        Ok(no_fields())
    } else {
        match scan(pieces.drop_last()) {
            Err(e) => Err(e),
            Ok(got) => take_field(pieces.last(), got),
        }
    }
}

/// The site that a host and a path name, and the language where they name one.
pub open spec fn locate(domain: Option<Seq<char>>, path: Seq<char>) -> Result<
    (LinkDomain, Option<Seq<char>>),
    Rejection,
> {
    match domain {
        None => Err(Rejection::UnknownDomain(Seq::empty())),
        Some(d) => if d == "tio.run"@ {
            if starts_with(path, "/nexus/"@) {
                Ok((LinkDomain::TioNexus, Some(path.skip("/nexus/"@.len() as int))))
            } else {
                Ok((LinkDomain::Tio, None))
            }
        } else if d == "tryitonline.net"@ {
            Ok((LinkDomain::TryItOnline, None))
        } else if ends_with(d, ".tryitonline.net"@) {
            Ok((LinkDomain::TryItOnline, Some(d.take(d.len() - ".tryitonline.net"@.len()))))
        } else {
            Err(Rejection::UnknownDomain(d))
        },
    }
}

/// A text, or the empty text.
pub open spec fn or_empty(t: Option<Seq<char>>) -> Seq<char> {
    match t {
        Some(s) => s,
        None => Seq::empty(),
    }
}

/// The state that a site, a language and the fields of a fragment make.
/// A field that the fragment lacks is empty, or false.
pub open spec fn state_of(
    domain: LinkDomain,
    language: Option<Seq<char>>,
    fields: Seq<char>,
) -> Result<LinkStateView, Rejection> {
    match scan(split(fields, '&')) {
        Err(e) => Err(e),
        Ok(got) => Ok(
            LinkStateView {
                schema: LinkSchema::V1,
                domain: domain,
                language: or_empty(language),
                code: or_empty(got.code),
                input: or_empty(got.input),
                args: match got.args {
                    Some(a) => a,
                    None => Seq::empty(),
                },
                debug: got.debug == Some(true),
            },
        ),
    }
}

/// The state that the parts of a URL stand for. A fragment that holds a `#`
/// names the language before it; the host or the path may then not name one.
pub open spec fn decode_parts(
    domain: Option<Seq<char>>,
    path: Seq<char>,
    fragment: Option<Seq<char>>,
) -> Result<LinkStateView, Rejection> {
    match locate(domain, path) {
        Err(e) => Err(e),
        Ok((site, named)) => match split_once(or_empty(fragment), '#') {
            Some((language, fields)) => if named is Some {
                Err(Rejection::MultipleLanguages)
            } else {
                state_of(site, Some(language), fields)
            },
            None => state_of(site, named, or_empty(fragment)),
        },
    }
}

/// The state that the text of a link stands for.
pub open spec fn decode_spec(url: Seq<char>) -> Result<LinkStateView, Rejection> {
    match url_parts(url) {
        None => Err(Rejection::Url),
        Some(parts) => decode_parts(parts.domain, parts.path, parts.fragment),
    }
}

/// The base64 text that a link carries for `text`.
pub open spec fn field(text: Seq<char>) -> Seq<char> {
    url_safe_text(encode_utf8(text))
}

/// The base64 texts of the arguments, in order.
pub open spec fn arg_fields(args: Seq<Seq<char>>) -> Seq<Seq<char>> {
    Seq::new(args.len(), |i: int| field(args[i]))
}

/// One field of a fragment: a key, `=` and a value.
pub open spec fn keyed(key: Seq<char>, value: Seq<char>) -> Seq<char> {
    key + seq!['='] + value
}

/// The `args` field of a state that has arguments, and nothing otherwise.
pub open spec fn args_field(args: Seq<Seq<char>>) -> Seq<Seq<char>> {
    if args.len() > 0 {
        seq![keyed("args"@, join(arg_fields(args), '+'))]
    } else {
        Seq::empty()
    }
}

/// The `debug` field of a state that asks for it, and nothing otherwise.
pub open spec fn debug_field(debug: bool) -> Seq<Seq<char>> {
    if debug {
        seq![keyed("debug"@, "on"@)]
    } else {
        Seq::empty()
    }
}

/// The fields of the link of a state: `code` and `input` always, `args` and
/// `debug` where the state has them.
pub open spec fn field_list(s: LinkStateView) -> Seq<Seq<char>> {
    seq![keyed("code"@, field(s.code)), keyed("input"@, field(s.input))] + args_field(s.args)
        + debug_field(s.debug)
}

/// The scheme of the link of a state.
pub open spec fn link_scheme(s: LinkStateView) -> Seq<char> {
    match s.domain {
        LinkDomain::TryItOnline => "http"@,
        _ => "https"@,
    }
}

/// The host of the link of a state.
pub open spec fn link_host(s: LinkStateView) -> Seq<char> {
    match s.domain {
        LinkDomain::TryItOnline => if s.language.len() == 0 {
            "tryitonline.net"@
        } else {
            s.language + ".tryitonline.net"@
        },
        _ => "tio.run"@,
    }
}

/// The path of the link of a state.
pub open spec fn link_path(s: LinkStateView) -> Seq<char> {
    match s.domain {
        LinkDomain::TioNexus => "/nexus/"@ + s.language,
        _ => "/"@,
    }
}

/// The fragment of the link of a state.
pub open spec fn link_fragment(s: LinkStateView) -> Seq<char> {
    match s.domain {
        LinkDomain::Tio => s.language + seq!['#'] + join(field_list(s), '&'),
        _ => join(field_list(s), '&'),
    }
}

/// The text of the link of a state.
pub open spec fn link_text(s: LinkStateView) -> Seq<char> {
    link_scheme(s) + "://"@ + link_host(s) + link_path(s) + seq!['#'] + link_fragment(s)
}

/// The base64 text of `text` is written in the URL-safe alphabet and stands
/// for the UTF-8 bytes of `text`.
pub open spec fn inverts(text: Seq<char>) -> bool {
    all_url_safe(field(text)) && url_safe_bytes(field(text)) == Some(encode_utf8(text))
}

/// The base64 texts of all that a state holds are as `inverts` says.
pub open spec fn base64_inverts(s: LinkStateView) -> bool {
    &&& inverts(s.code)
    &&& inverts(s.input)
    &&& forall|i: int| 0 <= i < s.args.len() ==> inverts(#[trigger] s.args[i])
}

/// A state whose link can say what it holds: in the first format, and with a
/// language that holds no `#` where the fragment names it.
pub open spec fn can_link(s: LinkStateView) -> bool {
    &&& s.schema == LinkSchema::V1
    &&& s.domain == LinkDomain::Tio ==> !s.language.contains('#')
}

/// Decoding the host, the path and the fragment of the link of `s` gives `s`.
pub open spec fn reads_back(s: LinkStateView) -> bool {
    decode_parts(Some(link_host(s)), link_path(s), Some(link_fragment(s))) == Ok::<_, Rejection>(
        s,
    )
}

/// The string that `bytes` spell as UTF-8.
pub fn text_of_bytes(bytes: Vec<u8>) -> (r: Result<String, DecodeError>)
    ensures
        text_outcome(r) == bytes_text(bytes@),
{
    match String::from_utf8(bytes) {
        Ok(s) => Ok(s),
        Err(e) => Err(DecodeError::Utf8(e)),
    }
}

/// What two readings of a value come to: the bytes of the second where it
/// gave some, and the failure of the first where it gave none.
pub fn second_reading(first: Base64Error, second: Result<Vec<u8>, Base64Error>) -> (r: Result<
    Vec<u8>,
    DecodeError,
>)
    ensures
        match second {
            Ok(b) => r == Ok::<_, DecodeError>(b),
            Err(_) => r == Err::<Vec<u8>, _>(DecodeError::Base64(first)),
        },
{
    match second {
        Ok(b) => Ok(b),
        Err(_) => Err(DecodeError::Base64(first)),
    }
}

/// Reads one base64 value of a fragment: with the URL-safe alphabet first,
/// and with the standard one where that fails.
pub fn decode_bytes(value: &str) -> (r: Result<Vec<u8>, DecodeError>)
    ensures
        match r {
            Ok(b) => field_bytes(value@) == Some(b@),
            Err(e) => field_bytes(value@) is None && e@ == Rejection::Base64,
        },
{
    match decode_url_safe(value) {
        Ok(b) => Ok(b),
        Err(first) => second_reading(first, decode_standard(value)),
    }
}

/// Decodes one base64 value of a fragment.
pub fn decode_field(value: &str) -> (r: Result<String, DecodeError>)
    ensures
        text_outcome(r) == field_text(value@),
{
    match decode_bytes(value) {
        Ok(bytes) => text_of_bytes(bytes),
        Err(e) => Err(e),
    }
}

/// Decodes the pieces of an `args` value.
fn decode_args(pieces: &Vec<Vec<char>>) -> (r: Result<Vec<String>, DecodeError>)
    ensures
        match r {
            Ok(a) => args_text(views(pieces@)) == Ok::<_, Rejection>(texts(a@)),
            Err(e) => args_text(views(pieces@)) == Err::<Seq<Seq<char>>, _>(e@),
        },
{
    let mut out: Vec<String> = Vec::new();
    let mut i: usize = 0;
    assert(views(pieces@).take(0) =~= Seq::<Seq<char>>::empty());
    assert(texts(out@) =~= Seq::<Seq<char>>::empty());
    while i < pieces.len()
        invariant
            i <= pieces.len(),
            args_text(views(pieces@).take(i as int)) == Ok::<_, Rejection>(texts(out@)),
        decreases pieces.len() - i,
    {
        let piece = to_string(&pieces[i]);
        let ghost before = views(pieces@).take(i as int);
        let ghost now = views(pieces@).take(i + 1);
        assert(now.drop_last() =~= before);
        assert(now.last() == pieces@[i as int]@);
        match decode_field(piece.as_str()) {
            Ok(t) => {
                assert(texts(out@.push(t)) =~= texts(out@).push(t@));
                out.push(t);
            },
            Err(e) => {
                proof {
                    lemma_args_text_fails(views(pieces@), i + 1);
                }
                return Err(e);
            },
        }
        i += 1;
    }
    assert(views(pieces@).take(pieces@.len() as int) =~= views(pieces@));
    Ok(out)
}

/// A failure among the first `n` pieces is the failure of all of them.
proof fn lemma_args_text_fails(pieces: Seq<Seq<char>>, n: int)
    requires
        0 <= n <= pieces.len(),
        args_text(pieces.take(n)) is Err,
    ensures
        args_text(pieces) == args_text(pieces.take(n)),
    decreases pieces.len() - n,
{
    if n < pieces.len() {
        assert(pieces.take(n + 1).drop_last() =~= pieces.take(n));
        lemma_args_text_fails(pieces, n + 1);
    } else {
        assert(pieces.take(n) =~= pieces);
    }
}

/// A failure among the first `n` pieces is the failure of all of them.
proof fn lemma_scan_fails(pieces: Seq<Seq<char>>, n: int)
    requires
        0 <= n <= pieces.len(),
        scan(pieces.take(n)) is Err,
    ensures
        scan(pieces) == scan(pieces.take(n)),
    decreases pieces.len() - n,
{
    if n < pieces.len() {
        assert(pieces.take(n + 1).drop_last() =~= pieces.take(n));
        lemma_scan_fails(pieces, n + 1);
    } else {
        assert(pieces.take(n) =~= pieces);
    }
}

/// Reads one piece of a fragment into `got`.
fn read_field(field: &Vec<char>, got: Fields) -> (r: Result<Fields, DecodeError>)
    ensures
        match r {
            Ok(f) => take_field(field@, got@) == Ok::<_, Rejection>(f@),
            Err(e) => take_field(field@, got@) == Err::<FieldsView, _>(e@),
        },
{
    let (key, value) = match cut_once(field, '=') {
        None => {
            return Ok(got);
        },
        Some(pair) => pair,
    };
    if holds(&value, '=') {
        return Err(DecodeError::FieldContainsEquals);
    }
    let mut got = got;
    if spells(&key, "code") {
        if got.code.is_some() {
            return Err(DecodeError::DuplicateField(to_string(&key)));
        }
        let text = to_string(&value);
        match decode_field(text.as_str()) {
            Ok(t) => {
                got.code = Some(t);
            },
            Err(e) => {
                return Err(e);
            },
        }
    } else if spells(&key, "input") {
        if got.input.is_some() {
            return Err(DecodeError::DuplicateField(to_string(&key)));
        }
        let text = to_string(&value);
        match decode_field(text.as_str()) {
            Ok(t) => {
                got.input = Some(t);
            },
            Err(e) => {
                return Err(e);
            },
        }
    } else if spells(&key, "args") {
        if got.args.is_some() {
            return Err(DecodeError::DuplicateField(to_string(&key)));
        }
        let pieces = cut(&value, '+');
        match decode_args(&pieces) {
            Ok(a) => {
                got.args = Some(a);
            },
            Err(e) => {
                return Err(e);
            },
        }
    } else if spells(&key, "debug") {
        if got.debug.is_some() {
            return Err(DecodeError::DuplicateField(to_string(&key)));
        }
        got.debug = Some(true);
    } else {
        return Err(DecodeError::UnknownField(to_string(&key)));
    }
    Ok(got)
}

/// Reads the fields of a fragment and makes the state.
fn read_state(domain: LinkDomain, language: Option<String>, fields: &Vec<char>) -> (r: Result<
    LinkState,
    DecodeError,
>)
    ensures
        outcome(r) == state_of(domain, option_text(language), fields@),
{
    let pieces = cut(fields, '&');
    let mut got = Fields { code: None, input: None, args: None, debug: None };
    let mut i: usize = 0;
    assert(views(pieces@).take(0) =~= Seq::<Seq<char>>::empty());
    while i < pieces.len()
        invariant
            i <= pieces.len(),
            views(pieces@) == split(fields@, '&'),
            scan(views(pieces@).take(i as int)) == Ok::<_, Rejection>(got@),
        decreases pieces.len() - i,
    {
        let ghost before = views(pieces@).take(i as int);
        let ghost now = views(pieces@).take(i + 1);
        assert(now.drop_last() =~= before);
        assert(now.last() == pieces@[i as int]@);
        match read_field(&pieces[i], got) {
            Ok(f) => {
                got = f;
            },
            Err(e) => {
                proof {
                    lemma_scan_fails(views(pieces@), i + 1);
                }
                return Err(e);
            },
        }
        i += 1;
    }
    assert(views(pieces@).take(pieces@.len() as int) =~= views(pieces@));
    let debug = match got.debug {
        Some(d) => d,
        None => false,
    };
    let language = match language {
        Some(l) => l,
        None => String::new(),
    };
    let code = match got.code {
        Some(c) => c,
        None => String::new(),
    };
    let input = match got.input {
        Some(c) => c,
        None => String::new(),
    };
    let args = match got.args {
        Some(a) => a,
        None => Vec::new(),
    };
    let state = LinkState { schema: LinkSchema::V1, domain, language, code, input, args, debug };
    proof {
        let spec_got = scan(split(fields@, '&'))->Ok_0;
        assert(state@.args =~= match spec_got.args {
            Some(a) => a,
            None => Seq::empty(),
        });
        assert(state@.code =~= or_empty(spec_got.code));
        assert(state@.input =~= or_empty(spec_got.input));
    }
    Ok(state)
}

/// A text of the URL-safe alphabet holds none of the marks that a link
/// cuts its fragment at.
proof fn lemma_url_safe_lacks(text: Seq<char>, c: char)
    requires
        all_url_safe(text),
        c == '=' || c == '&' || c == '+' || c == '#',
    ensures
        !text.contains(c),
{
    if text.contains(c) {
        let i = choose|i: int| 0 <= i < text.len() && text[i] == c;
        assert(is_url_safe(text[i]));
    }
}

/// The key words hold none of the marks either.
proof fn lemma_words_lack(c: char)
    requires
        c == '=' || c == '&' || c == '+' || c == '#',
    ensures
        !"code"@.contains(c),
        !"input"@.contains(c),
        !"args"@.contains(c),
        !"debug"@.contains(c),
        !"on"@.contains(c),
{
    reveal_strlit("code");
    reveal_strlit("input");
    reveal_strlit("args");
    reveal_strlit("debug");
    reveal_strlit("on");
}

/// A field whose key and value lack a mark other than `=` lacks it too.
proof fn lemma_keyed_lacks(key: Seq<char>, value: Seq<char>, c: char)
    requires
        c != '=',
        !key.contains(c),
        !value.contains(c),
    ensures
        !keyed(key, value).contains(c),
{
    assert(!seq!['='].contains(c));
    lemma_concat_lacks(key, seq!['='], c);
    lemma_concat_lacks(key + seq!['='], value, c);
}

/// The base64 text of a value decodes to the value.
proof fn lemma_field_text(text: Seq<char>)
    requires
        inverts(text),
    ensures
        field_text(field(text)) == Ok::<_, Rejection>(text),
{
    broadcast use vstd::utf8::encode_utf8_valid_utf8, vstd::utf8::encode_utf8_decode_utf8;

}

/// The base64 texts of the arguments decode to the arguments.
proof fn lemma_args_text(args: Seq<Seq<char>>)
    requires
        forall|i: int| 0 <= i < args.len() ==> inverts(#[trigger] args[i]),
    ensures
        args_text(arg_fields(args)) == Ok::<_, Rejection>(args),
    decreases args.len(),
{
    if args.len() == 0 {
        assert(args =~= Seq::<Seq<char>>::empty());
    } else {
        let head = args.drop_last();
        assert(arg_fields(args).drop_last() =~= arg_fields(head));
        lemma_args_text(head);
        lemma_field_text(args.last());
        assert(head.push(args.last()) =~= args);
    }
}

/// The joined base64 texts of the arguments decode to the arguments.
proof fn lemma_args_value(args: Seq<Seq<char>>)
    requires
        args.len() > 0,
        forall|i: int| 0 <= i < args.len() ==> inverts(#[trigger] args[i]),
    ensures
        args_text(split(join(arg_fields(args), '+'), '+')) == Ok::<_, Rejection>(args),
        !join(arg_fields(args), '+').contains('='),
        !join(arg_fields(args), '+').contains('&'),
        !join(arg_fields(args), '+').contains('#'),
{
    let pieces = arg_fields(args);
    assert forall|i: int| 0 <= i < pieces.len() implies !(#[trigger] pieces[i]).contains('+')
        && !pieces[i].contains('=') && !pieces[i].contains('&') && !pieces[i].contains('#') by {
        assert(inverts(args[i]));
        lemma_url_safe_lacks(pieces[i], '+');
        lemma_url_safe_lacks(pieces[i], '=');
        lemma_url_safe_lacks(pieces[i], '&');
        lemma_url_safe_lacks(pieces[i], '#');
    }
    lemma_split_join(pieces, '+');
    lemma_args_text(args);
    lemma_join_lacks(pieces, '+', '=');
    lemma_join_lacks(pieces, '+', '&');
    lemma_join_lacks(pieces, '+', '#');
}

/// The fields that the link of `s` makes known.
spec fn fields_of(s: LinkStateView) -> FieldsView {
    FieldsView {
        code: Some(s.code),
        input: Some(s.input),
        args: if s.args.len() > 0 {
            Some(s.args)
        } else {
            None
        },
        debug: if s.debug {
            Some(true)
        } else {
            None
        },
    }
}

/// Reading the fields of the link of `s` one by one gives what `s` holds.
proof fn lemma_scan_fields(s: LinkStateView)
    requires
        base64_inverts(s),
    ensures
        scan(field_list(s)) == Ok::<_, Rejection>(fields_of(s)),
{
    reveal_strlit("code");
    reveal_strlit("input");
    reveal_strlit("args");
    reveal_strlit("debug");
    reveal_strlit("on");
    lemma_words_lack('=');
    let code = keyed("code"@, field(s.code));
    let input = keyed("input"@, field(s.input));
    let one = seq![code];
    let two = seq![code, input];
    let three = two + args_field(s.args);
    let four = three + debug_field(s.debug);
    assert(four =~= field_list(s));

    lemma_field_text(s.code);
    lemma_url_safe_lacks(field(s.code), '=');
    lemma_split_once_at("code"@, '=', field(s.code));
    assert(one.drop_last() =~= Seq::<Seq<char>>::empty());
    assert(scan(one.drop_last()) == Ok::<_, Rejection>(no_fields()));
    let got1 = FieldsView { code: Some(s.code), ..no_fields() };
    assert(take_field(code, no_fields()) == Ok::<_, Rejection>(got1));
    assert(scan(one) == Ok::<_, Rejection>(got1));

    lemma_field_text(s.input);
    lemma_url_safe_lacks(field(s.input), '=');
    lemma_split_once_at("input"@, '=', field(s.input));
    assert(two.drop_last() =~= one);
    let got2 = FieldsView { input: Some(s.input), ..got1 };
    assert("input"@ != "code"@) by {
        assert("input"@.len() != "code"@.len());
    }
    assert(take_field(input, got1) == Ok::<_, Rejection>(got2));
    assert(scan(two) == Ok::<_, Rejection>(got2));

    let got3 = FieldsView { args: fields_of(s).args, ..got2 };
    if s.args.len() > 0 {
        let value = join(arg_fields(s.args), '+');
        let args = keyed("args"@, value);
        lemma_args_value(s.args);
        lemma_split_once_at("args"@, '=', value);
        assert(three =~= two.push(args));
        assert(three.drop_last() =~= two);
        assert("args"@ != "code"@) by {
            assert("args"@[0] != "code"@[0]);
        }
        assert("args"@ != "input"@) by {
            assert("args"@.len() != "input"@.len());
        }
        assert(take_field(args, got2) == Ok::<_, Rejection>(got3));
    } else {
        assert(three =~= two);
    }
    assert(scan(three) == Ok::<_, Rejection>(got3));

    if s.debug {
        let debug = keyed("debug"@, "on"@);
        lemma_split_once_at("debug"@, '=', "on"@);
        assert(four =~= three.push(debug));
        assert(four.drop_last() =~= three);
        assert("debug"@ != "code"@) by {
            assert("debug"@.len() != "code"@.len());
        }
        assert("debug"@ != "input"@) by {
            assert("debug"@[0] != "input"@[0]);
        }
        assert("debug"@ != "args"@) by {
            assert("debug"@.len() != "args"@.len());
        }
        assert(take_field(debug, got3) == Ok::<_, Rejection>(fields_of(s)));
    } else {
        assert(four =~= three);
    }
}

/// No field of the link of `s` holds `&` or `#`.
proof fn lemma_fields_lack(s: LinkStateView, c: char)
    requires
        base64_inverts(s),
        c == '&' || c == '#',
    ensures
        field_list(s).len() > 0,
        forall|i: int| 0 <= i < field_list(s).len() ==> !(#[trigger] field_list(s)[i]).contains(c),
{
    lemma_words_lack(c);
    lemma_url_safe_lacks(field(s.code), c);
    lemma_url_safe_lacks(field(s.input), c);
    lemma_keyed_lacks("code"@, field(s.code), c);
    lemma_keyed_lacks("input"@, field(s.input), c);
    if s.args.len() > 0 {
        lemma_args_value(s.args);
        lemma_keyed_lacks("args"@, join(arg_fields(s.args), '+'), c);
    }
    lemma_keyed_lacks("debug"@, "on"@, c);
}

/// The site and the language that the host and the path of the link of `s` name.
proof fn lemma_locate(s: LinkStateView)
    ensures
        locate(Some(link_host(s)), link_path(s)) == Ok::<_, Rejection>(
            (
                s.domain,
                match s.domain {
                    LinkDomain::Tio => None,
                    LinkDomain::TioNexus => Some(s.language),
                    LinkDomain::TryItOnline => if s.language.len() == 0 {
                        None
                    } else {
                        Some(s.language)
                    },
                },
            ),
        ),
{
    reveal_strlit("tio.run");
    reveal_strlit("tryitonline.net");
    reveal_strlit(".tryitonline.net");
    reveal_strlit("/nexus/");
    reveal_strlit("/");
    let host = link_host(s);
    let path = link_path(s);
    match s.domain {
        LinkDomain::Tio => {},
        LinkDomain::TioNexus => {
            assert(path.take("/nexus/"@.len() as int) =~= "/nexus/"@);
            assert(path.skip("/nexus/"@.len() as int) =~= s.language);
        },
        LinkDomain::TryItOnline => {
            if s.language.len() > 0 {
                let n = ".tryitonline.net"@.len();
                assert(host.len() == s.language.len() + n);
                assert(host.skip(host.len() - n) =~= ".tryitonline.net"@);
                assert(host.take(host.len() - n) =~= s.language);
            }
        },
    }
}

/// Decoding the parts of the link of a state gives the state back, for every
/// state in the first format whose language the fragment can name, given
/// that base64 decoding undoes base64 encoding on what the state holds.
pub proof fn lemma_link_reads_back(s: LinkStateView)
    requires
        can_link(s),
        base64_inverts(s),
    ensures
        reads_back(s),
{
    let fields = join(field_list(s), '&');
    lemma_locate(s);
    lemma_fields_lack(s, '&');
    lemma_fields_lack(s, '#');
    lemma_split_join(field_list(s), '&');
    lemma_join_lacks(field_list(s), '&', '#');
    lemma_scan_fields(s);
    let got = fields_of(s);
    assert((match got.args {
        Some(a) => a,
        None => Seq::empty(),
    }) =~= s.args);
    match s.domain {
        LinkDomain::Tio => {
            lemma_split_once_at(s.language, '#', fields);
            assert(state_of(s.domain, Some(s.language), fields) == Ok::<_, Rejection>(s));
        },
        _ => {
            lemma_find_none(fields, '#');
            let named = if s.domain == LinkDomain::TioNexus || s.language.len() > 0 {
                Some(s.language)
            } else {
                None
            };
            assert(or_empty(named) =~= s.language);
            assert(state_of(s.domain, named, fields) == Ok::<_, Rejection>(s));
        },
    }
}

/// Every state that decoding returns is one that `can_link`: encoding it
/// gives a link whose parts decode to the same state.
pub proof fn lemma_decoded_can_link(
    domain: Option<Seq<char>>,
    path: Seq<char>,
    fragment: Option<Seq<char>>,
)
    ensures
        decode_parts(domain, path, fragment) matches Ok(s) ==> can_link(s),
{
    let text = or_empty(fragment);
    crate::text::lemma_find_is_first(text, '#');
    match split_once(text, '#') {
        Some((language, fields)) => {
            let i = crate::text::find(text, '#')->Some_0;
            if language.contains('#') {
                let j = choose|j: int| 0 <= j < language.len() && language[j] == '#';
                assert(text[j] == '#');
            }
        },
        None => {
            assert(!Seq::<char>::empty().contains('#'));
        },
    }
}

/// The base64 text of one value of a link.
pub fn encode_field(text: &str) -> (r: Vec<char>)
    ensures
        r@ == field(text@),
        inverts(text@),
{
    let b = encode_url_safe(text.as_bytes());
    to_chars(b.as_str())
}

/// A key, `=` and a value.
fn write_keyed(key: &str, value: &Vec<char>) -> (r: Vec<char>)
    ensures
        r@ == keyed(key@, value@),
{
    let mut out = to_chars(key);
    out.push('=');
    append(&mut out, value);
    out
}

/// The base64 texts of the arguments.
fn encode_args(args: &Vec<String>) -> (r: Vec<Vec<char>>)
    ensures
        views(r@) == arg_fields(texts(args@)),
        forall|i: int| 0 <= i < args.len() ==> inverts(#[trigger] texts(args@)[i]),
{
    let mut out: Vec<Vec<char>> = Vec::new();
    let mut i: usize = 0;
    while i < args.len()
        invariant
            i <= args.len(),
            views(out@) =~= arg_fields(texts(args@)).take(i as int),
            forall|j: int| 0 <= j < i ==> inverts(#[trigger] texts(args@)[j]),
        decreases args.len() - i,
    {
        let piece = encode_field(args[i].as_str());
        assert(texts(args@)[i as int] == args@[i as int]@);
        assert(views(out@.push(piece)) =~= views(out@).push(piece@));
        assert(arg_fields(texts(args@)).take(i + 1) =~= arg_fields(texts(args@)).take(
            i as int,
        ).push(piece@));
        out.push(piece);
        i += 1;
    }
    assert(arg_fields(texts(args@)).take(args@.len() as int) =~= arg_fields(texts(args@)));
    out
}

impl Default for LinkState {
    fn default() -> (r: Self)
        ensures
            r@ == LinkState::initial(),
    {
        let r = LinkState {
            schema: LinkSchema::V2,
            domain: LinkDomain::Tio,
            language: String::new(),
            code: String::new(),
            input: String::new(),
            args: Vec::new(),
            debug: false,
        };
        assert(texts(r.args@) =~= Seq::<Seq<char>>::empty());
        r
    }
}

impl LinkState {
    /// The state of an empty link: the second format, the main site, no
    /// language, no program.
    pub open spec fn initial() -> LinkStateView {
        LinkStateView {
            schema: LinkSchema::V2,
            domain: LinkDomain::Tio,
            language: Seq::empty(),
            code: Seq::empty(),
            input: Seq::empty(),
            args: Seq::empty(),
            debug: false,
        }
    }

    /// An empty state.
    pub fn new() -> (r: Self)
        ensures
            r@ == LinkState::initial(),
    {
        LinkState::default()
    }

    /// Encodes the state as a link in the first format. Where the state
    /// `can_link`, the parts of the link decode to the state again.
    pub fn encode_v1(&self) -> (r: String)
        requires
            self.schema == LinkSchema::V1,
        ensures
            r@ == link_text(self@),
            can_link(self@) ==> reads_back(self@),
            can_link(self@) ==> (url_parts(r@) matches Some(p) && p.domain == Some(
                link_host(self@),
            ) && p.path == link_path(self@) && p.fragment == Some(link_fragment(self@))
                ==> decode_spec(r@) == Ok::<_, Rejection>(self@)),
    {
        let code = encode_field(self.code.as_str());
        let input = encode_field(self.input.as_str());
        let mut list: Vec<Vec<char>> = Vec::new();
        list.push(write_keyed("code", &code));
        list.push(write_keyed("input", &input));
        assert(views(list@) =~= seq![
            keyed("code"@, field(self@.code)),
            keyed("input"@, field(self@.input)),
        ]);
        if self.args.len() > 0 {
            let pieces = encode_args(&self.args);
            let value = join_all(&pieces, '+');
            list.push(write_keyed("args", &value));
        }
        assert(views(list@) =~= seq![
            keyed("code"@, field(self@.code)),
            keyed("input"@, field(self@.input)),
        ] + args_field(self@.args));
        if self.debug {
            let on = to_chars("on");
            list.push(write_keyed("debug", &on));
        }
        assert(views(list@) =~= field_list(self@));
        let fields = join_all(&list, '&');

        let mut out: Vec<char> = match self.domain {
            LinkDomain::TryItOnline => to_chars("http"),
            _ => to_chars("https"),
        };
        append(&mut out, &to_chars("://"));
        let language = to_chars(self.language.as_str());
        match self.domain {
            LinkDomain::TryItOnline => {
                if language.len() == 0 {
                    append(&mut out, &to_chars("tryitonline.net"));
                } else {
                    append(&mut out, &language);
                    append(&mut out, &to_chars(".tryitonline.net"));
                }
                append(&mut out, &to_chars("/"));
                out.push('#');
            },
            LinkDomain::TioNexus => {
                append(&mut out, &to_chars("tio.run"));
                append(&mut out, &to_chars("/nexus/"));
                append(&mut out, &language);
                out.push('#');
            },
            LinkDomain::Tio => {
                append(&mut out, &to_chars("tio.run"));
                append(&mut out, &to_chars("/"));
                out.push('#');
                append(&mut out, &language);
                out.push('#');
            },
        }
        append(&mut out, &fields);
        assert(out@ =~= link_text(self@));
        proof {
            if can_link(self@) {
                lemma_link_reads_back(self@);
            }
        }
        to_string(&out)
    }

    /// Decodes a link in the first format from the parts of its URL. The
    /// state it returns is one that `can_link`.
    pub fn from_parts(parts: &UrlParts) -> (r: Result<LinkState, DecodeError>)
        ensures
            outcome(r) == decode_parts(parts@.domain, parts@.path, parts@.fragment),
            r matches Ok(s) ==> can_link(s@),
    {
        proof {
            lemma_decoded_can_link(parts@.domain, parts@.path, parts@.fragment);
        }
        let host = match &parts.domain {
            None => {
                return Err(DecodeError::UnknownDomain(String::new()));
            },
            Some(d) => to_chars(d.as_str()),
        };
        let mut named: Option<String> = None;
        let site = if spells(&host, "tio.run") {
            let path = to_chars(parts.path.as_str());
            if has_prefix(&path, "/nexus/") {
                let skip = to_chars("/nexus/").len();
                let language = slice(&path, skip, path.len());
                named = Some(to_string(&language));
                LinkDomain::TioNexus
            } else {
                LinkDomain::Tio
            }
        } else if spells(&host, "tryitonline.net") {
            LinkDomain::TryItOnline
        } else if has_suffix(&host, ".tryitonline.net") {
            let drop = to_chars(".tryitonline.net").len();
            let language = slice(&host, 0, host.len() - drop);
            named = Some(to_string(&language));
            LinkDomain::TryItOnline
        } else {
            return Err(DecodeError::UnknownDomain(to_string(&host)));
        };
        let fragment = match &parts.fragment {
            Some(f) => to_chars(f.as_str()),
            None => Vec::new(),
        };
        match cut_once(&fragment, '#') {
            Some((language, fields)) => {
                if named.is_some() {
                    return Err(DecodeError::MultipleLanguages);
                }
                read_state(site, Some(to_string(&language)), &fields)
            },
            None => read_state(site, named, &fragment),
        }
    }

    /// Decodes a link in the first format. The state it returns is one
    /// that `can_link`.
    pub fn decode_v1(url: &str) -> (r: Result<LinkState, DecodeError>)
        ensures
            outcome(r) == decode_spec(url@),
            r matches Ok(s) ==> can_link(s@),
    {
        match split_url(url) {
            Err(e) => Err(DecodeError::Url(e)),
            Ok(parts) => LinkState::from_parts(&parts),
        }
    }
}

} // verus!
