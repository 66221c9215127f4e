//! Attempt This Online link states with their meaning resolved: the
//! language looked up, the argument lists parsed, the encodings named.
use crate::ato::api::{get_language, Language, Registry};
use crate::ato::link::{LinkState, LinkStateView};
use crate::json::{items_view, json_array, read_array, JsonItem, JsonItemView};
use crate::text::{spells, texts, to_chars};
use vstd::prelude::*;

verus! {

/// How the bytes of a section are written in a link.
#[derive(Clone, Copy, Debug, PartialEq, Eq, Structural)]
pub enum Encoding {
    /// As UTF-8 text.
    Utf8,
    /// In the single-byte character set of the language.
    Sbcs,
    /// As base64 text.
    Base64,
}

impl Default for Encoding {
    fn default() -> (r: Self)
        ensures
            r == Encoding::Utf8,
    {
        Encoding::Utf8
    }
}

/// What a link holds, with its meaning resolved.
#[derive(Clone, Debug, PartialEq, Eq)]
pub struct State<'a> {
    pub language: Option<&'a Language>,
    pub options: Vec<String>,
    pub header: String,
    pub header_encoding: Encoding,
    pub code: String,
    pub code_encoding: Encoding,
    pub footer: String,
    pub footer_encoding: Encoding,
    pub program_arguments: Vec<String>,
    pub input: String,
    pub input_encoding: Encoding,
}

/// A `State` as plain sequences.
pub struct StateView {
    pub language: Option<Language>,
    pub options: Seq<Seq<char>>,
    pub header: Seq<char>,
    pub header_encoding: Encoding,
    pub code: Seq<char>,
    pub code_encoding: Encoding,
    pub footer: Seq<char>,
    pub footer_encoding: Encoding,
    pub program_arguments: Seq<Seq<char>>,
    pub input: Seq<char>,
    pub input_encoding: Encoding,
}

impl<'a> View for State<'a> {
    type V = StateView;

    open spec fn view(&self) -> StateView {
        StateView {
            language: match self.language {
                Some(l) => Some(*l),
                None => None,
            },
            options: texts(self.options@),
            header: self.header@,
            header_encoding: self.header_encoding,
            code: self.code@,
            code_encoding: self.code_encoding,
            footer: self.footer@,
            footer_encoding: self.footer_encoding,
            program_arguments: texts(self.program_arguments@),
            input: self.input@,
            input_encoding: self.input_encoding,
        }
    }
}

/// Why a link state has no meaning.
#[derive(Debug)]
pub enum ParseError {
    /// The registry does not know the language.
    InvalidLanguage(String),
    /// The tag names no encoding.
    InvalidEncoding(String),
    /// An argument list is no JSON array.
    InvalidJson(serde_json::Error),
    /// An argument is an array or an object; this is its JSON text.
    ObjectArg(String),
}

/// A `ParseError` without what the outside library reported.
pub enum Mismatch {
    InvalidLanguage(Seq<char>),
    InvalidEncoding(Seq<char>),
    InvalidJson,
    ObjectArg(Seq<char>),
}

impl View for ParseError {
    type V = Mismatch;

    open spec fn view(&self) -> Mismatch {
        match *self {
            ParseError::InvalidLanguage(l) => Mismatch::InvalidLanguage(l@),
            ParseError::InvalidEncoding(t) => Mismatch::InvalidEncoding(t@),
            ParseError::InvalidJson(_) => Mismatch::InvalidJson,
            ParseError::ObjectArg(t) => Mismatch::ObjectArg(t@),
        }
    }
}

/// The encoding that a tag names: `utf-8` or nothing, `sbcs`, `base64`.
pub open spec fn encoding_of(tag: Seq<char>) -> Result<Encoding, Mismatch> {
    if tag == "utf-8"@ || tag.len() == 0 {
        Ok(Encoding::Utf8)
    } else if tag == "sbcs"@ {
        Ok(Encoding::Sbcs)
    } else if tag == "base64"@ {
        Ok(Encoding::Base64)
    } else {
        Err(Mismatch::InvalidEncoding(tag))
    }
}

/// The argument that an element of a JSON array stands for: a string is
/// its own text, a number its digits, and `true`, `false` and `null` their
/// words. An array or an object stands for none.
pub open spec fn item_text(item: JsonItemView) -> Result<Seq<char>, Mismatch> {
    match item {
        JsonItemView::Null => Ok("null"@),
        JsonItemView::Bool(b) => Ok(
            if b {
                "true"@
            } else {
                "false"@
            },
        ),
        JsonItemView::Number(t) => Ok(t),
        JsonItemView::Text(t) => Ok(t),
        JsonItemView::Composite(t) => Err(Mismatch::ObjectArg(t)),
    }
}

/// The arguments that the elements of a JSON array stand for: all of
/// them, or the failure of the first element that fails.
pub open spec fn items_args(items: Seq<JsonItemView>) -> Result<Seq<Seq<char>>, Mismatch>
    decreases items.len(),
{
    if items.len() == 0 {
        Ok(Seq::empty())
    } else {
        match items_args(items.drop_last()) {
            Err(e) => Err(e),
            Ok(done) => match item_text(items.last()) {
                Err(e) => Err(e),
                Ok(t) => Ok(done.push(t)),
            },
        }
    }
}

/// The arguments that the text of an argument list stands for. An empty
/// text is an empty list.
pub open spec fn arg_list(text: Seq<char>) -> Result<Seq<Seq<char>>, Mismatch> {
    if text.len() == 0 {
        Ok(Seq::empty())
    } else {
        match json_array(text) {
            None => Err(Mismatch::InvalidJson),
            Some(items) => items_args(items),
        }
    }
}

/// The outcome of parsing an argument list, as plain sequences.
pub open spec fn args_outcome(r: Result<Vec<String>, ParseError>) -> Result<
    Seq<Seq<char>>,
    Mismatch,
> {
    match r {
        Ok(a) => Ok(texts(a@)),
        Err(e) => Err(e@),
    }
}

/// The outcome of resolving a state, as plain sequences.
pub open spec fn state_outcome(r: Result<State<'_>, ParseError>) -> Result<StateView, Mismatch> {
    match r {
        Ok(s) => Ok(s@),
        Err(e) => Err(e@),
    }
}

/// The language of a link state: none where it names none, and the
/// registered one otherwise.
pub open spec fn language_of(id: Seq<char>, registry: &Registry) -> Result<
    Option<Language>,
    Mismatch,
> {
    if id.len() == 0 {
        Ok(None)
    } else {
        match registry.lookup(id) {
            Some(l) => Ok(Some(l)),
            None => Err(Mismatch::InvalidLanguage(id)),
        }
    }
}

/// The meaning of a link state. The first of these that fails decides the
/// failure: the language, the options, the encodings of header, code and
/// footer, the program arguments, the encoding of the input.
pub open spec fn parse_spec(s: LinkStateView, registry: &Registry) -> Result<StateView, Mismatch> {
    match language_of(s.language, registry) {
        Err(e) => Err(e),
        Ok(language) => match arg_list(s.options) {
            Err(e) => Err(e),
            Ok(options) => match encoding_of(s.header_encoding) {
                Err(e) => Err(e),
                Ok(header_encoding) => match encoding_of(s.code_encoding) {
                    Err(e) => Err(e),
                    Ok(code_encoding) => match encoding_of(s.footer_encoding) {
                        Err(e) => Err(e),
                        Ok(footer_encoding) => match arg_list(s.program_arguments) {
                            Err(e) => Err(e),
                            Ok(program_arguments) => match encoding_of(s.input_encoding) {
                                Err(e) => Err(e),
                                Ok(input_encoding) => Ok(
                                    StateView {
                                        language,
                                        options,
                                        header: s.header,
                                        header_encoding,
                                        code: s.code,
                                        code_encoding,
                                        footer: s.footer,
                                        footer_encoding,
                                        program_arguments,
                                        input: s.input,
                                        input_encoding,
                                    },
                                ),
                            },
                        },
                    },
                },
            },
        },
    }
}

/// A failure among the first `n` elements is the failure of all of them.
proof fn lemma_items_args_fails(items: Seq<JsonItemView>, n: int)
    requires
        0 <= n <= items.len(),
        items_args(items.take(n)) is Err,
    ensures
        items_args(items) == items_args(items.take(n)),
    decreases items.len() - n,
{
    if n < items.len() {
        assert(items.take(n + 1).drop_last() =~= items.take(n));
        lemma_items_args_fails(items, n + 1);
    } else {
        assert(items.take(n) =~= items);
    }
}

/// The arguments that the elements of a JSON array stand for.
pub fn args_of_items(items: &Vec<JsonItem>) -> (r: Result<Vec<String>, ParseError>)
    ensures
        args_outcome(r) == items_args(items_view(items@)),
{
    let mut out: Vec<String> = Vec::new();
    let mut i: usize = 0;
    assert(items_view(items@).take(0) =~= Seq::<JsonItemView>::empty());
    assert(texts(out@) =~= Seq::<Seq<char>>::empty());
    while i < items.len()
        invariant
            i <= items.len(),
            items_args(items_view(items@).take(i as int)) == Ok::<_, Mismatch>(texts(out@)),
        decreases items.len() - i,
    {
        let ghost now = items_view(items@).take(i + 1);
        assert(now.drop_last() =~= items_view(items@).take(i as int));
        assert(now.last() == items@[i as int]@);
        let text = match &items[i] {
            JsonItem::Null => "null".to_owned(),
            JsonItem::Bool(b) => if *b {
                "true".to_owned()
            } else {
                "false".to_owned()
            },
            JsonItem::Number(t) => t.clone(),
            JsonItem::Text(t) => t.clone(),
            JsonItem::Composite(t) => {
                proof {
                    lemma_items_args_fails(items_view(items@), i + 1);
                }
                return Err(ParseError::ObjectArg(t.clone()));
            },
        };
        assert(texts(out@.push(text)) =~= texts(out@).push(text@));
        out.push(text);
        i += 1;
    }
    assert(items_view(items@).take(items@.len() as int) =~= items_view(items@));
    Ok(out)
}

/// Parses the text of an argument list: a JSON array of strings, numbers,
/// booleans and nulls, or nothing at all.
pub fn parse_arg_list(args: &str) -> (r: Result<Vec<String>, ParseError>)
    ensures
        args_outcome(r) == arg_list(args@),
{
    if args.is_empty() {
        let out: Vec<String> = Vec::new();
        assert(texts(out@) =~= Seq::<Seq<char>>::empty());
        Ok(out)
    } else {
        match read_array(args) {
            Ok(items) => args_of_items(&items),
            Err(e) => Err(ParseError::InvalidJson(e)),
        }
    }
}

impl TryFrom<String> for Encoding {
    type Error = ParseError;

    /// The encoding that a tag names: what `try_from_spec` says.
    fn try_from(enc: String) -> (r: Result<Encoding, ParseError>) {
        let tag = to_chars(enc.as_str());
        if spells(&tag, "utf-8") || tag.len() == 0 {
            Ok(Encoding::Utf8)
        } else if spells(&tag, "sbcs") {
            Ok(Encoding::Sbcs)
        } else if spells(&tag, "base64") {
            Ok(Encoding::Base64)
        } else {
            Err(ParseError::InvalidEncoding(enc))
        }
    }
}

impl vstd::std_specs::convert::TryFromSpecImpl<String> for Encoding {
    open spec fn obeys_try_from_spec() -> bool {
        true
    }

    /// The encoding that `encoding_of` gives for the tag, or the tag itself
    /// as an invalid one.
    open spec fn try_from_spec(enc: String) -> Result<Encoding, ParseError> {
        match encoding_of(enc@) {
            Ok(e) => Ok(e),
            Err(_) => Err(ParseError::InvalidEncoding(enc)),
        }
    }
}

impl<'a> Default for State<'a> {
    fn default() -> (r: Self)
        ensures
            r@ == State::initial(),
    {
        let r = State {
            language: None,
            options: Vec::new(),
            header: String::new(),
            header_encoding: Encoding::Utf8,
            code: String::new(),
            code_encoding: Encoding::Utf8,
            footer: String::new(),
            footer_encoding: Encoding::Utf8,
            program_arguments: Vec::new(),
            input: String::new(),
            input_encoding: Encoding::Utf8,
        };
        assert(texts(r.options@) =~= Seq::<Seq<char>>::empty());
        assert(texts(r.program_arguments@) =~= Seq::<Seq<char>>::empty());
        r
    }
}

impl<'a> State<'a> {
    /// The state without language, program and input, all in UTF-8.
    pub open spec fn initial() -> StateView {
        StateView {
            language: None,
            options: Seq::empty(),
            header: Seq::empty(),
            header_encoding: Encoding::Utf8,
            code: Seq::empty(),
            code_encoding: Encoding::Utf8,
            footer: Seq::empty(),
            footer_encoding: Encoding::Utf8,
            program_arguments: Seq::empty(),
            input: Seq::empty(),
            input_encoding: Encoding::Utf8,
        }
    }
}

impl LinkState {
    /// Resolves the meaning of the state: looks the language up in
    /// `registry`, parses the two argument lists and names the four
    /// encodings.
    pub fn parse<'a>(self, registry: &'a Registry) -> (r: Result<State<'a>, ParseError>)
        ensures
            state_outcome(r) == parse_spec(self@, registry),
    {
        let language = if !self.language.as_str().is_empty() {
            match get_language(registry, self.language.as_str()) {
                Some(l) => Some(l),
                None => {
                    return Err(ParseError::InvalidLanguage(self.language));
                },
            }
        } else {
            None
        };
        let options = match parse_arg_list(self.options.as_str()) {
            Ok(a) => a,
            Err(e) => {
                return Err(e);
            },
        };
        let header_encoding = match Encoding::try_from(self.header_encoding) {
            Ok(x) => x,
            Err(e) => {
                return Err(e);
            },
        };
        let code_encoding = match Encoding::try_from(self.code_encoding) {
            Ok(x) => x,
            Err(e) => {
                return Err(e);
            },
        };
        let footer_encoding = match Encoding::try_from(self.footer_encoding) {
            Ok(x) => x,
            Err(e) => {
                return Err(e);
            },
        };
        let program_arguments = match parse_arg_list(self.program_arguments.as_str()) {
            Ok(a) => a,
            Err(e) => {
                return Err(e);
            },
        };
        let input_encoding = match Encoding::try_from(self.input_encoding) {
            Ok(x) => x,
            Err(e) => {
                return Err(e);
            },
        };
        Ok(
            State {
                language,
                options,
                header: self.header,
                header_encoding,
                code: self.code,
                code_encoding,
                footer: self.footer,
                footer_encoding,
                program_arguments,
                input: self.input,
                input_encoding,
            },
        )
    }
}

} // verus!
