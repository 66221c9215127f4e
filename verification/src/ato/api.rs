//! The languages that the sandbox knows.
use crate::text::option_text;
use vstd::hash_map::StringHashMap;
use vstd::prelude::*;

verus! {

/// What the sandbox says of one language.
#[derive(Clone, Debug, PartialEq, Eq)]
pub struct Language {
    /// The name shown to people.
    pub name: String,
    /// The container image that runs it.
    pub image: String,
    /// The version tag.
    pub version: String,
    /// Where its documentation is.
    pub url: String,
    /// Whether it has a single-byte character set.
    pub sbcs: bool,
    /// Its class for syntax highlighting, if it has one.
    pub se_class: Option<String>,
}

/// A `Language` as plain sequences.
pub struct LanguageView {
    pub name: Seq<char>,
    pub image: Seq<char>,
    pub version: Seq<char>,
    pub url: Seq<char>,
    pub sbcs: bool,
    pub se_class: Option<Seq<char>>,
}

impl View for Language {
    type V = LanguageView;

    open spec fn view(&self) -> LanguageView {
        LanguageView {
            name: self.name@,
            image: self.image@,
            version: self.version@,
            url: self.url@,
            sbcs: self.sbcs,
            se_class: option_text(self.se_class),
        }
    }
}

/// The languages of the sandbox, by identifier.
pub struct Registry {
    languages: StringHashMap<Language>,
}

impl View for Registry {
    type V = Map<Seq<char>, Language>;

    closed spec fn view(&self) -> Map<Seq<char>, Language> {
        self.languages@
    }
}

impl Registry {
    /// The language registered for `id`, if there is one.
    pub open spec fn lookup(&self, id: Seq<char>) -> Option<Language> {
        if self@.contains_key(id) {
            Some(self@[id])
        } else {
            None
        }
    }

    /// A registry without languages.
    pub fn new() -> (r: Self)
        ensures
            r@ == Map::<Seq<char>, Language>::empty(),
    {
        Registry { languages: StringHashMap::new() }
    }

    /// Registers `language` for `id`, in place of what was registered for it.
    pub fn insert(&mut self, id: String, language: Language)
        ensures
            final(self)@ == old(self)@.insert(id@, language),
    {
        self.languages.insert(id, language);
    }
}

/// The language registered for `name`.
pub fn get_language<'a>(registry: &'a Registry, name: &str) -> (r: Option<&'a Language>)
    ensures
        match r {
            Some(language) => registry.lookup(name@) == Some(*language),
            None => registry.lookup(name@) is None,
        },
{
    registry.languages.get(name)
}

} // verus!
