//! Translated texts: per locale, the texts of each section by key.
use vstd::prelude::*;
use crate::parsers::string_views;
use crate::text::str_eq;

verus! {

/// One translated text.
pub struct TranslationText {
    pub locale: String,
    pub section: String,
    pub key: String,
    pub text: String,
}

/// The texts of the loaded locales.
pub struct Translations {
    /// The locales loaded (the names of their files).
    pub locales: Vec<String>,
    pub texts: Vec<TranslationText>,
}

pub open spec fn text_matches(t: TranslationText, locale: Seq<char>, section: Seq<char>, key: Seq<char>) -> bool {
    t.locale@ == locale && t.section@ == section && t.key@ == key
}

/// The text stored for `section.key` in a locale: the first one given.
pub open spec fn lookup_from(texts: Seq<TranslationText>, locale: Seq<char>, section: Seq<char>, key: Seq<char>) -> Option<
    Seq<char>,
>
    decreases texts.len(),
{
    if texts.len() == 0 {
        None
    } else if text_matches(texts[0], locale, section, key) {
        Some(texts[0].text@)
    } else {
        lookup_from(texts.drop_first(), locale, section, key)
    }
}

/// The locale whose texts are used: the one asked for when it is loaded,
/// else English.
pub open spec fn effective_locale(locales: Seq<Seq<char>>, lang: Seq<char>) -> Seq<char> {
    if locales.contains(lang) {
        lang
    } else {
        "en"@
    }
}

fn has_locale(locales: &Vec<String>, lang: &str) -> (r: bool)
    ensures
        r == string_views(locales@).contains(lang@),
{
    let mut i: usize = 0;
    while i < locales.len()
        invariant
            i <= locales.len(),
            forall|j: int| 0 <= j < i ==> string_views(locales@)[j] != lang@,
        decreases locales.len() - i,
    {
        if str_eq(locales[i].as_str(), lang) {
            proof {
                assert(string_views(locales@)[i as int] == lang@);
            }
            return true;
        }
        i += 1;
    }
    false
}

impl Translations {
    /// The text of `section.key` in the given language (English when that
    /// language is not loaded), or `fallback`.
    pub open spec fn tr_spec(
        &self,
        lang: Seq<char>,
        section: Seq<char>,
        key: Seq<char>,
        fallback: Seq<char>,
    ) -> Seq<char> {
        match lookup_from(
            self.texts@,
            effective_locale(string_views(self.locales@), lang),
            section,
            key,
        ) {
            Some(t) => t,
            None => fallback,
        }
    }

    /// The text of `section.key` in a locale, if it has one.
    pub fn lookup(&self, locale: &str, section: &str, key: &str) -> (r: Option<String>)
        ensures
            match r {
                Some(s) => lookup_from(self.texts@, locale@, section@, key@) == Some(s@),
                None => lookup_from(self.texts@, locale@, section@, key@) is None,
            },
    {
        let mut i: usize = 0;
        proof {
            assert(self.texts@.skip(0) =~= self.texts@);
        }
        while i < self.texts.len()
            invariant
                i <= self.texts.len(),
                lookup_from(self.texts@, locale@, section@, key@) == lookup_from(
                    self.texts@.skip(i as int),
                    locale@,
                    section@,
                    key@,
                ),
            decreases self.texts.len() - i,
        {
            let t = &self.texts[i];
            proof {
                assert(self.texts@.skip(i as int)[0] == self.texts@[i as int]);
                assert(self.texts@.skip(i as int).drop_first() =~= self.texts@.skip(i + 1));
            }
            if str_eq(t.locale.as_str(), locale) && str_eq(t.section.as_str(), section) && str_eq(
                t.key.as_str(),
                key,
            ) {
                return Some(t.text.clone());
            }
            i += 1;
        }
        proof {
            assert(self.texts@.skip(i as int).len() == 0);
        }
        None
    }

    /// The text of `section.key` in the feed's language (English when that
    /// language is not loaded), or `fallback`.
    pub fn tr(&self, lang: &str, section: &str, key: &str, fallback: &str) -> (r: String)
        requires
            string_views(self.locales@).contains(lang@) || string_views(self.locales@).contains("en"@),
        ensures
            r@ == match lookup_from(
                self.texts@,
                effective_locale(string_views(self.locales@), lang@),
                section@,
                key@,
            ) {
                Some(t) => t,
                None => fallback@,
            },
    {
        let locale = if has_locale(&self.locales, lang) {
            lang
        } else {
            "en"
        };
        match self.lookup(locale, section, key) {
            Some(t) => t,
            None => fallback.to_owned(),
        }
    }

    /// A locale's own name for itself (`lang.{locale}` in its texts).
    pub fn own_label(&self, locale: &str) -> (r: Option<String>)
        ensures
            match r {
                Some(s) => lookup_from(self.texts@, locale@, "lang"@, locale@) == Some(s@),
                None => lookup_from(self.texts@, locale@, "lang"@, locale@) is None,
            },
    {
        self.lookup(locale, "lang", locale)
    }
}

} // verus!
