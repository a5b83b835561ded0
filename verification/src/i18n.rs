//! Localisation: the supported languages and a dictionary lookup with a
//! fallback to English and a visible marker for a missing key.
//!
//! The dictionaries are embedded JSON in the shipped program; parsing them
//! is the front end's business, which hands the finished key/value tables
//! in.

use vstd::prelude::*;

verus! {

use vstd::string::StringExecFns;

/// The supported display languages.
#[derive(Clone, Copy, PartialEq, Eq, Structural, Debug)]
pub enum Language {
    /// English.
    En,
    /// Simplified Chinese.
    Zh,
}

impl Language {
    /// The language's IETF tag, as the dictionaries are keyed.
    pub fn as_str(&self) -> (r: &str)
        ensures
            r@ == (match *self {
                Language::En => "en-US"@,
                Language::Zh => "zh-CN"@,
            }),
    {
        match self {
            Language::En => "en-US",
            Language::Zh => "zh-CN",
        }
    }

    /// The next language in the toggle cycle.
    pub fn next(&self) -> (r: Language)
        ensures
            r == (match *self {
                Language::En => Language::Zh,
                Language::Zh => Language::En,
            }),
    {
        match self {
            Language::En => Language::Zh,
            Language::Zh => Language::En,
        }
    }
}

/// One translation: a key and its text.
pub struct DictEntry {
    /// Lookup key.
    pub key: String,
    /// Translated text.
    pub value: String,
}

/// First index in `entries` whose key is `key`; the length when none.
pub open spec fn find_key(entries: Seq<DictEntry>, key: Seq<char>, from: int) -> int
    recommends
        0 <= from <= entries.len(),
    decreases entries.len() - from when 0 <= from <= entries.len()
{
    if from >= entries.len() {
        entries.len() as int
    } else if entries[from].key@ == key {
        from
    } else {
        find_key(entries, key, from + 1)
    }
}

/// `find_key` returns the first entry with the key, when there is one.
pub proof fn lemma_find_key(entries: Seq<DictEntry>, key: Seq<char>, from: int)
    requires
        0 <= from <= entries.len(),
    ensures
        from <= find_key(entries, key, from) <= entries.len(),
        find_key(entries, key, from) < entries.len() ==> entries[find_key(
            entries,
            key,
            from,
        )].key@ == key,
        forall|j: int| from <= j < find_key(entries, key, from) ==> entries[j].key@ != key,
    decreases entries.len() - from,
{
    if from < entries.len() && entries[from].key@ != key {
        lemma_find_key(entries, key, from + 1);
    }
}

/// The text of the first entry keyed `key`, if any.
pub open spec fn spec_lookup(entries: Seq<DictEntry>, key: Seq<char>) -> Option<Seq<char>> {
    let i = find_key(entries, key, 0);
    if i < entries.len() {
        Some(entries[i].value@)
    } else {
        None
    }
}

/// What a translation request returns: the current language's text, else the
/// English text, else the key behind a visible marker.
pub open spec fn spec_translate(i18n: I18n, key: Seq<char>) -> Seq<char> {
    let dict = if i18n.current_lang is Zh {
        i18n.zh@
    } else {
        i18n.en@
    };
    match spec_lookup(dict, key) {
        Some(v) => v,
        None => if i18n.current_lang is Zh {
            match spec_lookup(i18n.en@, key) {
                Some(v) => v,
                None => "MISSING:"@ + key,
            }
        } else {
            "MISSING:"@ + key
        },
    }
}

/// The translation tables and the language in effect.
pub struct I18n {
    /// Language in effect.
    pub current_lang: Language,
    /// English dictionary.
    pub en: Vec<DictEntry>,
    /// Simplified Chinese dictionary.
    pub zh: Vec<DictEntry>,
}

impl I18n {
    /// Translation tables with the given starting language.
    pub fn new(lang: Language, en: Vec<DictEntry>, zh: Vec<DictEntry>) -> (r: I18n)
        ensures
            r.current_lang == lang,
            r.en@ == en@,
            r.zh@ == zh@,
    {
        I18n { current_lang: lang, en, zh }
    }

    /// Switches the language in effect.
    pub fn set_lang(&mut self, lang: Language)
        ensures
            final(self).current_lang == lang,
            final(self).en == old(self).en,
            final(self).zh == old(self).zh,
    {
        self.current_lang = lang;
    }

    /// The language in effect.
    pub fn get_lang(&self) -> (r: Language)
        ensures
            r == self.current_lang,
    {
        self.current_lang
    }

    /// Translates `key`: the current language's text, falling back to
    /// English, and marking a key missing from both.
    pub fn t(&self, key: &str) -> (r: String)
        ensures
            r@ == spec_translate(*self, key@),
    {
        let key_string = key.to_owned();
        let primary = if matches!(self.current_lang, Language::Zh) {
            lookup(&self.zh, &key_string)
        } else {
            lookup(&self.en, &key_string)
        };
        match primary {
            Some(v) => v,
            None => {
                if matches!(self.current_lang, Language::Zh) {
                    match lookup(&self.en, &key_string) {
                        Some(v) => v,
                        None => missing_marker(key),
                    }
                } else {
                    missing_marker(key)
                }
            },
        }
    }
}

/// The text of the first entry keyed `key`, if any.
fn lookup(entries: &Vec<DictEntry>, key: &String) -> (r: Option<String>)
    ensures
        match r {
            Some(v) => spec_lookup(entries@, key@) == Some(v@),
            None => spec_lookup(entries@, key@) is None,
        },
{
    proof {
        lemma_find_key(entries@, key@, 0);
    }
    let ghost target = find_key(entries@, key@, 0);
    let mut i: usize = 0;
    while i < entries.len()
        invariant
            0 <= i <= entries@.len(),
            target == find_key(entries@, key@, 0),
            0 <= target <= entries@.len(),
            target < entries@.len() ==> entries@[target].key@ == key@,
            forall|j: int| 0 <= j < target ==> entries@[j].key@ != key@,
            i <= target,
        decreases entries@.len() - i,
    {
        if entries[i].key == *key {
            proof {
                if i < target {
                    assert(entries@[i as int].key@ != key@);
                }
            }
            return Some(entries[i].value.clone());
        }
        proof {
            if i == target {
                assert(entries@[target].key@ == key@);
            }
        }
        i = i + 1;
    }
    None
}

/// The visible stand-in for a key missing from every dictionary.
fn missing_marker(key: &str) -> (r: String)
    ensures
        r@ == "MISSING:"@ + key@,
{
    let mut r = String::new();
    r.append("MISSING:");
    r.append(key);
    proof {
        assert(r@ =~= "MISSING:"@ + key@);
    }
    r
}

} // verus!
