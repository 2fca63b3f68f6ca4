//! Choosing the language of messages, and putting them into words.
use vstd::prelude::*;
use crate::address::string_option_view;
use crate::css::table_view;
use crate::downloader::Message;
use crate::text::{chars_of, has_prefix, is_ascii_digit, starts_with};
use fluent::{FluentArgs, FluentBundle, FluentResource};
use unic_langid::LanguageIdentifier;

verus! {

/// std's `str::to_lowercase` (Unicode lower-case mapping).
pub uninterp spec fn lowercase(s: Seq<char>) -> Seq<char>;

/// Calls std's `str::to_lowercase`; claimed: the result is the fixed
/// function `lowercase` of the input.
#[verifier::external_body]
fn to_lowercase_text(s: &str) -> (r: String)
    ensures
        r@ == lowercase(s@),
{
    s.to_lowercase()
}

/// Whether every character of `s` is ASCII.
pub open spec fn is_ascii_text(s: Seq<char>) -> bool {
    forall|i: int| 0 <= i < s.len() ==> (#[trigger] s[i] as u32) < 128
}

/// `c` with an ASCII capital letter made small.
pub open spec fn ascii_lower_char(c: char) -> char {
    if 'A' <= c && c <= 'Z' {
        (((c as u8) + 32) as u8) as char
    } else {
        c
    }
}

/// The lower-case form of `s`: letter by letter for ASCII text (where
/// Unicode lower-casing maps `A`..`Z` to `a`..`z` and keeps the rest),
/// std's Unicode lower-casing otherwise.
pub open spec fn lower_text(s: Seq<char>) -> Seq<char> {
    if is_ascii_text(s) {
        s.map_values(|c: char| ascii_lower_char(c))
    } else {
        lowercase(s)
    }
}

/// Executable `lower_text`.
pub fn lower_text_exec(s: &str) -> (r: Vec<char>)
    ensures
        r@ == lower_text(s@),
{
    let cs = chars_of(s);
    let mut out: Vec<char> = Vec::new();
    let mut i: usize = 0;
    while i < cs.len()
        invariant
            i <= cs.len(),
            cs@ == s@,
            is_ascii_text(cs@.take(i as int)),
            out@ == cs@.take(i as int).map_values(|c: char| ascii_lower_char(c)),
        decreases cs.len() - i,
    {
        let c = cs[i];
        if (c as u32) >= 128 {
            proof {
                assert(!is_ascii_text(s@)) by {
                    assert(s@[i as int] == c);
                }
            }
            let lower = to_lowercase_text(s);
            return chars_of(lower.as_str());
        }
        let d = if 'A' <= c && c <= 'Z' {
            ((c as u8) + 32) as char
        } else {
            c
        };
        out.push(d);
        proof {
            assert(cs@.take(i + 1) =~= cs@.take(i as int).push(c));
        }
        i = i + 1;
    }
    proof {
        assert(cs@.take(cs.len() as int) =~= cs@);
    }
    out
}

/// The languages messages are available in.
#[derive(Debug, Clone, Copy, PartialEq, Eq)]
pub enum Language {
    /// Simplified Chinese (`zh-CN`).
    ZhCN,
    /// English (`en-US`).
    EnUS,
}

/// The language used: the configured one, else the system's, else `en`;
/// Chinese when its lower-cased name starts with `zh`, English otherwise.
pub open spec fn language_for(preference: Option<Seq<char>>, system: Option<Seq<char>>) -> Language {
    let lang = match preference {
        Some(l) => l,
        None => match system {
            Some(s) => s,
            None => "en"@,
        },
    };
    if has_prefix(lower_text(lang), "zh"@) {
        Language::ZhCN
    } else {
        Language::EnUS
    }
}

/// Chooses the language of messages from the configured preference and the
/// system's locale.
pub fn select_language(preference: Option<&str>, system_locale: Option<&str>) -> (r: Language)
    ensures
        r == language_for(
            match preference {
                Some(p) => Some(p@),
                None => None,
            },
            match system_locale {
                Some(s) => Some(s@),
                None => None,
            },
        ),
{
    let lang: &str = match preference {
        Some(l) => l,
        None => match system_locale {
            Some(s) => s,
            None => "en",
        },
    };
    let lower = lower_text_exec(lang);
    if starts_with(&lower, &chars_of("zh")) {
        Language::ZhCN
    } else {
        Language::EnUS
    }
}

/// The language tag of a language.
pub open spec fn language_tag_spec(l: Language) -> Seq<char> {
    match l {
        Language::ZhCN => "zh-CN"@,
        Language::EnUS => "en-US"@,
    }
}

impl Language {
    /// The language tag (`zh-CN` or `en-US`).
    pub fn tag(&self) -> (r: &'static str)
        ensures
            r@ == language_tag_spec(*self),
    {
        match self {
            Language::ZhCN => "zh-CN",
            Language::EnUS => "en-US",
        }
    }
}

/// What `fluent` formats message `key` of the catalogue `catalogue` (in
/// Fluent syntax) to, for the language tagged `tag` and the named
/// arguments `args`; `None` when the tag or the catalogue does not parse,
/// or the catalogue has no such message or it has no value.
pub uninterp spec fn fluent_message(
    tag: Seq<char>,
    catalogue: Seq<char>,
    key: Seq<char>,
    args: Seq<(Seq<char>, Seq<char>)>,
) -> Option<Seq<char>>;

/// A number literal with more than 19 digits after its point starts at
/// `i`: a `.` followed by at least 20 ASCII digits.
pub open spec fn long_fraction_at(s: Seq<char>, i: int) -> bool {
    &&& 0 <= i
    &&& i + 20 < s.len()
    &&& s[i] == '.'
    &&& forall|k: int| i < k <= i + 20 ==> is_ascii_digit(#[trigger] s[k])
}

/// Whether `fluent` can format every message of `catalogue`: no number
/// literal in it has more than 19 digits after its point.  (Choosing a
/// variant by the plural category of such a number scales its fraction by
/// `10^digits`, which overflows a `u64` in `fluent`'s conversion to plural
/// operands.)
pub open spec fn fluent_safe(catalogue: Seq<char>) -> bool {
    forall|i: int| !#[trigger] long_fraction_at(catalogue, i)
}

/// Executable `fluent_safe`.
pub fn is_fluent_safe(catalogue: &str) -> (r: bool)
    ensures
        r == fluent_safe(catalogue@),
{
    let s = chars_of(catalogue);
    let mut i: usize = 0;
    while i < s.len()
        invariant
            i <= s.len(),
            s@ == catalogue@,
            forall|j: int| 0 <= j < i ==> !#[trigger] long_fraction_at(s@, j),
        decreases s.len() - i,
    {
        if s[i] == '.' && s.len() - i > 20 {
            let mut k: usize = 1;
            while k <= 20 && '0' <= s[i + k] && s[i + k] <= '9'
                invariant
                    1 <= k <= 21,
                    i + 20 < s.len(),
                    forall|m: int| i < m < i + k ==> is_ascii_digit(#[trigger] s@[m]),
                decreases 21 - k,
            {
                k = k + 1;
            }
            if k > 20 {
                assert(long_fraction_at(s@, i as int));
                return false;
            }
            assert(!is_ascii_digit(s@[i + k]));
        }
        i = i + 1;
    }
    proof {
        assert forall|j: int| !#[trigger] long_fraction_at(s@, j) by {
            if j >= s.len() {
            }
        }
    }
    true
}

/// Parses the tag into a `unic_langid::LanguageIdentifier` and the
/// catalogue with `fluent::FluentResource::try_new`, adds it to a new
/// `fluent::FluentBundle` (`add_resource`), looks the message up
/// (`get_message`, `value`) and formats it with the arguments
/// (`format_pattern`). Claimed: the result is the fixed function
/// `fluent_message` of the four inputs.  Catalogues with a number literal
/// of more than 19 fraction digits are left out: selecting a variant by
/// such a number can overflow inside `fluent` (see `fluent_safe`).
#[verifier::external_body]
fn format_fluent(tag: &str, catalogue: &str, key: &str, args: &Vec<(String, String)>) -> (r: Option<String>)
    requires
        fluent_safe(catalogue@),
    ensures
        string_option_view(r) == fluent_message(tag@, catalogue@, key@, table_view(args@)),
{
    let lang: LanguageIdentifier = tag.parse().ok()?;
    let resource = FluentResource::try_new(catalogue.to_string()).ok()?;
    let mut bundle = FluentBundle::new(vec![lang]);
    bundle.add_resource(resource).ok()?;
    let pattern = bundle.get_message(key)?.value()?;
    let mut fluent_args = FluentArgs::new();
    for (name, value) in args {
        fluent_args.set(name.clone(), value.clone());
    }
    let mut errors = vec![];
    Some(bundle.format_pattern(pattern, Some(&fluent_args), &mut errors).to_string())
}

/// Message `m` in `language`, from the catalogue `catalogue` of that
/// language: as `fluent` formats it, or its key when the catalogue has no
/// such message.
pub fn translate(language: Language, catalogue: &str, m: &Message) -> (r: String)
    requires
        fluent_safe(catalogue@),
    ensures
        r@ == match fluent_message(language_tag_spec(language), catalogue@, m.key@, table_view(m.args@)) {
            Some(t) => t,
            None => m.key@,
        },
{
    match format_fluent(language.tag(), catalogue, m.key.as_str(), &m.args) {
        Some(t) => t,
        None => m.key.clone(),
    }
}

/// The catalogue of `language` among those of both languages.
pub open spec fn catalogue_of(language: Language, zh_cn: Seq<char>, en_us: Seq<char>) -> Seq<char> {
    match language {
        Language::ZhCN => zh_cn,
        Language::EnUS => en_us,
    }
}

/// What message `m` reads in `language`, from `catalogue`: as `fluent`
/// formats it, or its key when the catalogue has no such message.
pub open spec fn message_text(language: Language, catalogue: Seq<char>, m: Message) -> Seq<char> {
    match fluent_message(language_tag_spec(language), catalogue, m.key@, table_view(m.args@)) {
        Some(t) => t,
        None => m.key@,
    }
}

/// The messages of one language: the language chosen from the configured
/// preference and the system's locale, and that language's catalogue.
pub struct I18n {
    language: Language,
    catalogue: String,
}

impl I18n {
    /// Every message of the catalogue can be formatted.
    #[verifier::type_invariant]
    spec fn formattable(self) -> bool {
        fluent_safe(self.catalogue@)
    }

    /// The language chosen.
    pub closed spec fn chosen_language(&self) -> Language {
        self.language
    }

    /// The catalogue in use.
    pub closed spec fn catalogue_text(&self) -> Seq<char> {
        self.catalogue@
    }

    /// Chooses the language (see `language_for`) and takes its catalogue
    /// from `zh_cn` and `en_us`, the catalogues of the two languages.
    pub fn new(preference: Option<&str>, system_locale: Option<&str>, zh_cn: &str, en_us: &str) -> (r: Self)
        requires
            fluent_safe(
                catalogue_of(
                    language_for(
                        match preference {
                            Some(p) => Some(p@),
                            None => None,
                        },
                        match system_locale {
                            Some(l) => Some(l@),
                            None => None,
                        },
                    ),
                    zh_cn@,
                    en_us@,
                ),
            ),
        ensures
            r.chosen_language() == language_for(
                match preference {
                    Some(p) => Some(p@),
                    None => None,
                },
                match system_locale {
                    Some(l) => Some(l@),
                    None => None,
                },
            ),
            r.catalogue_text() == catalogue_of(r.chosen_language(), zh_cn@, en_us@),
    {
        let language = select_language(preference, system_locale);
        let catalogue = match language {
            Language::ZhCN => String::from_str(zh_cn),
            Language::EnUS => String::from_str(en_us),
        };
        I18n { language, catalogue }
    }

    /// The language chosen.
    pub fn language(&self) -> (r: Language)
        ensures
            r == self.chosen_language(),
    {
        self.language
    }

    /// Message `m` in the chosen language.
    pub fn t(&self, m: &Message) -> (r: String)
        ensures
            r@ == message_text(self.chosen_language(), self.catalogue_text(), *m),
    {
        proof {
            use_type_invariant(self);
        }
        translate(self.language, self.catalogue.as_str(), m)
    }
}

} // verus!
