//! The remote sources of official holidays, and how a country option
//! selects one of them.

use crate::error::CalError;
use crate::text::{byte_len, chars_of, push_signed_decimal, signed_decimal, utf8_len};
use vstd::prelude::*;
use vstd::string::*;

verus! {

/// One remote source of official holidays.
#[derive(Debug)]
pub enum Provider {
    /// The source for Argentina, and the default.
    ArgentinaDatos,
    /// The source for another country, by its ISO code.
    OpenHolidays { country_code: String },
}

/// The view of a provider: its country code as characters.
pub enum ProviderView {
    ArgentinaDatos,
    OpenHolidays { country_code: Seq<char> },
}

impl View for Provider {
    type V = ProviderView;

    open spec fn view(&self) -> ProviderView {
        match *self {
            Provider::ArgentinaDatos => ProviderView::ArgentinaDatos,
            Provider::OpenHolidays { country_code } => ProviderView::OpenHolidays {
                country_code: country_code@,
            },
        }
    }
}

impl Default for Provider {
    fn default() -> (provider: Self)
        ensures
            provider@ == ProviderView::ArgentinaDatos,
    {
        Provider::ArgentinaDatos
    }
}

impl Clone for Provider {
    fn clone(&self) -> (copy: Self)
        ensures
            copy@ == self@,
    {
        match self {
            Provider::ArgentinaDatos => Provider::ArgentinaDatos,
            Provider::OpenHolidays { country_code } => Provider::OpenHolidays {
                country_code: country_code.clone(),
            },
        }
    }
}

impl PartialEq for Provider {
    fn eq(&self, other: &Self) -> (same: bool) {
        match self {
            Provider::ArgentinaDatos => match other {
                Provider::ArgentinaDatos => true,
                Provider::OpenHolidays { .. } => false,
            },
            Provider::OpenHolidays { country_code: mine } => match other {
                Provider::ArgentinaDatos => false,
                Provider::OpenHolidays { country_code: theirs } => *mine == *theirs,
            },
        }
    }
}

impl vstd::std_specs::cmp::PartialEqSpecImpl for Provider {
    open spec fn obeys_eq_spec() -> bool {
        true
    }

    open spec fn eq_spec(&self, other: &Self) -> bool {
        self@ == other@
    }
}

impl Eq for Provider {

}

/// What `str::trim` returns: the text without the white space at its
/// start and at its end.
pub uninterp spec fn trimmed(text: Seq<char>) -> Seq<char>;

/// What `str::to_uppercase` returns: the text with each character replaced
/// by its uppercase equivalent.
pub uninterp spec fn uppercased(text: Seq<char>) -> Seq<char>;

/// What `str::to_lowercase` returns: the text with each character replaced
/// by its lowercase equivalent.
pub uninterp spec fn lowercased(text: Seq<char>) -> Seq<char>;

/// A letter of the ASCII alphabet, small or capital.
pub open spec fn is_ascii_letter(c: char) -> bool {
    ('a' <= c <= 'z') || ('A' <= c <= 'Z')
}

/// The text holds none of the small letters `a` to `z`.
pub open spec fn no_small_ascii_letter(text: Seq<char>) -> bool {
    forall|i: int| 0 <= i < text.len() ==> !('a' <= #[trigger] text[i] <= 'z')
}

/// Every character of the text is a letter of the ASCII alphabet.
pub open spec fn all_ascii_letters(text: Seq<char>) -> bool {
    forall|i: int| 0 <= i < text.len() ==> is_ascii_letter(#[trigger] text[i])
}

/// `str::trim`: the result is the one that `trimmed` names.
#[verifier::external_body]
fn trim<'a>(text: &'a str) -> (out: &'a str)
    ensures
        out@ == trimmed(text@),
{
    text.trim()
}

/// `str::to_uppercase`: the result is the one that `uppercased` names. No
/// small letter of the ASCII alphabet is left in it: each has a capital
/// letter as its uppercase equivalent, and no character has a small ASCII
/// letter in its own.
#[verifier::external_body]
fn to_uppercase(text: &str) -> (out: String)
    ensures
        out@ == uppercased(text@),
        no_small_ascii_letter(out@),
{
    text.to_uppercase()
}

/// `str::to_lowercase`: the result is the one that `lowercased` names.
#[verifier::external_body]
fn to_lowercase(text: &str) -> (out: String)
    ensures
        out@ == lowercased(text@),
{
    text.to_lowercase()
}

/// The provider for a country code that is already trimmed and in upper
/// case, or the message that says why the code is refused: a code must take
/// two or three bytes and hold ASCII letters only. The code `AR` stands for
/// the default provider.
pub open spec fn classify(code: Seq<char>) -> Result<ProviderView, Seq<char>> {
    if !(2 <= utf8_len(code) <= 3) {
        Err("--country must be a 2- or 3-letter ISO code"@)
    } else if !all_ascii_letters(code) {
        Err("--country must contain only ASCII letters"@)
    } else if code == seq!['A', 'R'] {
        Ok(ProviderView::ArgentinaDatos)
    } else {
        Ok(ProviderView::OpenHolidays { country_code: code })
    }
}

/// The provider that a country option selects, or the message that says
/// why the option is refused. No option selects the default provider; an
/// option is trimmed, must not be empty then, and is classified in upper
/// case.
pub open spec fn resolve(country: Option<Seq<char>>) -> Result<ProviderView, Seq<char>> {
    match country {
        None => Ok(ProviderView::ArgentinaDatos),
        Some(text) => if trimmed(text).len() == 0 {
            Err("--country cannot be empty"@)
        } else {
            classify(uppercased(trimmed(text)))
        },
    }
}

/// What holds of the provider that a valid option selects: a country code
/// of two or three capital letters of the ASCII alphabet, and never `AR`.
pub open spec fn canonical(provider: ProviderView) -> bool {
    match provider {
        ProviderView::ArgentinaDatos => true,
        ProviderView::OpenHolidays { country_code } => {
            &&& 2 <= country_code.len() <= 3
            &&& forall|i: int|
                0 <= i < country_code.len() ==> 'A' <= #[trigger] country_code[i] <= 'Z'
            &&& country_code != seq!['A', 'R']
        },
    }
}

/// The slug of a provider, which names its cache files.
pub open spec fn slug_text(provider: ProviderView) -> Seq<char> {
    match provider {
        ProviderView::ArgentinaDatos => "argentina-datos"@,
        ProviderView::OpenHolidays { country_code } => "openholidays-"@ + lowercased(country_code),
    }
}

/// The address from which a provider's holidays of a year are fetched.
pub open spec fn endpoint_text(provider: ProviderView, year: int) -> Seq<char> {
    match provider {
        ProviderView::ArgentinaDatos => "https://api.argentinadatos.com/v1/feriados/"@
            + signed_decimal(year),
        ProviderView::OpenHolidays { country_code } =>
            "https://openholidaysapi.org/PublicHolidays?countryIsoCode="@ + country_code
            + "&languageIsoCode=EN&validFrom="@ + signed_decimal(year) + "-01-01&validTo="@
            + signed_decimal(year) + "-12-31"@,
    }
}

/// Whether `c` is a letter of the ASCII alphabet.
pub fn is_letter(c: char) -> (letter: bool)
    ensures
        letter == is_ascii_letter(c),
{
    ('a' <= c && c <= 'z') || ('A' <= c && c <= 'Z')
}

/// An ASCII text takes one byte per character.
proof fn lemma_letters_len(code: Seq<char>)
    requires
        all_ascii_letters(code),
    ensures
        utf8_len(code) == code.len(),
{
    assert(vstd::utf8::is_ascii_chars(code)) by {
        assert forall|i: int| 0 <= i < code.len() implies '\0' <= #[trigger] code[i]
            <= '\u{7f}' by {
            assert(is_ascii_letter(code[i]));
        }
    }
    vstd::utf8::is_ascii_chars_encode_utf8(code);
}

impl Provider {
    /// The provider that a country option selects.
    ///
    /// Fails with `Config` where the option is empty once trimmed, or its
    /// upper-case form is not a code of two or three ASCII letters.
    pub fn from_country(country: Option<String>) -> (out: Result<Provider, CalError>)
        ensures
            match out {
                Ok(provider) => resolve(option_text(country)) == Ok::<ProviderView, Seq<char>>(
                    provider@,
                ) && canonical(provider@),
                Err(e) => e is Config && resolve(option_text(country)) == Err::<
                    ProviderView,
                    Seq<char>,
                >(e->Config_0@),
            },
    {
        let text = match country {
            None => {
                return Ok(Provider::default());
            },
            Some(text) => text,
        };
        let stripped = trim(text.as_str());
        if stripped.is_empty() {
            return Err(CalError::Config(String::from_str("--country cannot be empty")));
        }
        let upper = to_uppercase(stripped);
        Provider::from_code(upper)
    }

    /// The provider for a country code that is already trimmed and in
    /// upper case.
    ///
    /// Fails with `Config` where the code does not take two or three bytes,
    /// or holds a character that is no ASCII letter.
    pub fn from_code(code: String) -> (out: Result<Provider, CalError>)
        ensures
            match out {
                Ok(provider) => classify(code@) == Ok::<ProviderView, Seq<char>>(provider@),
                Err(e) => e is Config && classify(code@) == Err::<ProviderView, Seq<char>>(
                    e->Config_0@,
                ),
            },
            no_small_ascii_letter(code@) && out is Ok ==> canonical(out->Ok_0@),
    {
        let bytes = byte_len(code.as_str());
        if bytes < 2 || bytes > 3 {
            return Err(
                CalError::Config(String::from_str("--country must be a 2- or 3-letter ISO code")),
            );
        }
        let letters = chars_of(code.as_str());
        let mut i: usize = 0;
        while i < letters.len()
            invariant
                i <= letters@.len(),
                letters@ == code@,
                2 <= utf8_len(code@) <= 3,
                forall|j: int| 0 <= j < i ==> is_ascii_letter(#[trigger] code@[j]),
            decreases letters@.len() - i,
        {
            if !is_letter(letters[i]) {
                proof {
                    assert(!is_ascii_letter(code@[i as int]));
                }
                return Err(
                    CalError::Config(String::from_str("--country must contain only ASCII letters")),
                );
            }
            i += 1;
        }
        proof {
            lemma_letters_len(code@);
        }
        if letters.len() == 2 && letters[0] == 'A' && letters[1] == 'R' {
            proof {
                assert(code@ =~= seq!['A', 'R']);
            }
            Ok(Provider::ArgentinaDatos)
        } else {
            proof {
                if no_small_ascii_letter(code@) {
                    assert forall|j: int| 0 <= j < code@.len() implies 'A' <= #[trigger] code@[j]
                        <= 'Z' by {
                        assert(is_ascii_letter(code@[j]));
                    }
                }
            }
            Ok(Provider::OpenHolidays { country_code: code })
        }
    }

    /// Whether this is the default provider.
    pub fn is_default(&self) -> (default: bool)
        ensures
            default == (self@ == ProviderView::ArgentinaDatos),
    {
        match self {
            Provider::ArgentinaDatos => true,
            Provider::OpenHolidays { .. } => false,
        }
    }

    /// The slug that names the provider's cache files.
    pub fn slug(&self) -> (slug: String)
        ensures
            slug@ == slug_text(self@),
    {
        match self {
            Provider::ArgentinaDatos => String::from_str("argentina-datos"),
            Provider::OpenHolidays { country_code } => {
                let mut slug = String::from_str("openholidays-");
                let lower = to_lowercase(country_code.as_str());
                slug.append(lower.as_str());
                slug
            },
        }
    }

    /// The address from which the holidays of `year` are fetched.
    pub fn endpoint(&self, year: i32) -> (url: String)
        ensures
            url@ == endpoint_text(self@, year as int),
    {
        match self {
            Provider::ArgentinaDatos => {
                let mut url = String::from_str("https://api.argentinadatos.com/v1/feriados/");
                push_signed_decimal(&mut url, year);
                url
            },
            Provider::OpenHolidays { country_code } => {
                let mut url = String::from_str(
                    "https://openholidaysapi.org/PublicHolidays?countryIsoCode=",
                );
                url.append(country_code.as_str());
                url.append("&languageIsoCode=EN&validFrom=");
                push_signed_decimal(&mut url, year);
                url.append("-01-01&validTo=");
                push_signed_decimal(&mut url, year);
                url.append("-12-31");
                url
            },
        }
    }
}

/// The text of an option, if there is one.
pub open spec fn option_text(country: Option<String>) -> Option<Seq<char>> {
    match country {
        None => None,
        Some(text) => Some(text@),
    }
}

} // verus!
