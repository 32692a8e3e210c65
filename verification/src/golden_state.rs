use vstd::prelude::*;

use crate::text::{
    append_str, chars_eq_str, lemma_normalized_word_idempotent, normalize_word, normalized_word,
    string_from_chars,
};

verus! {

#[derive(Debug, Clone, Copy, PartialEq, Eq, Structural)]
pub enum MetadataProvider {
    Tmdb,
    Imdb,
    Tvdb,
}

pub open spec fn provider_code(p: MetadataProvider) -> Seq<char> {
    match p {
        MetadataProvider::Tmdb => "tmdb"@,
        MetadataProvider::Imdb => "imdb"@,
        MetadataProvider::Tvdb => "tvdb"@,
    }
}

/// The provider a text names, compared after trimming and ignoring ASCII case.
pub open spec fn spec_parse_provider(s: Seq<char>) -> Option<MetadataProvider> {
    let w = normalized_word(s);
    if w == "tmdb"@ {
        Some(MetadataProvider::Tmdb)
    } else if w == "imdb"@ {
        Some(MetadataProvider::Imdb)
    } else if w == "tvdb"@ {
        Some(MetadataProvider::Tvdb)
    } else {
        None
    }
}

impl MetadataProvider {
    pub fn as_str(self) -> (r: &'static str)
        ensures
            r@ == provider_code(self),
    {
        match self {
            MetadataProvider::Tmdb => "tmdb",
            MetadataProvider::Imdb => "imdb",
            MetadataProvider::Tvdb => "tvdb",
        }
    }

    pub fn parse(value: &str) -> (r: Option<Self>)
        ensures
            r == spec_parse_provider(value@),
    {
        let w = normalize_word(value);
        if chars_eq_str(&w, "tmdb") {
            Some(MetadataProvider::Tmdb)
        } else if chars_eq_str(&w, "imdb") {
            Some(MetadataProvider::Imdb)
        } else if chars_eq_str(&w, "tvdb") {
            Some(MetadataProvider::Tvdb)
        } else {
            None
        }
    }
}

#[derive(Debug, Clone, Copy, PartialEq, Eq, Structural)]
pub enum NamingFormat {
    MovieTitleYear,
    MovieTitleSubtitleYear,
}

pub open spec fn format_code(f: NamingFormat) -> Seq<char> {
    match f {
        NamingFormat::MovieTitleYear => "movie_title_year"@,
        NamingFormat::MovieTitleSubtitleYear => "movie_title_subtitle_year"@,
    }
}

pub open spec fn spec_parse_format(s: Seq<char>) -> Option<NamingFormat> {
    let w = normalized_word(s);
    if w == "movie_title_year"@ {
        Some(NamingFormat::MovieTitleYear)
    } else if w == "movie_title_subtitle_year"@ {
        Some(NamingFormat::MovieTitleSubtitleYear)
    } else {
        None
    }
}

impl NamingFormat {
    pub fn as_str(self) -> (r: &'static str)
        ensures
            r@ == format_code(self),
    {
        match self {
            NamingFormat::MovieTitleYear => "movie_title_year",
            NamingFormat::MovieTitleSubtitleYear => "movie_title_subtitle_year",
        }
    }

    pub fn parse(value: &str) -> (r: Option<Self>)
        ensures
            r == spec_parse_format(value@),
    {
        let w = normalize_word(value);
        if chars_eq_str(&w, "movie_title_year") {
            Some(NamingFormat::MovieTitleYear)
        } else if chars_eq_str(&w, "movie_title_subtitle_year") {
            Some(NamingFormat::MovieTitleSubtitleYear)
        } else {
            None
        }
    }
}

/// Trimming and ASCII-lower-casing leave a lower-case code without white
/// space unchanged.
proof fn lemma_code_is_normal(s: Seq<char>)
    requires
        forall|i: int| 0 <= i < s.len() ==> ('a' <= #[trigger] s[i] <= 'z' || s[i] == '_'),
    ensures
        normalized_word(s) == s,
{
    if s.len() > 0 {
        assert(!crate::text::is_ws(s[0]));
        assert(!crate::text::is_ws(s.last()));
    }
    assert(crate::text::trim_start_ws(s) == s);
    assert(crate::text::trim_end_ws(s) == s);
    assert(crate::text::ascii_lower(s) =~= s);
}

/// Every provider parses back from its code.
pub proof fn lemma_provider_code_roundtrip(p: MetadataProvider)
    ensures
        spec_parse_provider(provider_code(p)) == Some(p),
{
    reveal_strlit("tmdb");
    reveal_strlit("imdb");
    reveal_strlit("tvdb");
    lemma_code_is_normal(provider_code(p));
    assert("tmdb"@[1] == 'm' && "imdb"@[1] == 'm' && "tvdb"@[1] == 'v');
    assert("tmdb"@[0] == 't' && "imdb"@[0] == 'i');
}

/// Every naming format parses back from its code.
pub proof fn lemma_format_code_roundtrip(f: NamingFormat)
    ensures
        spec_parse_format(format_code(f)) == Some(f),
{
    reveal_strlit("movie_title_year");
    reveal_strlit("movie_title_subtitle_year");
    lemma_code_is_normal(format_code(f));
    assert("movie_title_year"@.len() != "movie_title_subtitle_year"@.len());
}

#[derive(Debug, Clone, Copy)]
pub struct GoldenStatePreferences {
    pub metadata_provider: MetadataProvider,
    pub naming_format: NamingFormat,
    pub updated_at_ms: i64,
}

impl Default for GoldenStatePreferences {
    fn default() -> (r: Self)
        ensures
            r.metadata_provider == MetadataProvider::Tmdb,
            r.naming_format == NamingFormat::MovieTitleSubtitleYear,
            r.updated_at_ms == 0,
    {
        GoldenStatePreferences {
            metadata_provider: MetadataProvider::Tmdb,
            naming_format: NamingFormat::MovieTitleSubtitleYear,
            updated_at_ms: 0,
        }
    }
}

/// The preferences a stored row holds: unknown provider or format codes
/// fall back to TMDB and "Movie Title - Subtitle (Year)".
pub fn preferences_from_row(
    metadata_provider: &str,
    naming_format: &str,
    updated_at_ms: i64,
) -> (r: GoldenStatePreferences)
    ensures
        r.metadata_provider == match spec_parse_provider(metadata_provider@) {
            Some(p) => p,
            None => MetadataProvider::Tmdb,
        },
        r.naming_format == match spec_parse_format(naming_format@) {
            Some(f) => f,
            None => NamingFormat::MovieTitleSubtitleYear,
        },
        r.updated_at_ms == updated_at_ms,
{
    let provider = match MetadataProvider::parse(metadata_provider) {
        Some(p) => p,
        None => MetadataProvider::Tmdb,
    };
    let format = match NamingFormat::parse(naming_format) {
        Some(f) => f,
        None => NamingFormat::MovieTitleSubtitleYear,
    };
    GoldenStatePreferences { metadata_provider: provider, naming_format: format, updated_at_ms }
}

#[derive(Debug)]
pub enum GoldenStateStoreError {
    Open(String),
    Query(String),
}

impl GoldenStateStoreError {
    pub fn message(&self) -> (r: String)
        ensures
            r@ == match *self {
                GoldenStateStoreError::Open(d) => "sqlite open failed: "@ + d@,
                GoldenStateStoreError::Query(d) => "sqlite query failed: "@ + d@,
            },
    {
        let mut v: Vec<char> = Vec::new();
        match self {
            GoldenStateStoreError::Open(d) => {
                append_str(&mut v, "sqlite open failed: ");
                append_str(&mut v, d.as_str());
            },
            GoldenStateStoreError::Query(d) => {
                append_str(&mut v, "sqlite query failed: ");
                append_str(&mut v, d.as_str());
            },
        }
        string_from_chars(&v)
    }
}


/// Parsing a provider ignores surrounding white space and ASCII case: a text
/// names the same provider as its trimmed, lower-cased form.
pub proof fn lemma_provider_parse_ignores_space_and_case(s: Seq<char>)
    ensures
        spec_parse_provider(s) == spec_parse_provider(normalized_word(s)),
{
    lemma_normalized_word_idempotent(s);
}

/// Parsing a naming format ignores surrounding white space and ASCII case.
pub proof fn lemma_format_parse_ignores_space_and_case(s: Seq<char>)
    ensures
        spec_parse_format(s) == spec_parse_format(normalized_word(s)),
{
    lemma_normalized_word_idempotent(s);
}

} // verus!
