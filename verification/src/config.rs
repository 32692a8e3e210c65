use vstd::prelude::*;

use crate::naming::{all_digits, digits_value};
use crate::text::{chars_of, copy_string, is_ascii_digit, owned};

verus! {

/// Where the HTTP server listens.
#[derive(Debug)]
pub struct ServerConfig {
    pub host: String,
    pub port: u16,
}

/// Colours of the web interface.
#[derive(Debug)]
pub struct BrandingThemeTokens {
    pub accent: String,
    pub accent_contrast: String,
}

/// How the web interface names and shows itself.
#[derive(Debug)]
pub struct BrandingConfig {
    pub app_name: String,
    pub short_name: String,
    pub logo_url: String,
    pub browser_title_template: String,
    pub theme_tokens: BrandingThemeTokens,
}

/// Configured locations of the media tools, when given.
#[derive(Debug)]
pub struct ToolchainConfig {
    pub ffmpeg_path: Option<String>,
    pub ffprobe_path: Option<String>,
    pub mediainfo_path: Option<String>,
}

/// The service configuration.
#[derive(Debug)]
pub struct AppConfig {
    pub server: ServerConfig,
    pub branding: BrandingConfig,
    pub toolchain: ToolchainConfig,
}

/// The raw settings, each `None` when its variable is not set.
pub struct ConfigSettings {
    pub host: Option<String>,
    pub port: Option<String>,
    pub app_name: Option<String>,
    pub short_name: Option<String>,
    pub logo_url: Option<String>,
    pub browser_title_template: Option<String>,
    pub accent: Option<String>,
    pub accent_contrast: Option<String>,
    pub ffmpeg_path: Option<String>,
    pub ffprobe_path: Option<String>,
    pub mediainfo_path: Option<String>,
}

/// `u16::from_str`: an optional `+`, then one or more ASCII digits whose
/// value fits in 16 bits.
pub open spec fn spec_parse_u16(s: Seq<char>) -> Option<nat> {
    let d = if s.len() > 0 && s[0] == '+' {
        s.drop_first()
    } else {
        s
    };
    if d.len() == 0 || !all_digits(d) || digits_value(d) > 65535 {
        None
    } else {
        Some(digits_value(d))
    }
}

proof fn lemma_digits_prefix_bound(d: Seq<char>, i: int)
    requires
        0 <= i <= d.len(),
        all_digits(d),
    ensures
        digits_value(d.take(i)) <= digits_value(d),
    decreases d.len() - i,
{
    if i < d.len() {
        lemma_digits_prefix_bound(d, i + 1);
        assert(d.take(i + 1).drop_last() =~= d.take(i));
    } else {
        assert(d.take(i) =~= d);
    }
}

/// `str::parse::<u16>`.
pub fn parse_u16(s: &str) -> (r: Option<u16>)
    ensures
        match r {
            Some(v) => spec_parse_u16(s@) == Some(v as nat),
            None => spec_parse_u16(s@) is None,
        },
{
    let v = chars_of(s);
    let start: usize = if v.len() > 0 && v[0] == '+' {
        1
    } else {
        0
    };
    let ghost d = if v@.len() > 0 && v@[0] == '+' {
        v@.drop_first()
    } else {
        v@
    };
    assert(d =~= v@.skip(start as int));
    if start >= v.len() {
        return None;
    }
    let mut acc: u32 = 0;
    let mut i = start;
    while i < v.len()
        invariant
            start <= i <= v.len(),
            v@ == s@,
            d == (if s@.len() > 0 && s@[0] == '+' {
                s@.drop_first()
            } else {
                s@
            }),
            d.len() > 0,
            d =~= v@.skip(start as int),
            all_digits(d.take(i - start)),
            acc as nat == digits_value(d.take(i - start)),
            acc <= 65535,
        decreases v.len() - i,
    {
        let c = v[i];
        assert(d[i - start] == v@[i as int]);
        if !('0' <= c && c <= '9') {
            assert(!is_ascii_digit(d[i - start]));
            assert(!all_digits(d));
            return None;
        }
        let ghost k: int = i - start;
        assert(d.take(k + 1).drop_last() =~= d.take(k));
        assert(d.take(k + 1).last() == c);
        let next = acc * 10 + (c as u32 - '0' as u32);
        assert(next as nat == digits_value(d.take(k + 1)));
        assert forall|j: int| 0 <= j < k + 1 implies is_ascii_digit(#[trigger] d.take(k + 1)[j]) by {
            if j < k {
                assert(d.take(k + 1)[j] == d.take(k)[j]);
            }
        }
        if next > 65535 {
            proof {
                if all_digits(d) {
                    lemma_digits_prefix_bound(d, i - start + 1);
                }
            }
            return None;
        }
        acc = next;
        i += 1;
    }
    assert(d.take(i - start) =~= d);
    assert(spec_parse_u16(s@) == Some(acc as nat));
    Some(acc as u16)
}

fn text_or(v: &Option<String>, default: &str) -> (r: String)
    ensures
        r@ == match v {
            Some(s) => s@,
            None => default@,
        },
{
    match v {
        Some(s) => copy_string(s),
        None => owned(default),
    }
}

fn copy_opt(v: &Option<String>) -> (r: Option<String>)
    ensures
        crate::toolchain::opt_text(r) == crate::toolchain::opt_text(*v),
{
    match v {
        Some(s) => Some(copy_string(s)),
        None => None,
    }
}

pub open spec fn or_default(v: Option<String>, default: Seq<char>) -> Seq<char> {
    match v {
        Some(s) => s@,
        None => default,
    }
}

impl AppConfig {
    /// `AppConfig::from_env` over the variables' values: each unset value
    /// takes its default, and a port that does not parse as `u16` is 8080.
    pub fn from_settings(s: &ConfigSettings) -> (r: AppConfig)
        ensures
            r.server.host@ == or_default(s.host, "0.0.0.0"@),
            r.server.port == match s.port {
                Some(p) => match spec_parse_u16(p@) {
                    Some(v) => v,
                    None => 8080,
                },
                None => 8080,
            },
            r.branding.app_name@ == or_default(s.app_name, "Media Manager"@),
            r.branding.short_name@ == or_default(s.short_name, "MM"@),
            r.branding.logo_url@ == or_default(s.logo_url, "/assets/logo.svg"@),
            r.branding.browser_title_template@ == or_default(
                s.browser_title_template,
                "{app_name}"@,
            ),
            r.branding.theme_tokens.accent@ == or_default(s.accent, "#0f766e"@),
            r.branding.theme_tokens.accent_contrast@ == or_default(s.accent_contrast, "#f8fafc"@),
            crate::toolchain::opt_text(r.toolchain.ffmpeg_path) == crate::toolchain::opt_text(
                s.ffmpeg_path,
            ),
            crate::toolchain::opt_text(r.toolchain.ffprobe_path) == crate::toolchain::opt_text(
                s.ffprobe_path,
            ),
            crate::toolchain::opt_text(r.toolchain.mediainfo_path) == crate::toolchain::opt_text(
                s.mediainfo_path,
            ),
    {
        let port = match &s.port {
            Some(p) => match parse_u16(p.as_str()) {
                Some(v) => v,
                None => 8080,
            },
            None => 8080,
        };
        AppConfig {
            server: ServerConfig { host: text_or(&s.host, "0.0.0.0"), port },
            branding: BrandingConfig {
                app_name: text_or(&s.app_name, "Media Manager"),
                short_name: text_or(&s.short_name, "MM"),
                logo_url: text_or(&s.logo_url, "/assets/logo.svg"),
                browser_title_template: text_or(&s.browser_title_template, "{app_name}"),
                theme_tokens: BrandingThemeTokens {
                    accent: text_or(&s.accent, "#0f766e"),
                    accent_contrast: text_or(&s.accent_contrast, "#f8fafc"),
                },
            },
            toolchain: ToolchainConfig {
                ffmpeg_path: copy_opt(&s.ffmpeg_path),
                ffprobe_path: copy_opt(&s.ffprobe_path),
                mediainfo_path: copy_opt(&s.mediainfo_path),
            },
        }
    }
}

} // verus!
