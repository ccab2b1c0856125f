//! App settings and the freshness rule of the cached WordPress version
//! behind warning W02.

use vstd::prelude::*;

verus! {

broadcast use vstd::string::group_string_axioms;

/// The settings file schema.
pub const SCHEMA: u32 = 1;

/// The public endpoint that reports the current WordPress release.
pub const WORDPRESS_VERSION_URL: &'static str = "https://api.wordpress.org/core/version-check/1.7/";

/// How long a looked-up version is trusted, in seconds.
pub const WORDPRESS_VERSION_TTL_SECONDS: u64 = 86400;

/// App-wide settings. The theme lives in the UI, not here.
pub struct AppSettings {
    /// Always 1.
    pub schema: u32,
    /// `svn` executable chosen by the developer; `None` searches.
    pub svn_path: Option<String>,
    /// `git` executable chosen by the developer; `None` searches.
    pub git_path: Option<String>,
    /// Ask api.wordpress.org for the current WordPress version (W02). On by default, opt-out.
    pub wordpress_version_lookup: bool,
    /// Provider record ids whose data-sharing notice the developer has seen.
    pub privacy_notice_seen: Vec<String>,
}

impl Default for AppSettings {
    fn default() -> (s: AppSettings)
        ensures
            s.schema == SCHEMA,
            s.svn_path is None,
            s.git_path is None,
            s.wordpress_version_lookup,
            s.privacy_notice_seen@.len() == 0,
    {
        AppSettings {
            schema: SCHEMA,
            svn_path: None,
            git_path: None,
            wordpress_version_lookup: true,
            privacy_notice_seen: Vec::new(),
        }
    }
}

impl AppSettings {
    /// The settings as saved: the same values under the current schema.
    pub fn for_saving(self) -> (s: AppSettings)
        ensures
            s.schema == SCHEMA,
            s.svn_path == self.svn_path,
            s.git_path == self.git_path,
            s.wordpress_version_lookup == self.wordpress_version_lookup,
            s.privacy_notice_seen == self.privacy_notice_seen,
    {
        AppSettings { schema: SCHEMA, ..self }
    }
}

/// Whether a version cached at `fetched_at` is still trusted at `now` (both
/// in seconds since the epoch; a clock that went back counts as fresh).
pub fn cache_is_fresh(now: u64, fetched_at: u64) -> (b: bool)
    ensures
        b == ((if now >= fetched_at { now - fetched_at } else { 0 }) < WORDPRESS_VERSION_TTL_SECONDS),
{
    now.saturating_sub(fetched_at) < WORDPRESS_VERSION_TTL_SECONDS
}

/// The string a JSON text holds at a JSON pointer, as `serde_json` reads
/// the text (`None` when the text is not JSON or holds no string there).
pub uninterp spec fn json_string_at(text: Seq<char>, pointer: Seq<char>) -> Option<Seq<char>>;

/// Parses `text` with `serde_json::from_str` into a `Value` and reads
/// `Value::pointer(pointer)` as a string. What it returns is named, not
/// stated: it is what `serde_json` makes of the text.
#[verifier::external_body]
fn string_at(text: &str, pointer: &str) -> (r: Option<String>)
    ensures
        crate::tools::opt_view(r) == json_string_at(text@, pointer@),
{
    let json: serde_json::Value = serde_json::from_str(text).ok()?;
    json.pointer(pointer).and_then(serde_json::Value::as_str).map(str::to_owned)
}

/// Where a version-check response names the current WordPress version:
/// the `current` field of its first offer.
pub open spec fn offer_pointer() -> Seq<char> {
    "/offers/0/current"@
}

/// The current WordPress version in a version-check response:
/// `offers[0].current`, when it is a string.
pub fn parse_version_check(text: &str) -> (r: Option<String>)
    ensures
        crate::tools::opt_view(r) == json_string_at(text@, offer_pointer()),
{
    string_at(text, "/offers/0/current")
}

/// Whether the WordPress version is looked up at all, and whether the
/// cached one (fetched at `fetched_at`, when there is a cache) is used
/// instead of asking: `None` skips the lookup, `Some(true)` uses the cache,
/// `Some(false)` asks the server.
pub fn lookup_plan(settings: &AppSettings, now: u64, fetched_at: Option<u64>) -> (r: Option<bool>)
    ensures
        !settings.wordpress_version_lookup ==> r is None,
        settings.wordpress_version_lookup ==> r == Some(match fetched_at {
            Some(t) => (if now >= t { now - t } else { 0 }) < WORDPRESS_VERSION_TTL_SECONDS,
            None => false,
        }),
{
    if !settings.wordpress_version_lookup {
        return None;
    }
    match fetched_at {
        Some(t) => Some(cache_is_fresh(now, t)),
        None => Some(false),
    }
}

} // verus!
