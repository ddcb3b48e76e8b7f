//! Server configuration.
use vstd::prelude::*;
use crate::text::{chars_of, string_of_range, trim};

verus! {

pub const DEFAULT_BASE_URL: &'static str = "https://management-api.x.ai";

/// Settings read from `config.toml`.
pub struct Config {
    /// Management key from console.x.ai → Settings → Management Keys.
    /// Separate from inference API keys.
    pub management_key: String,
    /// Team ID. Optional — auto-discovered via GET /auth/management-keys/validation
    /// when the key is scoped to a single team.
    pub team_id: Option<String>,
    /// Override base URL (testing). Defaults to https://management-api.x.ai
    pub base_url: Option<String>,
}

/// `str::trim_end_matches('/')`.
pub open spec fn strip_trailing_slashes(s: Seq<char>) -> Seq<char>
    decreases s.len(),
{
    if s.len() > 0 && s.last() == '/' { strip_trailing_slashes(s.drop_last()) } else { s }
}

/// The base URL in use: the configured one without trailing slashes, unless
/// that leaves nothing, in which case the default.
pub open spec fn spec_base_url(c: Config) -> Seq<char> {
    match c.base_url {
        Some(b) => if strip_trailing_slashes(b@).len() > 0 {
            strip_trailing_slashes(b@)
        } else {
            DEFAULT_BASE_URL@
        },
        None => DEFAULT_BASE_URL@,
    }
}

impl Config {
    pub fn base_url(&self) -> (r: &str)
        ensures
            r@ == spec_base_url(*self),
    {
        match &self.base_url {
            Some(b) => {
                let s = b.as_str();
                let n = s.unicode_len();
                let mut k: usize = n;
                assert(s@.take(n as int) =~= s@);
                while k > 0 && s.get_char(k - 1) == '/'
                    invariant
                        k <= n == s@.len(),
                        strip_trailing_slashes(s@) == strip_trailing_slashes(s@.take(k as int)),
                    decreases k,
                {
                    assert(s@.take(k as int).drop_last() =~= s@.take(k - 1));
                    k = k - 1;
                }
                assert(s@.take(n as int) =~= s@);
                if k == 0 {
                    DEFAULT_BASE_URL
                } else {
                    assert(s@.subrange(0, k as int) =~= s@.take(k as int));
                    s.substring_char(0, k)
                }
            },
            None => DEFAULT_BASE_URL,
        }
    }
}

/// The message `load` fails with when the management key is blank.
pub open spec fn key_problem(c: Config, path: Seq<char>) -> Option<Seq<char>> {
    if trim(c.management_key@).len() == 0 {
        Some("management_key cannot be empty in "@ + path)
    } else {
        None
    }
}

/// Checks a loaded configuration: the management key must not be blank.
pub fn check_config(config: &Config, path: &str) -> (r: Result<(), String>)
    ensures
        match r {
            Ok(()) => key_problem(*config, path@) is None,
            Err(m) => key_problem(*config, path@) == Some(m@),
        },
{
    let k = crate::text::trimmed(config.management_key.as_str());
    if k.as_str().unicode_len() == 0 {
        let mut m = String::from_str("management_key cannot be empty in ");
        m.append(path);
        Err(m)
    } else {
        Ok(())
    }
}


proof fn lemma_stripped(s: Seq<char>)
    ensures
        strip_trailing_slashes(s).len() > 0 ==> strip_trailing_slashes(s).last() != '/',
    decreases s.len(),
{
    if s.len() > 0 && s.last() == '/' {
        lemma_stripped(s.drop_last());
    }
}

/// The base URL in use is never empty and never ends with `/`, so a request
/// path that starts with `/` joins it with a single slash.
pub proof fn lemma_base_url_shape(c: Config)
    ensures
        spec_base_url(c).len() > 0,
        spec_base_url(c).last() != '/',
{
    reveal_strlit("https://management-api.x.ai");
    match c.base_url {
        Some(b) => lemma_stripped(b@),
        None => {},
    }
}

} // verus!
