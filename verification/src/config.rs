//! Startup configuration: the redirect target with its built-in fallback, the
//! grant validity window, and the immutable per-process configuration value
//! that every request handler reads.

use vstd::prelude::*;
use crate::SECRET_LENGTH;
use crate::secret::{all_alnum, create_secret};
use crate::text::{all_digits, dec_value, parse_u64};
use crate::url::{get_redirect_host, is_host_of, valid_redirect_url};

verus! {

/// Port the gateway listens on when no override is given.
pub const DEFAULT_LISTEN_PORT: u16 = 8444;

/// Grant validity window, in seconds, used when the window file is missing or
/// malformed.
pub const DEFAULT_RULE_VALIDITY_SECS: u64 = 3600;

/// Contents of the built-in redirect target.
pub open spec fn spec_default_redirect_url() -> Seq<char> {
    "http://portal.captif.io/?origin="@
}

/// The built-in redirect target, used when no valid one is configured.
pub fn default_redirect_url() -> (r: &'static str)
    ensures
        r@ == spec_default_redirect_url(),
{
    "http://portal.captif.io/?origin="
}

/// The redirect URL that a given configuration file content selects: the
/// content itself when it is a valid URL, the built-in default otherwise.
pub open spec fn spec_chosen_redirect_url(contents: Option<Seq<char>>) -> Seq<char> {
    match contents {
        Some(u) => if valid_redirect_url(u) {
            u
        } else {
            spec_default_redirect_url()
        },
        None => spec_default_redirect_url(),
    }
}

/// Selects the redirect URL: the configured file's contents when they form a
/// valid URL, the built-in default otherwise (unreadable or invalid files are
/// fallen back from silently).
pub fn get_redirect_url(contents: Option<&str>) -> (r: String)
    ensures
        r@ == spec_chosen_redirect_url(match contents {
            Some(u) => Some(u@),
            None => None,
        }),
{
    match contents {
        Some(u) => {
            if get_redirect_host(u).is_some() {
                String::from_str(u)
            } else {
                String::from_str(default_redirect_url())
            }
        },
        None => String::from_str(default_redirect_url()),
    }
}

/// An ASCII whitespace character.
pub open spec fn is_ws(c: char) -> bool {
    c == ' ' || c == '\n' || c == '\r' || c == '\t'
}

/// The sequence with trailing ASCII whitespace removed.
pub open spec fn trim_end_spec(s: Seq<char>) -> Seq<char>
    decreases s.len(),
{
    if s.len() > 0 && is_ws(s.last()) {
        trim_end_spec(s.drop_last())
    } else {
        s
    }
}

/// Strips trailing ASCII whitespace.
pub fn trim_end(s: &str) -> (r: String)
    ensures
        r@ == trim_end_spec(s@),
{
    let n = s.unicode_len();
    let mut e: usize = n;
    proof {
        assert(s@.take(n as int) =~= s@);
    }
    while e > 0 && is_ws_char(s.get_char(e - 1))
        invariant
            n == s@.len(),
            0 <= e <= n,
            trim_end_spec(s@) == trim_end_spec(s@.take(e as int)),
        decreases e,
    {
        proof {
            assert(s@.take(e as int).drop_last() =~= s@.take(e - 1));
        }
        e -= 1;
    }
    let r = s.substring_char(0, e);
    proof {
        assert(s@.take(e as int) =~= r@);
    }
    String::from_str(r)
}

/// Decides whether a character is ASCII whitespace.
pub fn is_ws_char(c: char) -> (r: bool)
    ensures
        r == is_ws(c),
{
    c == ' ' || c == '\n' || c == '\r' || c == '\t'
}

/// The validity window that a given window-file content selects.
pub open spec fn spec_chosen_window(contents: Option<Seq<char>>) -> u64 {
    match contents {
        Some(s) => (if trim_end_spec(s).len() > 0 && all_digits(trim_end_spec(s)) && dec_value(
            trim_end_spec(s),
        ) <= u64::MAX {
            dec_value(trim_end_spec(s)) as u64
        } else {
            DEFAULT_RULE_VALIDITY_SECS
        }),
        None => DEFAULT_RULE_VALIDITY_SECS,
    }
}

/// Reads the grant validity window from the window file's contents: a decimal
/// number of seconds, with trailing whitespace tolerated; a missing or
/// malformed file falls back to the built-in default.
pub fn get_validity_window(contents: Option<&str>) -> (r: u64)
    ensures
        r == spec_chosen_window(match contents {
            Some(s) => Some(s@),
            None => None,
        }),
{
    match contents {
        Some(s) => {
            let t = trim_end(s);
            match parse_u64(t.as_str()) {
                Some(v) => v,
                None => DEFAULT_RULE_VALIDITY_SECS,
            }
        },
        None => DEFAULT_RULE_VALIDITY_SECS,
    }
}

/// The immutable per-process configuration: redirect target and its host,
/// the gateway's identity, and the live session secret. Constructed once at
/// startup and then only read.
pub struct SentryConfig {
    /// The upstream portal's base URL; redirect targets are built on it.
    pub redirect_url: String,
    /// Host component of `redirect_url`, used to recognise portal-bound and
    /// portal-originated requests.
    pub redirect_host: String,
    /// The device identity announced to the portal.
    pub pylon: String,
    /// The live session secret.
    pub secret: String,
}

impl SentryConfig {
    /// The configuration is internally consistent: the redirect URL is valid,
    /// the host is its host component, and the secret has the fixed length
    /// and alphabet.
    pub open spec fn wf(self) -> bool {
        &&& valid_redirect_url(self.redirect_url@)
        &&& is_host_of(self.redirect_url@, self.redirect_host@)
        &&& self.secret@.len() == SECRET_LENGTH
        &&& all_alnum(self.secret@)
    }

    /// Builds the configuration from the device identity and the redirect-URL
    /// file's contents, generating a fresh session secret. Fails only when
    /// even the selected redirect URL yields no host.
    pub fn new(pylon: String, url_file_contents: Option<&str>) -> (r: Option<SentryConfig>)
        ensures
            match r {
                Some(c) => {
                    &&& c.wf()
                    &&& c.pylon@ == pylon@
                    &&& c.redirect_url@ == spec_chosen_redirect_url(
                        match url_file_contents {
                            Some(u) => Some(u@),
                            None => None,
                        },
                    )
                },
                None => !valid_redirect_url(
                    spec_chosen_redirect_url(
                        match url_file_contents {
                            Some(u) => Some(u@),
                            None => None,
                        },
                    ),
                ),
            },
    {
        let redirect_url = get_redirect_url(url_file_contents);
        match get_redirect_host(redirect_url.as_str()) {
            Some(redirect_host) => {
                let secret = create_secret();
                Some(
                    SentryConfig {
                        redirect_url,
                        redirect_host,
                        pylon,
                        secret,
                    },
                )
            },
            None => None,
        }
    }
}

} // verus!
