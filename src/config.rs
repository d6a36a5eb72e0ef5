//! The monitor's settings and their validation at load time.

use vstd::prelude::*;

verus! {

/// The monitor's settings, as read from its configuration file.
#[derive(Debug, Clone)]
pub struct AppConfig {
    pub log_file: String,
    pub check_interval_seconds: u64,
    pub max_retries: u32,
    pub failure_threshold: u32,
    /// Comma-separated target URLs.
    pub ping_target: String,
}

/// Why a configuration was rejected.
#[derive(Debug, Clone, PartialEq, Eq)]
pub enum ConfigError {
    /// A target is not an absolute URL.
    InvalidUrl { target: String },
    /// A target's scheme is neither `http` nor `https`.
    UnsupportedScheme { target: String },
    /// The target list holds no target.
    NoTargets,
    ZeroRetries,
    ZeroThreshold,
    ZeroInterval,
}

/// The pieces of `s` between its commas, in order.
pub open spec fn split_on_comma(s: Seq<char>) -> Seq<Seq<char>>
    decreases s.len(),
{
    if s.len() == 0 {
        seq![Seq::<char>::empty()]
    } else {
        let rest = split_on_comma(s.drop_first());
        if s[0] == ',' {
            seq![Seq::<char>::empty()] + rest
        } else {
            rest.update(0, seq![s[0]] + rest[0])
        }
    }
}

/// What `str::trim` leaves of `s`.
pub uninterp spec fn trimmed(s: Seq<char>) -> Seq<char>;

/// Whether `url::Url::parse` accepts `s`.
pub uninterp spec fn url_parses(s: Seq<char>) -> bool;

/// The scheme `url::Url::scheme` reports for the URL parsed from `s`.
pub uninterp spec fn url_scheme_of(s: Seq<char>) -> Seq<char>;

/// Relies on `str::split` with a `char` pattern: the pieces between the
/// separators, in order, an empty string giving one empty piece.
#[verifier::external_body]
fn split_commas(s: &str) -> (r: Vec<String>)
    ensures
        r@.map_values(|p: String| p@) == split_on_comma(s@),
{
    s.split(',').map(|p| p.to_string()).collect()
}

/// Relies on `str::trim`: the piece without its leading and trailing whitespace.
#[verifier::external_body]
fn trim(s: &str) -> (r: String)
    ensures
        r@ == trimmed(s@),
{
    s.trim().to_string()
}

/// Relies on `url::Url::parse` and `url::Url::scheme`: `None` when the
/// string is not an absolute URL, else its scheme.
#[verifier::external_body]
fn url_scheme(s: &str) -> (r: Option<String>)
    ensures
        r is Some <==> url_parses(s@),
        r matches Some(scheme) ==> scheme@ == url_scheme_of(s@),
{
    match url::Url::parse(s) {
        Ok(u) => Some(u.scheme().to_string()),
        Err(_) => None,
    }
}

/// The targets listed in `s`: the comma-separated pieces, trimmed, the empty
/// ones dropped.
pub open spec fn target_list(s: Seq<char>) -> Seq<Seq<char>> {
    nonempty_trimmed(split_on_comma(s))
}

pub open spec fn nonempty_trimmed(ps: Seq<Seq<char>>) -> Seq<Seq<char>>
    decreases ps.len(),
{
    if ps.len() == 0 {
        seq![]
    } else {
        let rest = nonempty_trimmed(ps.drop_last());
        let t = trimmed(ps.last());
        if t.len() > 0 {
            rest.push(t)
        } else {
            rest
        }
    }
}

pub open spec fn scheme_allowed(scheme: Seq<char>) -> bool {
    scheme == "http"@ || scheme == "https"@
}

pub open spec fn target_valid(t: Seq<char>) -> bool {
    url_parses(t) && scheme_allowed(url_scheme_of(t))
}

pub open spec fn all_valid(ts: Seq<Seq<char>>) -> bool {
    forall|i: int| 0 <= i < ts.len() ==> target_valid(#[trigger] ts[i])
}

/// `ts[i]` is the first target that fails validation.
pub open spec fn first_invalid(ts: Seq<Seq<char>>, i: int) -> bool {
    &&& 0 <= i < ts.len()
    &&& !target_valid(ts[i])
    &&& forall|j: int| 0 <= j < i ==> target_valid(#[trigger] ts[j])
}

pub open spec fn strings_view(v: Seq<String>) -> Seq<Seq<char>> {
    v.map_values(|s: String| s@)
}

/// Splits a comma-separated target list into its trimmed, non-empty targets.
pub fn split_targets(s: &str) -> (r: Vec<String>)
    ensures
        strings_view(r@) == target_list(s@),
{
    let pieces = split_commas(s);
    let ghost ps = pieces@.map_values(|p: String| p@);
    let mut out: Vec<String> = Vec::new();
    let mut i: usize = 0;
    while i < pieces.len()
        invariant
            0 <= i <= pieces.len(),
            ps == pieces@.map_values(|p: String| p@),
            ps == split_on_comma(s@),
            strings_view(out@) == nonempty_trimmed(ps.subrange(0, i as int)),
        decreases pieces.len() - i,
    {
        let t = trim(pieces[i].as_str());
        let ghost before = out@;
        assert(ps.subrange(0, i + 1).drop_last() == ps.subrange(0, i as int));
        assert(ps.subrange(0, i + 1).last() == pieces@[i as int]@);
        if !t.as_str().is_empty() {
            out.push(t);
            assert(strings_view(out@) == strings_view(before).push(out@.last()@));
        }
        i = i + 1;
    }
    assert(ps.subrange(0, pieces@.len() as int) == ps);
    out
}

/// Checks every target in order: `Ok` when all are
/// absolute `http`/`https` URLs, else the error on the first that is not.
pub fn check_targets(targets: &Vec<String>) -> (r: Result<(), ConfigError>)
    ensures
        r is Ok <==> all_valid(strings_view(targets@)),
        r matches Err(ConfigError::InvalidUrl { target }) ==> exists|i: int|
            first_invalid(strings_view(targets@), i) && !url_parses(strings_view(targets@)[i])
                && target@ == strings_view(targets@)[i],
        r matches Err(ConfigError::UnsupportedScheme { target }) ==> exists|i: int|
            first_invalid(strings_view(targets@), i) && url_parses(strings_view(targets@)[i])
                && target@ == strings_view(targets@)[i],
        r is Err ==> r matches Err(ConfigError::InvalidUrl { .. }) || r matches Err(
            ConfigError::UnsupportedScheme { .. },
        ),
{
    let ghost ts = strings_view(targets@);
    let http = "http".to_string();
    let https = "https".to_string();
    proof {
        reveal_strlit("http");
        reveal_strlit("https");
    }
    let mut i: usize = 0;
    while i < targets.len()
        invariant
            0 <= i <= targets.len(),
            ts == strings_view(targets@),
            http@ == "http"@,
            https@ == "https"@,
            forall|j: int| 0 <= j < i ==> target_valid(#[trigger] ts[j]),
        decreases targets.len() - i,
    {
        let target = &targets[i];
        assert(ts[i as int] == target@);
        match url_scheme(target.as_str()) {
            None => {
                assert(first_invalid(ts, i as int));
                return Err(ConfigError::InvalidUrl { target: target.clone() });
            },
            Some(scheme) => {
                if !(scheme == http || scheme == https) {
                    assert(first_invalid(ts, i as int));
                    return Err(ConfigError::UnsupportedScheme { target: target.clone() });
                }
            },
        }
        i = i + 1;
    }
    Ok(())
}

impl AppConfig {
    /// The settings are usable: at least one target, every target an
    /// absolute `http`/`https` URL, every count and interval positive.
    pub open spec fn valid_spec(&self) -> bool {
        &&& all_valid(target_list(self.ping_target@))
        &&& target_list(self.ping_target@).len() > 0
        &&& self.max_retries > 0
        &&& self.failure_threshold > 0
        &&& self.check_interval_seconds > 0
    }

    /// Validates the settings and returns the target list. The targets are
    /// checked first, in order; then that there is one; then the retry
    /// budget, the failure threshold and the check interval, in that order.
    pub fn validate(&self) -> (r: Result<Vec<String>, ConfigError>)
        ensures
            r is Ok <==> self.valid_spec(),
            r matches Ok(v) ==> strings_view(v@) == target_list(self.ping_target@),
            r matches Err(ConfigError::InvalidUrl { target }) ==> exists|i: int|
                first_invalid(target_list(self.ping_target@), i) && !url_parses(
                    target_list(self.ping_target@)[i],
                ) && target@ == target_list(self.ping_target@)[i],
            r matches Err(ConfigError::UnsupportedScheme { target }) ==> exists|i: int|
                first_invalid(target_list(self.ping_target@), i) && url_parses(
                    target_list(self.ping_target@)[i],
                ) && target@ == target_list(self.ping_target@)[i],
            r matches Err(ConfigError::NoTargets) <==> all_valid(target_list(self.ping_target@))
                && target_list(self.ping_target@).len() == 0,
            r matches Err(ConfigError::ZeroRetries) <==> all_valid(target_list(self.ping_target@))
                && target_list(self.ping_target@).len() > 0 && self.max_retries == 0,
            r matches Err(ConfigError::ZeroThreshold) <==> all_valid(
                target_list(self.ping_target@),
            ) && target_list(self.ping_target@).len() > 0 && self.max_retries > 0
                && self.failure_threshold == 0,
            r matches Err(ConfigError::ZeroInterval) <==> all_valid(target_list(self.ping_target@))
                && target_list(self.ping_target@).len() > 0 && self.max_retries > 0
                && self.failure_threshold > 0 && self.check_interval_seconds == 0,
    {
        let targets = split_targets(self.ping_target.as_str());
        match check_targets(&targets) {
            Err(e) => Err(e),
            Ok(()) => {
                if targets.len() == 0 {
                    Err(ConfigError::NoTargets)
                } else if self.max_retries == 0 {
                    Err(ConfigError::ZeroRetries)
                } else if self.failure_threshold == 0 {
                    Err(ConfigError::ZeroThreshold)
                } else if self.check_interval_seconds == 0 {
                    Err(ConfigError::ZeroInterval)
                } else {
                    Ok(targets)
                }
            },
        }
    }
}

} // verus!
