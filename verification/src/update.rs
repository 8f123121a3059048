//! The update channel: which feed the updater polls.
use vstd::prelude::*;

verus! {

/// Feed of stable releases.
pub const STABLE_UPDATER_ENDPOINT: &'static str =
    "https://github.com/Captain-VII/poe2-waystone-analyzer-v3/releases/download/updater/latest.json";

/// Feed refreshed on every release, betas included.
pub const BETA_UPDATER_ENDPOINT: &'static str =
    "https://github.com/Captain-VII/poe2-waystone-analyzer-v3/releases/download/updater-beta/latest.json";

#[verifier::external_type_specification]
#[verifier::external_body]
pub struct ExUrl(url::Url);

/// What `url::Url::parse` makes of `input`: the parsed URL's serialization,
/// or the text of the parse error.
pub uninterp spec fn url_parse(input: Seq<char>) -> Result<Seq<char>, Seq<char>>;

/// The serialization of a parsed URL, as `url::Url::as_str` gives it.
pub uninterp spec fn url_text(u: url::Url) -> Seq<char>;

/// Trusted: calls `url::Url::parse`, and hands back the URL with its
/// serialization (`Url::as_str`), or the error's text (its `Display`). The
/// contract claims that both are a function of `input` alone, and that the
/// string handed back is the returned URL's own serialization.
#[verifier::external_body]
fn parse_url(input: &str) -> (r: Result<(url::Url, String), String>)
    ensures
        match r {
            Ok((u, s)) => url_parse(input@) == Ok::<Seq<char>, Seq<char>>(s@) && url_text(u)
                == s@,
            Err(m) => url_parse(input@) == Err::<Seq<char>, Seq<char>>(m@),
        },
{
    match url::Url::parse(input) {
        Ok(u) => {
            let s = u.as_str().to_string();
            Ok((u, s))
        },
        Err(e) => Err(e.to_string()),
    }
}

/// The feed of the chosen channel: the beta feed when `beta`, the stable
/// one otherwise.
pub fn updater_endpoint(beta: bool) -> (r: &'static str)
    ensures
        r@ == if beta {
            BETA_UPDATER_ENDPOINT@
        } else {
            STABLE_UPDATER_ENDPOINT@
        },
{
    if beta {
        BETA_UPDATER_ENDPOINT
    } else {
        STABLE_UPDATER_ENDPOINT
    }
}

/// The chosen channel's feed as a URL, with its serialization, or the parse
/// error's text. The URL handed back is the one parsed from that channel's
/// feed: its serialization is what the parser makes of the feed.
pub fn updater_endpoint_url(beta: bool) -> (r: Result<(url::Url, String), String>)
    ensures
        match r {
            Ok((u, s)) => url_parse(updater_endpoint_spec(beta)) == Ok::<Seq<char>, Seq<char>>(
                s@,
            ) && url_text(u) == s@,
            Err(m) => url_parse(updater_endpoint_spec(beta)) == Err::<Seq<char>, Seq<char>>(m@),
        },
{
    parse_url(updater_endpoint(beta))
}

/// The characters of the chosen channel's feed.
pub open spec fn updater_endpoint_spec(beta: bool) -> Seq<char> {
    if beta {
        BETA_UPDATER_ENDPOINT@
    } else {
        STABLE_UPDATER_ENDPOINT@
    }
}

} // verus!
