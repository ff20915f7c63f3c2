//! Validating article URLs before they are accepted for watching. The URL
//! grammar itself is the url crate's; only the parse-and-read-domain
//! composition the check needs is trusted, under a named result.

use crate::err::AppError;
use crate::text::str_eq;
use vstd::prelude::*;
use vstd::string::StringExecFns;

verus! {

/// What parsing the text as a URL yields for its host: the outer `None`
/// when the text is not an absolute URL, the inner `None` when the parsed
/// URL's host is not a domain name, else the domain itself. The url
/// crate's parser reads nothing but the text, so this is a function of it.
pub uninterp spec fn spec_url_domain(s: Seq<char>) -> Option<Option<Seq<char>>>;

/// Relies on url::Url::parse and url::Url::domain: parse the text and read
/// the parsed URL's domain — a deterministic composition, named by
/// [`spec_url_domain`]. An unparsable text reports the parse error's
/// description instead.
#[verifier::external_body]
fn url_domain_of(s: &str) -> (r: Result<Option<String>, String>)
    ensures
        match r {
            Ok(d) => spec_url_domain(s@) matches Some(x) && match (d, x) {
                (Some(a), Some(b)) => a@ == b,
                (None, None) => true,
                _ => false,
            },
            Err(_) => spec_url_domain(s@) is None,
        },
{
    match url::Url::parse(s) {
        Ok(u) => Ok(u.domain().map(str::to_owned)),
        Err(e) => Err(format!("{e}")),
    }
}

/// Accept exactly the URLs that parse and whose domain is the vendor's;
/// any other input is rejected with the reason.
pub fn check_url_valid(url: &str) -> (r: Result<(), AppError>)
    ensures
        match r {
            Ok(_) => spec_url_domain(url@) matches Some(d) && d matches Some(t) && t
                == "worldanvil.com"@,
            Err(e) => e matches AppError::BadRequest(m) && match spec_url_domain(url@) {
                None => true,
                Some(d) => match d {
                    None => m@ == "Url is missing domain"@,
                    Some(t) => t != "worldanvil.com"@ && m@
                        == "Non-worldanvil domains are not allowed"@,
                },
            },
        },
{
    let domain = match url_domain_of(url) {
        Ok(d) => d,
        Err(msg) => {
            return Err(AppError::BadRequest("Invalid url: ".to_owned().concat(msg.as_str())));
        },
    };
    match domain {
        None => Err(AppError::BadRequest("Url is missing domain".to_owned())),
        Some(domain) => {
            if !str_eq(domain.as_str(), "worldanvil.com") {
                Err(AppError::BadRequest("Non-worldanvil domains are not allowed".to_owned()))
            } else {
                Ok(())
            }
        },
    }
}

} // verus!
