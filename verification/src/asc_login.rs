//! The App Store Connect sign-in form: what it sends once filled in, and how testers are named.

use vstd::prelude::*;
use crate::text::{owned, concat, copy_string};
use crate::trimming::{is_trim_of, is_unquoted, is_quote, trim, trim_quotes, lemma_trim_unique,
    lemma_trimmed_unique};

verus! {

/// The sign-in details sent to `asc`, trimmed and with the profile name filled in.
#[derive(Clone, Debug, PartialEq, Eq)]
pub struct AscLoginRequest {
    pub profile_name: String,
    pub key_id: String,
    pub issuer_id: String,
    pub private_key_path: String,
}

/// The message shown when a required field is blank.
pub open spec fn missing_fields_message() -> Seq<char> {
    "Please fill in Key ID, Issuer ID, and Private Key Path"@
}

/// What signing in sends, from the trimmed fields (`path` also without surrounding quotes),
/// or the message shown instead.
pub open spec fn spec_login(profile: Seq<char>, key_id: Seq<char>, issuer_id: Seq<char>, path: Seq<char>)
    -> Result<(Seq<char>, Seq<char>, Seq<char>, Seq<char>), Seq<char>>
{
    if key_id.len() == 0 || issuer_id.len() == 0 || path.len() == 0 {
        Err(missing_fields_message())
    } else {
        Ok((if profile.len() == 0 { "default"@ } else { profile }, key_id, issuer_id, path))
    }
}

/// What signing in with the form's fields sends: each field trimmed, the key path also
/// without surrounding quotes, and a blank profile name read as `default`. A blank key ID,
/// issuer ID or key path is refused with a message.
pub fn prepare_asc_login(profile_name: &str, key_id: &str, issuer_id: &str, private_key_path: &str)
    -> (r: Result<AscLoginRequest, String>)
    ensures
        forall|p: Seq<char>, k: Seq<char>, i: Seq<char>, t: Seq<char>, q: Seq<char>|
            #![trigger is_trim_of(p, profile_name@), is_trim_of(k, key_id@), is_trim_of(i, issuer_id@), is_unquoted(q, t)]
            is_trim_of(p, profile_name@) && is_trim_of(k, key_id@) && is_trim_of(i, issuer_id@)
            && is_trim_of(t, private_key_path@) && is_unquoted(q, t)
            ==> match (r, spec_login(p, k, i, q)) {
                (Ok(req), Ok(v)) => (req.profile_name@, req.key_id@, req.issuer_id@, req.private_key_path@) == v,
                (Err(m), Err(v)) => m@ == v,
                _ => false,
            },
{
    let profile = trim(profile_name);
    let key = trim(key_id);
    let issuer = trim(issuer_id);
    let path_trimmed = trim(private_key_path);
    let path = trim_quotes(path_trimmed.as_str());
    proof {
        lemma_trim_unique(profile@, profile_name@);
        lemma_trim_unique(key@, key_id@);
        lemma_trim_unique(issuer@, issuer_id@);
        lemma_trim_unique(path_trimmed@, private_key_path@);
        lemma_trimmed_unique(path@, path_trimmed@, |c: char| is_quote(c));
    }
    if key.as_str().is_empty() || issuer.as_str().is_empty() || path.as_str().is_empty() {
        return Err(owned("Please fill in Key ID, Issuer ID, and Private Key Path"));
    }
    let profile = if profile.as_str().is_empty() { owned("default") } else { profile };
    Ok(AscLoginRequest { profile_name: profile, key_id: key, issuer_id: issuer, private_key_path: path })
}

/// The message shown when the private key file does not exist.
pub fn key_file_missing_message(private_key_path: &str) -> (r: String)
    ensures
        r@ == "Private key file not found: "@ + private_key_path@,
{
    concat("Private key file not found: ", private_key_path)
}

/// How a beta tester is named: first and last name, either alone, or `Anonymous`.
pub open spec fn spec_tester_name(first: Option<Seq<char>>, last: Option<Seq<char>>) -> Seq<char> {
    match (first, last) {
        (Some(f), Some(l)) => f + " "@ + l,
        (Some(f), None) => f,
        (None, Some(l)) => l,
        (None, None) => "Anonymous"@,
    }
}

pub fn format_tester_name(first_name: &Option<String>, last_name: &Option<String>) -> (r: String)
    ensures
        r@ == spec_tester_name(crate::text::opt_view(*first_name), crate::text::opt_view(*last_name)),
{
    match (first_name, last_name) {
        (Some(first), Some(last)) => {
            let with_space = concat(first.as_str(), " ");
            concat(with_space.as_str(), last.as_str())
        },
        (Some(first), None) => copy_string(first),
        (None, Some(last)) => copy_string(last),
        (None, None) => owned("Anonymous"),
    }
}

} // verus!
