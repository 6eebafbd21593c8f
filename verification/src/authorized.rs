//! The per-request access decision.
//!
//! A request is first checked against the public-path patterns; a match
//! allows it through without credentials. Otherwise its `Authorization`
//! header must carry the Basic scheme: base64 of `login:password`, split
//! on the first colon. The login's stored record is looked up and the
//! password verified against it; every failure along the way collapses
//! into one rejection, so a caller learns nothing about why.

use vstd::prelude::*;

use crate::config::Authentication;
use crate::hash::argon2_verifies;
use crate::hash::phc_parses;
use crate::hash::verify_password;
use crate::pattern::any_glob_matches;
use crate::pattern::any_match;
use crate::text::str_eq;
use base64::Engine;
use vstd::string::StrSliceExecFns;
use vstd::utf8::decode_utf8;
use vstd::utf8::valid_utf8;

verus! {

/// The identity of a caller whose credentials verified: the login name.
#[derive(Debug)]
pub struct Authorized {
    pub login: String,
}

/// The decision for one request.
#[derive(Debug)]
pub enum Access {
    /// The path is public: no credential check, no identity.
    Allowed,
    /// Credentials were required and verified.
    Authenticated(Authorized),
    /// Credentials were required and are missing or wrong.
    Rejected,
}

/// What the STANDARD base64 engine decodes a string to, if anything.
pub uninterp spec fn base64_decoded(s: Seq<char>) -> Option<Seq<u8>>;

/// Relies on base64's STANDARD engine `decode`: the outcome depends on
/// the input string alone.
#[verifier::external_body]
fn b64_decode(s: &str) -> (r: Option<Vec<u8>>)
    ensures
        r is Some <==> base64_decoded(s@) is Some,
        r matches Some(v) ==> base64_decoded(s@) == Some(v@),
{
    base64::engine::general_purpose::STANDARD.decode(s).ok()
}

/// Relies on String::from_utf8: it succeeds exactly on valid UTF-8 and
/// decodes those bytes.
#[verifier::external_body]
fn bytes_to_string(v: Vec<u8>) -> (r: Option<String>)
    ensures
        r is Some <==> valid_utf8(v@),
        r matches Some(s) ==> s@ == decode_utf8(v@),
{
    String::from_utf8(v).ok()
}

/// A sequence split on its first colon: the part before and the part
/// after, or nothing when it has no colon.
pub open spec fn spec_split_colon(s: Seq<char>) -> Option<(Seq<char>, Seq<char>)>
    decreases s.len(),
{
    if s.len() == 0 {
        None
    } else if s[0] == ':' {
        Some((Seq::empty(), s.skip(1)))
    } else {
        match spec_split_colon(s.skip(1)) {
            None => None,
            Some(p) => Some((seq![s[0]] + p.0, p.1)),
        }
    }
}

proof fn lemma_split_colon_none(s: Seq<char>)
    requires
        forall|j: int| 0 <= j < s.len() ==> s[j] != ':',
    ensures
        spec_split_colon(s) is None,
    decreases s.len(),
{
    if s.len() > 0 {
        assert(forall|j: int| 0 <= j < s.skip(1).len() ==> s.skip(1)[j] == s[j + 1]);
        lemma_split_colon_none(s.skip(1));
    }
}

proof fn lemma_split_colon_at(s: Seq<char>, i: int)
    requires
        0 <= i < s.len(),
        s[i] == ':',
        forall|j: int| 0 <= j < i ==> s[j] != ':',
    ensures
        spec_split_colon(s) == Some((s.take(i), s.skip(i + 1))),
    decreases i,
{
    if i == 0 {
        assert(s.take(0) =~= Seq::<char>::empty());
    } else {
        assert(s.skip(1)[i - 1] == s[i]);
        assert(forall|j: int| 0 <= j < i - 1 ==> s.skip(1)[j] == s[j + 1]);
        lemma_split_colon_at(s.skip(1), i - 1);
        assert(seq![s[0]] + s.skip(1).take(i - 1) =~= s.take(i));
        assert(s.skip(1).skip(i) =~= s.skip(i + 1));
    }
}

/// The record stored for a login, scanning the entries front to back.
pub open spec fn spec_lookup(entries: Seq<(String, String)>, login: Seq<char>) -> Option<Seq<char>>
    decreases entries.len(),
{
    if entries.len() == 0 {
        None
    } else if entries[0].0@ == login {
        Some(entries[0].1@)
    } else {
        spec_lookup(entries.skip(1), login)
    }
}

/// Looks a login up in the credential entries.
pub fn lookup_record<'a>(entries: &'a Vec<(String, String)>, login: &str) -> (r: Option<&'a String>)
    ensures
        match r {
            Some(record) => spec_lookup(entries@, login@) == Some(record@),
            None => spec_lookup(entries@, login@) is None,
        },
{
    let n = entries.len();
    let mut i: usize = 0;
    proof {
        assert(entries@.skip(0) =~= entries@);
    }
    while i < n
        invariant
            i <= n,
            n == entries@.len(),
            spec_lookup(entries@, login@) == spec_lookup(entries@.skip(i as int), login@),
        decreases n - i,
    {
        proof {
            assert(entries@.skip(i as int)[0] == entries@[i as int]);
            assert(entries@.skip(i as int).skip(1) =~= entries@.skip(i as int + 1));
        }
        if str_eq(entries[i].0.as_str(), login) {
            return Some(&entries[i].1);
        }
        i = i + 1;
    }
    proof {
        assert(entries@.skip(n as int).len() == 0);
    }
    None
}

/// The login a Basic-Auth header value authenticates against the
/// credential entries, if any: the value must carry the `Basic ` scheme,
/// its remainder must decode as base64 to valid UTF-8 holding a colon,
/// the login before the first colon must be on file, and the password
/// after it must verify against the stored record.
pub open spec fn credential_outcome(header: Seq<char>, entries: Seq<(String, String)>) -> Option<
    Seq<char>,
> {
    if !(header.len() >= 6 && header.subrange(0, 6) == "Basic "@) {
        None
    } else {
        match base64_decoded(header.skip(6)) {
            None => None,
            Some(bytes) => if !valid_utf8(bytes) {
                None
            } else {
                match spec_split_colon(decode_utf8(bytes)) {
                    None => None,
                    Some(lp) => match spec_lookup(entries, lp.0) {
                        None => None,
                        Some(record) => if phc_parses(record) && argon2_verifies(lp.1, record) {
                            Some(lp.0)
                        } else {
                            None
                        },
                    },
                }
            },
        }
    }
}

/// Verifies the credentials a Basic-Auth header value carries against
/// the credential map.
pub fn verify_credentials(header: &str, auth: &Authentication) -> (r: Option<Authorized>)
    ensures
        match r {
            Some(a) => credential_outcome(header@, auth.login@) == Some(a.login@),
            None => credential_outcome(header@, auth.login@) is None,
        },
{
    let hn = header.unicode_len();
    proof {
        reveal_strlit("Basic ");
    }
    if hn < 6 {
        return None;
    }
    let mut k: usize = 0;
    let scheme = "Basic ";
    while k < 6
        invariant
            k <= 6,
            hn == header@.len(),
            hn >= 6,
            scheme@ =~= "Basic "@,
            scheme@.len() == 6,
            forall|j: int| 0 <= j < k ==> header@[j] == "Basic "@[j],
        decreases 6 - k,
    {
        proof {
            reveal_strlit("Basic ");
        }
        if header.get_char(k) != scheme.get_char(k) {
            proof {
                assert(header@.subrange(0, 6)[k as int] == header@[k as int]);
                assert(header@.subrange(0, 6) != "Basic "@);
            }
            return None;
        }
        k = k + 1;
    }
    proof {
        assert(header@.subrange(0, 6) =~= "Basic "@);
    }
    let encoded = header.substring_char(6, hn);
    proof {
        assert(encoded@ =~= header@.skip(6));
    }
    let bytes = match b64_decode(encoded) {
        Some(v) => v,
        None => {
            return None;
        },
    };
    let decoded = match bytes_to_string(bytes) {
        Some(s) => s,
        None => {
            return None;
        },
    };
    let dstr = decoded.as_str();
    let dn = dstr.unicode_len();
    let mut ci: usize = 0;
    while ci < dn
        invariant
            ci <= dn,
            dn == dstr@.len(),
            forall|j: int| 0 <= j < ci ==> dstr@[j] != ':',
        ensures
            ci <= dn,
            dn == dstr@.len(),
            forall|j: int| 0 <= j < ci ==> dstr@[j] != ':',
            ci < dn ==> dstr@[ci as int] == ':',
        decreases dn - ci,
    {
        if dstr.get_char(ci) == ':' {
            break ;
        }
        ci = ci + 1;
    }
    if ci == dn {
        proof {
            lemma_split_colon_none(dstr@);
        }
        return None;
    }
    proof {
        lemma_split_colon_at(dstr@, ci as int);
    }
    let login = dstr.substring_char(0, ci);
    let password = dstr.substring_char(ci + 1, dn);
    proof {
        assert(login@ =~= dstr@.take(ci as int));
        assert(password@ =~= dstr@.skip(ci as int + 1));
    }
    let record = match lookup_record(&auth.login, login) {
        Some(h) => h,
        None => {
            return None;
        },
    };
    match verify_password(password, record.as_str()) {
        Ok(true) => Some(Authorized { login: login.to_owned() }),
        _ => None,
    }
}

/// Decides one request: a public path is allowed through, otherwise the
/// header's credentials must verify, and anything else is rejected.
pub fn decide(auth: &Authentication, path: &str, header: Option<&str>) -> (r: Access)
    requires
        forall|i: int| 0 <= i < auth.public@.len() ==> auth.public@[i].wf(),
    ensures
        r is Allowed <==> any_glob_matches(auth.public@, path@),
        !any_glob_matches(auth.public@, path@) ==> match header {
            None => r is Rejected,
            Some(h) => match credential_outcome(h@, auth.login@) {
                Some(l) => r matches Access::Authenticated(a) && a.login@ == l,
                None => r is Rejected,
            },
        },
{
    if any_match(&auth.public, path) {
        return Access::Allowed;
    }
    match header {
        None => Access::Rejected,
        Some(h) => match verify_credentials(h, auth) {
            Some(a) => Access::Authenticated(a),
            None => Access::Rejected,
        },
    }
}

} // verus!
