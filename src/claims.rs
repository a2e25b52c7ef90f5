//! Identity claims of a verified ID token, mapped from the identity
//! provider's claim set (read out as plain values by the application) into the
//! claims the service keeps, with localized claims taken in the user's locale.

use vstd::prelude::*;
use crate::tokens::TokenClaims;

verus! {

/// A claim given per locale: the value without a locale tag, and the values
/// tagged with a locale.
#[derive(Debug, Clone, PartialEq, Eq)]
pub struct LocalizedText {
    pub default: Option<String>,
    pub by_locale: Vec<(String, String)>,
}

/// The value of the first entry from `from` on whose locale is `locale`.
pub open spec fn tagged_value(entries: Seq<(String, String)>, locale: Seq<char>, from: int) -> Option<String>
    decreases entries.len() - from,
{
    if from < 0 || from >= entries.len() {
        None
    } else if entries[from].0@ == locale {
        Some(entries[from].1)
    } else {
        tagged_value(entries, locale, from + 1)
    }
}

/// A localized claim read in `locale`: the value tagged with that locale, or,
/// for a user without a locale, the untagged value.
pub open spec fn localized_value(text: Option<LocalizedText>, locale: Option<String>) -> Option<String> {
    match text {
        None => None,
        Some(t) => match locale {
            None => t.default,
            Some(l) => tagged_value(t.by_locale@, l@, 0),
        },
    }
}

/// Reads a localized claim in `locale`.
pub fn pick_localized(text: &Option<LocalizedText>, locale: &Option<String>) -> (r: Option<String>)
    ensures
        r == localized_value(*text, *locale),
{
    match text {
        None => None,
        Some(t) => match locale {
            None => match &t.default {
                Some(v) => Some(v.clone()),
                None => None,
            },
            Some(l) => {
                let mut i: usize = 0;
                while i < t.by_locale.len()
                    invariant
                        i <= t.by_locale@.len(),
                        localized_value(*text, *locale) == tagged_value(t.by_locale@, l@, 0),
                        tagged_value(t.by_locale@, l@, 0) == tagged_value(t.by_locale@, l@, i as int),
                    decreases t.by_locale@.len() - i,
                {
                    if t.by_locale[i].0.eq(l) {
                        let v = t.by_locale[i].1.clone();
                        assert(t.by_locale@[i as int].0@ == l@);
                        assert(tagged_value(t.by_locale@, l@, i as int) == Some(t.by_locale@[i as int].1));
                        return Some(v);
                    }
                    i = i + 1;
                }
                None
            },
        },
    }
}

/// The claims of a verified ID token, as the identity provider's claim set
/// gives them. Times are Unix seconds.
#[derive(Debug, Clone, PartialEq, Eq)]
pub struct IdTokenClaimSet {
    pub subject: String,
    pub email: Option<String>,
    pub email_verified: Option<bool>,
    pub name: Option<LocalizedText>,
    pub given_name: Option<LocalizedText>,
    pub family_name: Option<LocalizedText>,
    pub middle_name: Option<LocalizedText>,
    pub birthdate: Option<String>,
    pub phone_number: Option<String>,
    pub phone_number_verified: Option<bool>,
    pub preferred_username: Option<String>,
    pub profile: Option<LocalizedText>,
    pub picture: Option<LocalizedText>,
    /// The user's locale.
    pub locale: Option<String>,
    pub issue_time: i64,
    pub expiration: i64,
    pub auth_time: Option<i64>,
    pub auth_context_ref: Option<String>,
    pub auth_method_refs: Option<Vec<String>>,
    pub issuer: String,
    pub audiences: Vec<String>,
    pub nonce: Option<String>,
}

impl TokenClaims {
    /// The claims the service keeps: plain claims as they are, localized ones
    /// in the user's locale.
    pub fn from_id_token_claims(claims: IdTokenClaimSet) -> (r: TokenClaims)
        ensures
            r.subject == claims.subject,
            r.user_email == claims.email,
            r.email_verified == claims.email_verified,
            r.username == localized_value(claims.name, claims.locale),
            r.given_name == localized_value(claims.given_name, claims.locale),
            r.family_name == localized_value(claims.family_name, claims.locale),
            r.middle_name == localized_value(claims.middle_name, claims.locale),
            r.birth_date == claims.birthdate,
            r.phone == claims.phone_number,
            r.phone_verified == claims.phone_number_verified,
            r.preferred_username == claims.preferred_username,
            r.profile == localized_value(claims.profile, claims.locale),
            r.picture == localized_value(claims.picture, claims.locale),
            r.issue_at == claims.issue_time,
            r.expires_at == claims.expiration,
            r.last_auth_time == claims.auth_time,
            r.auth_context_ref == claims.auth_context_ref,
            r.auth_method_refs == claims.auth_method_refs,
            r.issuer == claims.issuer,
            r.audiences == claims.audiences,
            r.nonce == claims.nonce,
    {
        let username = pick_localized(&claims.name, &claims.locale);
        let given_name = pick_localized(&claims.given_name, &claims.locale);
        let family_name = pick_localized(&claims.family_name, &claims.locale);
        let middle_name = pick_localized(&claims.middle_name, &claims.locale);
        let profile = pick_localized(&claims.profile, &claims.locale);
        let picture = pick_localized(&claims.picture, &claims.locale);
        TokenClaims {
            subject: claims.subject,
            user_email: claims.email,
            email_verified: claims.email_verified,
            username,
            given_name,
            family_name,
            middle_name,
            birth_date: claims.birthdate,
            phone: claims.phone_number,
            phone_verified: claims.phone_number_verified,
            preferred_username: claims.preferred_username,
            profile,
            picture,
            issue_at: claims.issue_time,
            expires_at: claims.expiration,
            last_auth_time: claims.auth_time,
            auth_context_ref: claims.auth_context_ref,
            auth_method_refs: claims.auth_method_refs,
            issuer: claims.issuer,
            audiences: claims.audiences,
            nonce: claims.nonce,
        }
    }
}

} // verus!
