//! Redaction of sensitive values before they reach logs.
//!
//! Each helper keeps just enough of a value to recognise it — a short
//! prefix, a suffix, or a domain — and replaces the rest; a value too
//! short to redact partially is replaced outright.

use vstd::prelude::*;

use crate::strutil::{spec_count_char, spec_index_of, count_char, index_of};

verus! {

/// Wrapper marking a value whose printed form must never appear in logs;
/// wherever it would be shown, [`Redacted::redacted_text`] stands in.
#[derive(Clone)]
pub struct Redacted<T>(pub T);

impl<T> Redacted<T> {
    /// The only text a redacted value ever shows.
    pub fn redacted_text(&self) -> (r: String)
        ensures
            r@ == "[REDACTED]"@,
    {
        "[REDACTED]".to_owned()
    }
}

/// Redacts a ledger account address: the first four and last four
/// characters survive, anything eight characters or shorter is replaced
/// outright.
pub fn redact_account(account: &str) -> (r: String)
    ensures
        account@.len() <= 8 ==> r@ == "[REDACTED]"@,
        account@.len() > 8 ==> r@ == account@.take(4) + "..."@ + account@.skip(
            account@.len() - 4,
        ),
{
    let len = account.unicode_len();
    if len <= 8 {
        return "[REDACTED]".to_owned();
    }
    let mut s = account.substring_char(0, 4).to_owned();
    s.append("...");
    s.append(account.substring_char(len - 4, len));
    s
}

/// Redacts a transaction hash exactly as an account address.
pub fn redact_hash(hash: &str) -> (r: String)
    ensures
        hash@.len() <= 8 ==> r@ == "[REDACTED]"@,
        hash@.len() > 8 ==> r@ == hash@.take(4) + "..."@ + hash@.skip(hash@.len() - 4),
{
    let len = hash.unicode_len();
    if len <= 8 {
        return "[REDACTED]".to_owned();
    }
    let mut s = hash.substring_char(0, 4).to_owned();
    s.append("...");
    s.append(hash.substring_char(len - 4, len));
    s
}

/// Redacts a user identifier: everything after the first underscore —
/// or after the first four characters when there is none — becomes
/// asterisks; anything shorter is replaced outright.
pub fn redact_user_id(user_id: &str) -> (r: String)
    ensures
        ({
            let p = spec_index_of(user_id@, '_');
            if p < user_id@.len() {
                r@ == user_id@.take(p + 1) + "****"@
            } else if user_id@.len() > 4 {
                r@ == user_id@.take(4) + "****"@
            } else {
                r@ == "[REDACTED]"@
            }
        }),
{
    let len = user_id.unicode_len();
    let p = index_of(user_id, '_');
    if p < len {
        let mut s = user_id.substring_char(0, p + 1).to_owned();
        s.append("****");
        s
    } else if len > 4 {
        let mut s = user_id.substring_char(0, 4).to_owned();
        s.append("****");
        s
    } else {
        "[REDACTED]".to_owned()
    }
}

/// Redacts an email address: only the domain, from the first `@` on,
/// survives; a text without one is replaced outright.
pub fn redact_email(email: &str) -> (r: String)
    ensures
        ({
            let p = spec_index_of(email@, '@');
            if p < email@.len() {
                r@ == "****"@ + email@.skip(p)
            } else {
                r@ == "[REDACTED]"@
            }
        }),
{
    let len = email.unicode_len();
    let p = index_of(email, '@');
    if p < len {
        let mut s = "****".to_owned();
        s.append(email.substring_char(p, len));
        s
    } else {
        "[REDACTED]".to_owned()
    }
}

/// Redacts an IP address: a dotted quad keeps its first two octets, any
/// text with a colon keeps only its first segment, and anything else is
/// replaced outright.
pub fn redact_ip(ip: &str) -> (r: String)
    ensures
        ({
            let d1 = spec_index_of(ip@, '.');
            let d2 = d1 + 1 + spec_index_of(ip@.skip(d1 + 1), '.');
            let colon = spec_index_of(ip@, ':');
            if spec_count_char(ip@, '.') == 3 {
                r@ == ip@.take(d1) + "."@ + ip@.subrange(d1 + 1, d2) + ".*.*"@
            } else if colon < ip@.len() {
                r@ == ip@.take(colon) + ":****"@
            } else {
                r@ == "[REDACTED]"@
            }
        }),
{
    let len = ip.unicode_len();
    let dots = count_char(ip, '.');
    if dots == 3 {
        let d1 = index_of(ip, '.');
        proof {
            assert(spec_count_char(ip@, '.') > 0);
            assert(d1 < len) by {
                if d1 == len {
                    assert(forall|j: int| 0 <= j < ip@.len() ==> ip@[j] != '.');
                    lemma_count_zero(ip@, '.');
                }
            }
        }
        let rest = ip.substring_char(d1 + 1, len);
        let o = index_of(rest, '.');
        let d2 = d1 + 1 + o;
        proof {
            assert(rest@ == ip@.skip(d1 + 1));
            assert(ip@.subrange(d1 + 1, d2 as int) =~= rest@.take(o as int));
        }
        let mut s = ip.substring_char(0, d1).to_owned();
        s.append(".");
        s.append(rest.substring_char(0, o));
        s.append(".*.*");
        s
    } else {
        let colon = index_of(ip, ':');
        if colon < len {
            let mut s = ip.substring_char(0, colon).to_owned();
            s.append(":****");
            s
        } else {
            "[REDACTED]".to_owned()
        }
    }
}

proof fn lemma_count_zero(s: Seq<char>, c: char)
    requires
        forall|j: int| 0 <= j < s.len() ==> s[j] != c,
    ensures
        spec_count_char(s, c) == 0,
    decreases s.len(),
{
    if s.len() > 0 {
        assert(forall|j: int| 0 <= j < s.drop_last().len() ==> s.drop_last()[j] == s[j]);
        lemma_count_zero(s.drop_last(), c);
    }
}

/// Redacts an API key or token: only the first four characters survive;
/// anything four characters or shorter is replaced outright.
pub fn redact_token(token: &str) -> (r: String)
    ensures
        token@.len() > 4 ==> r@ == token@.take(4) + "****"@,
        token@.len() <= 4 ==> r@ == "[REDACTED]"@,
{
    let len = token.unicode_len();
    if len > 4 {
        let mut s = token.substring_char(0, 4).to_owned();
        s.append("****");
        s
    } else {
        "[REDACTED]".to_owned()
    }
}

} // verus!
