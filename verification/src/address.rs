//! Email addresses and the authenticated `User`: parsing and allow-listing
//! the address, and deriving the SMTP/IMAP host pair from its domain.

use vstd::prelude::*;
use vstd::string::*;
use crate::errors::MailError;
use crate::text::trim_str;
use crate::text::trimmed_of;

verus! {

/// Whether the outside address parser accepts `s` as an email address.
pub uninterp spec fn addr_valid(s: Seq<char>) -> bool;

/// The domain part of a valid address: what follows the last `@`.
pub uninterp spec fn addr_domain(s: Seq<char>) -> Seq<char>;

/// Relies on `lettre::Address` (`FromStr` and `Address::domain`): parsing
/// succeeds exactly on well-formed addresses, and the domain accessor
/// returns the part after the last `@`; both depend on the characters
/// alone.
#[verifier::external_body]
pub(crate) fn parse_addr_domain(s: &str) -> (r: Option<String>)
    ensures
        r is Some <==> addr_valid(s@),
        r is Some ==> r->Some_0@ == addr_domain(s@),
{
    match s.parse::<lettre::Address>() {
        Ok(a) => Some(a.domain().to_owned()),
        Err(_) => None,
    }
}

/// The allow-listed providers a session may be opened against.
pub open spec fn supported_domain(d: Seq<char>) -> bool {
    d == "qq.com"@ || d == "163.com"@ || d == "126.com"@
}

/// Whether `d` is one of the allow-listed provider domains.
pub fn is_supported_domain(d: &str) -> (r: bool)
    ensures
        r == supported_domain(d@),
{
    let dd: String = d.to_owned();
    dd == "qq.com".to_owned() || dd == "163.com".to_owned() || dd == "126.com".to_owned()
}

/// An authenticated account: the trimmed address, the host pair derived
/// from its domain, and the password. Built once per login; immutable for
/// the session's lifetime.
pub struct User {
    pub smtp_domain: String,
    pub imap_domain: String,
    pub email_addr: String,
    pub password: String,
}

/// What a well-formed `User` promises: the address parses, its domain is
/// allow-listed, and both hosts are derived from that domain.
pub open spec fn user_wf(u: User) -> bool {
    &&& addr_valid(u.email_addr@)
    &&& supported_domain(addr_domain(u.email_addr@))
    &&& u.smtp_domain@ == "smtp."@ + addr_domain(u.email_addr@)
    &&& u.imap_domain@ == "imap."@ + addr_domain(u.email_addr@)
}

impl User {
    /// Builds a user from a raw address and password. The address is
    /// trimmed, parsed, and its domain checked against the allow list;
    /// the SMTP and IMAP hosts are `"smtp." + domain` and
    /// `"imap." + domain`.
    pub fn build(email_addr: &str, password: String) -> (r: Result<User, MailError>)
        ensures
            match r {
                Ok(u) => {
                    &&& addr_valid(trimmed_of(email_addr@))
                    &&& supported_domain(addr_domain(trimmed_of(email_addr@)))
                    &&& u.email_addr@ == trimmed_of(email_addr@)
                    &&& u.smtp_domain@ == "smtp."@ + addr_domain(trimmed_of(email_addr@))
                    &&& u.imap_domain@ == "imap."@ + addr_domain(trimmed_of(email_addr@))
                    &&& u.password@ == password@
                    &&& user_wf(u)
                },
                Err(e) => {
                    ||| (e == MailError::InvalidAddress && !addr_valid(trimmed_of(email_addr@)))
                    ||| (e == MailError::UnsupportedDomain && addr_valid(trimmed_of(email_addr@))
                        && !supported_domain(addr_domain(trimmed_of(email_addr@))))
                },
            },
    {
        let trimmed = trim_str(email_addr);
        match parse_addr_domain(trimmed.as_str()) {
            None => Err(MailError::InvalidAddress),
            Some(domain) => {
                if !is_supported_domain(domain.as_str()) {
                    Err(MailError::UnsupportedDomain)
                } else {
                    let smtp = "smtp.".to_owned().concat(domain.as_str());
                    let imap = "imap.".to_owned().concat(domain.as_str());
                    Ok(User {
                        smtp_domain: smtp,
                        imap_domain: imap,
                        email_addr: trimmed,
                        password,
                    })
                }
            },
        }
    }
}

} // verus!
