//! The message codec's encode side: building an outbound message from a
//! compose request through the outside message builder — a single-part
//! `text/plain` message when there are no attachments, a `multipart/mixed`
//! message otherwise.
//!
//! A built message is opaque to the verifier (its serialized form even
//! depends on the clock, through the inserted `Date` header), but what it
//! was built from is not: the named spec functions below model the
//! content a `MultiPart` and a `Message` carry — the text of the leading
//! body part, the attachment parts in order, the subject, and the
//! envelope addresses — and every builder wrapper states how it fills
//! them. The top-level contract thus pins the built message to the
//! request: its envelope, subject, body text and attachment parts are
//! exactly the request's.

use vstd::prelude::*;
use vstd::pervasive::unreached;
use crate::address::addr_valid;
use crate::address::parse_addr_domain;
use crate::address::user_wf;
use crate::address::User;
use crate::errors::MailError;

verus! {

#[verifier::external_type_specification]
#[verifier::external_body]
pub struct ExMessage(lettre::Message);

#[verifier::external_type_specification]
#[verifier::external_body]
pub struct ExMultiPart(lettre::message::MultiPart);

/// One attachment of a compose request: the path the user named, and the
/// file's bytes as read from disk by the outer layer.
pub struct AttachmentSource {
    pub path: String,
    pub data: Vec<u8>,
}

/// The MIME type the outside extension table guesses for a path
/// (`application/octet-stream` when unknown); depends on the path alone.
pub uninterp spec fn mime_of(path: Seq<char>) -> Seq<char>;

/// Whether the outside content-type parser accepts a MIME type string;
/// depends on the string alone.
pub uninterp spec fn ct_parses(mime: Seq<char>) -> bool;

// ---- what a multipart body holds ----

/// The text its leading `text/plain` body part was built from.
pub uninterp spec fn text_of(mp: lettre::message::MultiPart) -> Seq<char>;

/// The attachment parts it holds, in order: the filename, MIME type and
/// content bytes each one was built from.
pub uninterp spec fn parts_of(mp: lettre::message::MultiPart) -> Seq<(Seq<char>, Seq<char>, Seq<u8>)>;

// ---- what a built message holds ----

/// The sender its envelope names (derived from the `From` header alone).
pub uninterp spec fn msg_from_of(m: lettre::Message) -> Seq<char>;

/// The recipients its envelope names (derived from the `To` header
/// alone), in order.
pub uninterp spec fn msg_to_of(m: lettre::Message) -> Seq<Seq<char>>;

/// The text its `Subject` header was built from.
pub uninterp spec fn msg_subject_of(m: lettre::Message) -> Seq<char>;

/// The text its `text/plain` body part was built from.
pub uninterp spec fn msg_text_of(m: lettre::Message) -> Seq<char>;

/// The attachment parts it holds, in order, as in [`parts_of`].
pub uninterp spec fn msg_parts_of(m: lettre::Message) -> Seq<(Seq<char>, Seq<char>, Seq<u8>)>;

/// Relies on `mime_guess::from_path` and `MimeGuess::first_or_octet_stream`:
/// the guess depends on the path's extension alone.
#[verifier::external_body]
pub(crate) fn guess_mime(path: &str) -> (r: String)
    ensures
        r@ == mime_of(path@),
{
    mime_guess::from_path(path).first_or_octet_stream().to_string()
}

/// Relies on `lettre::Message::builder` with `from`, `to`, `subject` and
/// `body`: building a single-part `text/plain` message fails only when a
/// mandatory originator or recipient is missing, so with both addresses
/// valid it succeeds; the envelope is derived from the `From`/`To`
/// headers alone, so it names exactly the two given addresses, and the
/// subject and body carry the given texts.
#[verifier::external_body]
pub(crate) fn build_plain(from: &str, to: &str, subject: &str, body: &str) -> (r: Option<
    lettre::Message,
>)
    ensures
        addr_valid(from@) && addr_valid(to@) ==> r is Some,
        r is Some ==> {
            &&& msg_from_of(r->Some_0) == from@
            &&& msg_to_of(r->Some_0) == seq![to@]
            &&& msg_subject_of(r->Some_0) == subject@
            &&& msg_text_of(r->Some_0) == body@
            &&& msg_parts_of(r->Some_0) == Seq::<(Seq<char>, Seq<char>, Seq<u8>)>::empty()
        },
{
    let from_addr: lettre::Address = from.parse().ok()?;
    let to_addr: lettre::Address = to.parse().ok()?;
    lettre::Message::builder()
        .from(lettre::message::Mailbox::new(None, from_addr))
        .to(lettre::message::Mailbox::new(None, to_addr))
        .subject(subject)
        .header(lettre::message::header::ContentType::TEXT_PLAIN)
        .body(body.to_owned())
        .ok()
}

/// Relies on `lettre::message::MultiPart::mixed` and `SinglePart`: a
/// mixed multipart whose leading part is the plain-text body built from
/// the given text, holding no attachment parts yet; cannot fail.
#[verifier::external_body]
pub(crate) fn mixed_with_text(body: &str) -> (r: lettre::message::MultiPart)
    ensures
        text_of(r) == body@,
        parts_of(r) == Seq::<(Seq<char>, Seq<char>, Seq<u8>)>::empty(),
{
    lettre::message::MultiPart::mixed().singlepart(
        lettre::message::SinglePart::builder()
            .header(lettre::message::header::ContentType::TEXT_PLAIN)
            .body(body.to_owned()),
    )
}

/// Relies on `lettre::message::Attachment::new`/`body` and
/// `ContentType::parse`: appending an attachment part fails exactly when
/// the MIME type string does not parse; otherwise the returned multipart
/// is the given one with one more attachment part, built from the given
/// filename, MIME type and bytes.
#[verifier::external_body]
pub(crate) fn add_attachment(
    mp: lettre::message::MultiPart,
    filename: &str,
    mime: &str,
    data: Vec<u8>,
) -> (r: Option<lettre::message::MultiPart>)
    ensures
        r is Some <==> ct_parses(mime@),
        r is Some ==> text_of(r->Some_0) == text_of(mp) && parts_of(r->Some_0) == parts_of(
            mp,
        ).push((filename@, mime@, data@)),
{
    let ct = match lettre::message::header::ContentType::parse(mime) {
        Ok(c) => c,
        Err(_) => return None,
    };
    Some(mp.singlepart(lettre::message::Attachment::new(filename.to_owned()).body(data, ct)))
}

/// Relies on `lettre::Message::builder` with `multipart`: as for the
/// single-part builder, with both addresses valid it succeeds; the
/// message's envelope names the two given addresses, its subject carries
/// the given text, and its body is the given multipart.
#[verifier::external_body]
pub(crate) fn assemble_multipart(
    from: &str,
    to: &str,
    subject: &str,
    mp: lettre::message::MultiPart,
) -> (r: Option<lettre::Message>)
    ensures
        addr_valid(from@) && addr_valid(to@) ==> r is Some,
        r is Some ==> {
            &&& msg_from_of(r->Some_0) == from@
            &&& msg_to_of(r->Some_0) == seq![to@]
            &&& msg_subject_of(r->Some_0) == subject@
            &&& msg_text_of(r->Some_0) == text_of(mp)
            &&& msg_parts_of(r->Some_0) == parts_of(mp)
        },
{
    let from_addr: lettre::Address = from.parse().ok()?;
    let to_addr: lettre::Address = to.parse().ok()?;
    lettre::Message::builder()
        .from(lettre::message::Mailbox::new(None, from_addr))
        .to(lettre::message::Mailbox::new(None, to_addr))
        .subject(subject)
        .multipart(mp)
        .ok()
}

/// The attachment parts a compose request asks for, in order: each file's
/// path as the part's filename, the MIME type guessed from that path, and
/// the file's bytes.
pub open spec fn requested_parts(files: Seq<AttachmentSource>) -> Seq<(Seq<char>, Seq<char>, Seq<u8>)> {
    files.map_values(|f: AttachmentSource| (f.path@, mime_of(f.path@), f.data@))
}

/// Builds the outbound message of a compose request: rejects an invalid
/// recipient; without attachments builds the plain `text/plain` message,
/// otherwise a `multipart/mixed` message with one part per attachment in
/// order, its MIME type guessed from the path. The built message's
/// envelope, subject, body text and attachment parts are exactly the
/// request's.
pub fn build_message(
    user: &User,
    to: &str,
    subject: &str,
    body: &str,
    files: &Vec<AttachmentSource>,
) -> (r: Result<lettre::Message, MailError>)
    requires
        user_wf(*user),
    ensures
        match r {
            Ok(m) => {
                &&& addr_valid(to@)
                &&& (forall|i: int| 0 <= i < files@.len() ==> ct_parses(mime_of(files@[i].path@)))
                &&& msg_from_of(m) == user.email_addr@
                &&& msg_to_of(m) == seq![to@]
                &&& msg_subject_of(m) == subject@
                &&& msg_text_of(m) == body@
                &&& msg_parts_of(m) == requested_parts(files@)
            },
            Err(e) => {
                ||| (e == MailError::RecipientAddressInvalid && !addr_valid(to@))
                ||| (e == MailError::SendError && addr_valid(to@) && exists|i: int|
                    0 <= i < files@.len() && !ct_parses(mime_of(files@[i].path@)))
            },
        },
{
    if parse_addr_domain(to).is_none() {
        return Err(MailError::RecipientAddressInvalid);
    }
    if files.len() == 0 {
        proof {
            assert(requested_parts(files@) =~= Seq::<(Seq<char>, Seq<char>, Seq<u8>)>::empty());
        }
        match build_plain(user.email_addr.as_str(), to, subject, body) {
            Some(m) => Ok(m),
            None => unreached(),
        }
    } else {
        let mut mp = mixed_with_text(body);
        let n = files.len();
        let mut i: usize = 0;
        proof {
            assert(requested_parts(files@.take(0)) =~= Seq::<(Seq<char>, Seq<char>, Seq<u8>)>::empty());
        }
        while i < n
            invariant
                i <= n,
                n == files@.len(),
                user_wf(*user),
                addr_valid(to@),
                forall|j: int| 0 <= j < i ==> ct_parses(mime_of(files@[j].path@)),
                text_of(mp) == body@,
                parts_of(mp) == requested_parts(files@.take(i as int)),
            decreases n - i,
        {
            let mime = guess_mime(files[i].path.as_str());
            let data = files[i].data.clone();
            proof {
                assert(data@ =~= files@[i as int].data@);
            }
            mp = match add_attachment(mp, files[i].path.as_str(), mime.as_str(), data) {
                Some(m) => m,
                None => {
                    return Err(MailError::SendError);
                },
            };
            proof {
                assert(requested_parts(files@.take(i as int + 1)) =~= requested_parts(
                    files@.take(i as int),
                ).push((files@[i as int].path@, mime_of(files@[i as int].path@), files@[i as int].data@)));
            }
            i = i + 1;
        }
        proof {
            assert(files@.take(n as int) =~= files@);
        }
        match assemble_multipart(user.email_addr.as_str(), to, subject, mp) {
            Some(m) => Ok(m),
            None => unreached(),
        }
    }
}

} // verus!
