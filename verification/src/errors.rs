use vstd::prelude::*;

verus! {

/// The failure taxonomy of the session engine. Every user-initiated action
/// either completes successfully or surfaces exactly one of these values;
/// no error is swallowed except the best-effort IMAP logout.
#[derive(Clone, Copy, PartialEq, Eq, Structural, Debug)]
pub enum MailError {
    /// The login address could not be parsed as an email address.
    InvalidAddress,
    /// The address parsed, but its domain is not in the allow list.
    UnsupportedDomain,
    /// The SMTP handshake, authentication or connectivity test failed.
    SmtpConnectError,
    /// The IMAP connect or login failed.
    ImapConnectError,
    /// An action other than login arrived while no session was active.
    NoActiveSession,
    /// A raw message or a message identifier could not be decoded.
    ParseError,
    /// The recipient of an outgoing message is not a valid address.
    RecipientAddressInvalid,
    /// An attachment file referenced by a compose request could not be read.
    AttachmentReadError,
    /// An attachment could not be written under the target directory.
    AttachmentWriteError,
    /// The transport refused to send a composed message.
    SendError,
}

impl MailError {
    /// A stable, human-readable message for the UI layer.
    pub fn message(&self) -> (r: &'static str)
        ensures
            *self is InvalidAddress ==> r@ == "InvalidAddress: the email address could not be parsed"@,
            *self is UnsupportedDomain ==> r@ == "UnsupportedDomain: only an allow-listed provider is supported"@,
            *self is SmtpConnectError ==> r@ == "SmtpConnectError: could not connect to the SMTP server"@,
            *self is ImapConnectError ==> r@ == "ImapConnectError: could not connect to the IMAP server"@,
            *self is NoActiveSession ==> r@ == "NoActiveSession: log in before issuing this action"@,
            *self is ParseError ==> r@ == "ParseError: the message could not be decoded"@,
            *self is RecipientAddressInvalid ==> r@ == "RecipientAddressInvalid: the recipient is not a valid address"@,
            *self is AttachmentReadError ==> r@ == "AttachmentReadError: an attachment file could not be read"@,
            *self is AttachmentWriteError ==> r@ == "AttachmentWriteError: an attachment could not be written"@,
            *self is SendError ==> r@ == "SendError: the message could not be sent"@,
    {
        match self {
            MailError::InvalidAddress => "InvalidAddress: the email address could not be parsed",
            MailError::UnsupportedDomain => "UnsupportedDomain: only an allow-listed provider is supported",
            MailError::SmtpConnectError => "SmtpConnectError: could not connect to the SMTP server",
            MailError::ImapConnectError => "ImapConnectError: could not connect to the IMAP server",
            MailError::NoActiveSession => "NoActiveSession: log in before issuing this action",
            MailError::ParseError => "ParseError: the message could not be decoded",
            MailError::RecipientAddressInvalid => "RecipientAddressInvalid: the recipient is not a valid address",
            MailError::AttachmentReadError => "AttachmentReadError: an attachment file could not be read",
            MailError::AttachmentWriteError => "AttachmentWriteError: an attachment could not be written",
            MailError::SendError => "SendError: the message could not be sent",
        }
    }
}

} // verus!
