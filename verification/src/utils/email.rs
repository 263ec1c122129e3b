use crate::error::ImportError;
use crate::utils::config::Config;
use lettre::address::AddressError;
use lettre::message::Mailbox;
use vstd::prelude::*;

verus! {

/// A mailbox as `lettre` has parsed it: handed on as it comes, never read.
#[verifier::external_type_specification]
#[verifier::external_body]
pub struct ExMailbox(Mailbox);

/// The error of `Mailbox::from_str`: handed on as it comes, never read.
#[verifier::external_type_specification]
#[verifier::external_body]
pub struct ExAddressError(AddressError);

/// Whether `lettre` reads a text as a mailbox.
pub uninterp spec fn mailbox_accepted(text: Seq<char>) -> bool;

/// Calls `Mailbox::from_str` of `lettre`. Whether it succeeds is a function
/// of the text alone; nothing is claimed about which texts it accepts.
#[verifier::external_body]
fn parse_mailbox(text: &str) -> (r: Result<Mailbox, AddressError>)
    ensures
        r is Ok <==> mailbox_accepted(text@),
{
    text.parse::<Mailbox>()
}

/// A notification that is ready to be handed to a mail relay.
#[derive(Clone, Debug, PartialEq, Eq)]
pub struct Email {
    pub from: String,
    pub to: String,
    pub subject: String,
    pub body: String,
    pub relay: String,
    pub port: u16,
}

/// A notification as a mathematical value.
pub struct EmailModel {
    pub from: Seq<char>,
    pub to: Seq<char>,
    pub subject: Seq<char>,
    pub body: Seq<char>,
    pub relay: Seq<char>,
    pub port: u16,
}

impl View for Email {
    type V = EmailModel;

    open spec fn view(&self) -> EmailModel {
        EmailModel {
            from: self.from@,
            to: self.to@,
            subject: self.subject@,
            body: self.body@,
            relay: self.relay@,
            port: self.port,
        }
    }
}

/// Whether a text is read as a mailbox.
pub fn is_mailbox(text: &str) -> (r: bool)
    ensures
        r == mailbox_accepted(text@),
{
    parse_mailbox(text).is_ok()
}

/// The notification for a subject and a body, given whether the sender and
/// the recipient of the configuration are mailboxes.
pub fn email_for(
    config: &Config,
    subject: String,
    body: String,
    from_is_mailbox: bool,
    to_is_mailbox: bool,
) -> (r: Result<Email, ImportError>)
    ensures
        from_is_mailbox && to_is_mailbox ==> r is Ok && r->Ok_0@ == (EmailModel {
            from: config@.smtp_from,
            to: config@.smtp_to,
            subject: subject@,
            body: body@,
            relay: config@.smtp_host,
            port: config@.smtp_port,
        }),
        !(from_is_mailbox && to_is_mailbox) ==> r is Err && r->Err_0
            == ImportError::InvalidConfiguration,
{
    if from_is_mailbox && to_is_mailbox {
        Ok(
            Email {
                from: config.smtp_from.clone(),
                to: config.smtp_to.clone(),
                subject,
                body,
                relay: config.smtp_host.clone(),
                port: config.smtp_port,
            },
        )
    } else {
        Err(ImportError::InvalidConfiguration)
    }
}

/// Makes the notification that the configuration's sender sends to its
/// recipient through its relay. Fails if either is not a mailbox.
pub fn prepare_email(config: &Config, subject: String, body: String) -> (r: Result<
    Email,
    ImportError,
>)
    ensures
        mailbox_accepted(config@.smtp_from) && mailbox_accepted(config@.smtp_to) ==> r is Ok
            && r->Ok_0@ == (EmailModel {
            from: config@.smtp_from,
            to: config@.smtp_to,
            subject: subject@,
            body: body@,
            relay: config@.smtp_host,
            port: config@.smtp_port,
        }),
        !(mailbox_accepted(config@.smtp_from) && mailbox_accepted(config@.smtp_to)) ==> r is Err
            && r->Err_0 == ImportError::InvalidConfiguration,
{
    let from_ok = is_mailbox(config.smtp_from.as_str());
    let to_ok = is_mailbox(config.smtp_to.as_str());
    email_for(config, subject, body, from_ok, to_ok)
}

} // verus!
