//! What goes to the email transport: the settings of the client and the
//! requests that it composes. Sending is left to the caller, who reports
//! back with a [`TransportError`] or with success.

use crate::text::concat;
use crate::web::data::SubscriberEmail;
use vstd::prelude::*;
use vstd::string::*;

verus! {

/// The path of the transport's endpoint for sending one email.
pub const EMAIL_PATH: &'static str = "/email";

/// Why the transport did not take an email.
#[derive(Debug, Clone, Copy, PartialEq, Eq, Structural)]
pub enum TransportError {
    /// No answer came within the client's timeout.
    Timeout,
    /// The transport answered with a refusal.
    Rejected,
    /// The transport could not be reached.
    Unreachable,
}

/// One email as the transport is asked to send it.
pub struct OutboundEmailView {
    pub from: Seq<char>,
    pub to: Seq<char>,
    pub subject: Seq<char>,
    pub html_body: Seq<char>,
    pub text_body: Seq<char>,
}

/// One email as the transport is asked to send it.
#[derive(Debug)]
pub struct OutboundEmail {
    pub from: String,
    pub to: String,
    pub subject: String,
    pub html_body: String,
    pub text_body: String,
}

impl View for OutboundEmail {
    type V = OutboundEmailView;

    open spec fn view(&self) -> OutboundEmailView {
        OutboundEmailView {
            from: self.from@,
            to: self.to@,
            subject: self.subject@,
            html_body: self.html_body@,
            text_body: self.text_body@,
        }
    }
}

/// The views of a list of emails, in order.
pub open spec fn email_views(list: Seq<OutboundEmail>) -> Seq<OutboundEmailView> {
    Seq::new(list.len(), |i: int| list[i]@)
}

/// The settings under which emails are sent.
#[derive(Debug)]
pub struct EmailClient {
    url: String,
    sender: SubscriberEmail,
    auth_token: String,
    timeout_millis: u64,
}

impl EmailClient {
    /// The base URL of the transport.
    pub closed spec fn url(&self) -> Seq<char> {
        self.url@
    }

    /// The address that emails are sent from.
    pub closed spec fn sender(&self) -> Seq<char> {
        self.sender@
    }

    /// The token that the transport asks for.
    pub closed spec fn auth_token(&self) -> Seq<char> {
        self.auth_token@
    }

    /// How long to wait for the transport, in milliseconds.
    pub closed spec fn timeout_millis(&self) -> u64 {
        self.timeout_millis
    }

    /// Settings for a transport at `url`, sending as `sender`.
    pub fn new(url: String, sender: SubscriberEmail, auth_token: String, timeout_millis: u64) -> (client:
        Self)
        ensures
            client.url() == url@,
            client.sender() == sender@,
            client.auth_token() == auth_token@,
            client.timeout_millis() == timeout_millis,
    {
        EmailClient { url, sender, auth_token, timeout_millis }
    }

    /// The base URL of the transport.
    pub fn base_url(&self) -> (url: &str)
        ensures
            url@ == self.url(),
    {
        self.url.as_str()
    }

    /// The address that emails are sent from.
    pub fn sender_address(&self) -> (sender: &SubscriberEmail)
        ensures
            sender@ == self.sender(),
    {
        &self.sender
    }

    /// The token that the transport asks for.
    pub fn token(&self) -> (token: &str)
        ensures
            token@ == self.auth_token(),
    {
        self.auth_token.as_str()
    }

    /// How long to wait for the transport, in milliseconds.
    pub fn timeout(&self) -> (millis: u64)
        ensures
            millis == self.timeout_millis(),
    {
        self.timeout_millis
    }

    /// Where one email is posted to: the base URL followed by [`EMAIL_PATH`].
    pub fn endpoint(&self) -> (url: String)
        ensures
            url@ == self.url() + EMAIL_PATH@,
    {
        concat(self.url.as_str(), EMAIL_PATH)
    }

    /// The request for one email from the configured sender.
    pub fn compose(&self, to: &str, subject: &str, html_body: &str, text_body: &str) -> (email:
        OutboundEmail)
        ensures
            email@ == (OutboundEmailView {
                from: self.sender(),
                to: to@,
                subject: subject@,
                html_body: html_body@,
                text_body: text_body@,
            }),
    {
        OutboundEmail {
            from: self.sender.as_str().to_owned(),
            to: to.to_owned(),
            subject: subject.to_owned(),
            html_body: html_body.to_owned(),
            text_body: text_body.to_owned(),
        }
    }
}

} // verus!
