//! The bodies of the emails that the service writes itself.

use crate::text::concat;
use vstd::prelude::*;
use vstd::string::*;

verus! {

/// The subject of the confirmation email.
pub const CONFIRMATION_SUBJECT: &'static str = "Welcome!";

/// The HTML body of the confirmation email, up to the link.
pub const HTML_BEFORE_LINK: &'static str =
    "Welcome to our newsletter!<br />Click <a href=\"";

/// The HTML body of the confirmation email, after the link.
pub const HTML_AFTER_LINK: &'static str = "\">here</a> to confirm your subscription.";

/// The plain body of the confirmation email, up to the link.
pub const TEXT_BEFORE_LINK: &'static str = "Welcome to our newsletter!\nVisit ";

/// The plain body of the confirmation email, after the link.
pub const TEXT_AFTER_LINK: &'static str = " to confirm your subscription.";

/// The HTML body of a confirmation email that carries `link`.
pub open spec fn confirmation_html_text(link: Seq<char>) -> Seq<char> {
    HTML_BEFORE_LINK@ + link + HTML_AFTER_LINK@
}

/// The plain body of a confirmation email that carries `link`.
pub open spec fn confirmation_plain_text(link: Seq<char>) -> Seq<char> {
    TEXT_BEFORE_LINK@ + link + TEXT_AFTER_LINK@
}

/// Writes the bodies of confirmation emails.
#[derive(Debug)]
pub struct TemplateManager {}

impl TemplateManager {
    /// A manager with the built-in templates.
    pub fn init() -> Self {
        TemplateManager {  }
    }

    /// The HTML body of a confirmation email that carries `link`.
    pub fn confirmation_html(&self, link: &str) -> (body: String)
        ensures
            body@ == confirmation_html_text(link@),
    {
        let mut body = concat(HTML_BEFORE_LINK, link);
        body.append(HTML_AFTER_LINK);
        body
    }

    /// The plain body of a confirmation email that carries `link`.
    pub fn confirmation_text(&self, link: &str) -> (body: String)
        ensures
            body@ == confirmation_plain_text(link@),
    {
        let mut body = concat(TEXT_BEFORE_LINK, link);
        body.append(TEXT_AFTER_LINK);
        body
    }
}

} // verus!
