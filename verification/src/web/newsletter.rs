//! Sending a newsletter to every confirmed subscriber.
//!
//! [`broadcast`] runs the guard and, if the operator is let through, plans one
//! email per confirmed subscriber. The caller sends them one by one and tells
//! the [`Dispatch`] how each went; a failed delivery never stops the next.
//! [`Dispatch::finish`] sums up.

use crate::app::AppState;
use crate::email_client::{email_views, OutboundEmail, OutboundEmailView, TransportError};
use crate::model::{
    confirmed_of, lemma_confirmed_listed_once, recipient_views, times_listed, well_formed,
    OperatorView, RecipientView, RecordView, SubscriptionStatus,
};
use crate::web::auth::error::AuthError;
use crate::web::auth::{authorize, authorize_spec, parse_header};
use vstd::prelude::*;
use vstd::string::*;

verus! {

/// A newsletter as text.
pub struct NewsletterView {
    pub title: Seq<char>,
    pub text: Seq<char>,
    pub html: Seq<char>,
}

/// A newsletter: its title and its body, plain and as HTML.
#[derive(Debug)]
pub struct Newsletter {
    pub title: String,
    pub text: String,
    pub html: String,
}

impl View for Newsletter {
    type V = NewsletterView;

    open spec fn view(&self) -> NewsletterView {
        NewsletterView { title: self.title@, text: self.text@, html: self.html@ }
    }
}

/// How the delivery to one recipient went.
#[derive(Debug, Clone, Copy, PartialEq, Eq, Structural)]
pub enum DeliveryOutcome {
    /// The transport took the email.
    Delivered,
    /// The transport did not take the email.
    Failed(TransportError),
    /// The email was never handed to the transport.
    NotAttempted,
}

/// One line of a report.
pub struct ReportEntryView {
    pub recipient: Seq<char>,
    pub outcome: DeliveryOutcome,
}

/// One line of a report: a recipient and how the delivery went.
#[derive(Debug)]
pub struct ReportEntry {
    pub recipient: String,
    pub outcome: DeliveryOutcome,
}

impl View for ReportEntry {
    type V = ReportEntryView;

    open spec fn view(&self) -> ReportEntryView {
        ReportEntryView { recipient: self.recipient@, outcome: self.outcome }
    }
}

/// What became of a newsletter: one entry for each recipient, in the order
/// of the planned emails.
#[derive(Debug)]
pub struct DispatchReport {
    pub entries: Vec<ReportEntry>,
}

impl View for DispatchReport {
    type V = Seq<ReportEntryView>;

    open spec fn view(&self) -> Seq<ReportEntryView> {
        Seq::new(self.entries@.len(), |i: int| self.entries@[i]@)
    }
}

/// Why a newsletter did not go out to everyone.
#[derive(Debug)]
pub enum DispatchError {
    /// The guard turned the request away; nothing was planned or sent.
    Auth(AuthError),
    /// Every delivery was planned, but not every one succeeded; the report
    /// says which.
    Delivery(DispatchReport),
}

/// The newsletter as an email to `to`.
pub open spec fn newsletter_email(
    sender: Seq<char>,
    to: RecipientView,
    newsletter: NewsletterView,
) -> OutboundEmailView {
    OutboundEmailView {
        from: sender,
        to: to.email,
        subject: newsletter.title,
        html_body: newsletter.html,
        text_body: newsletter.text,
    }
}

/// The newsletter as one email to each of `list`, in order.
pub open spec fn newsletter_emails(
    sender: Seq<char>,
    list: Seq<RecipientView>,
    newsletter: NewsletterView,
) -> Seq<OutboundEmailView> {
    Seq::new(list.len(), |i: int| newsletter_email(sender, list[i], newsletter))
}

/// How many of `emails` go to the address `to`.
pub open spec fn times_addressed(emails: Seq<OutboundEmailView>, to: Seq<char>) -> nat
    decreases emails.len(),
{
    if emails.len() == 0 {
        0
    } else if emails.last().to == to {
        times_addressed(emails.drop_last(), to) + 1
    } else {
        times_addressed(emails.drop_last(), to)
    }
}

/// How the `i`-th delivery went, given the outcomes told so far.
pub open spec fn outcome_at(outcomes: Seq<Result<(), TransportError>>, i: int) -> DeliveryOutcome {
    if 0 <= i < outcomes.len() {
        match outcomes[i] {
            Ok(()) => DeliveryOutcome::Delivered,
            Err(e) => DeliveryOutcome::Failed(e),
        }
    } else {
        DeliveryOutcome::NotAttempted
    }
}

/// The report on `emails` given the outcomes told so far.
pub open spec fn report_of(
    emails: Seq<OutboundEmailView>,
    outcomes: Seq<Result<(), TransportError>>,
) -> Seq<ReportEntryView> {
    Seq::new(
        emails.len(),
        |i: int| ReportEntryView { recipient: emails[i].to, outcome: outcome_at(outcomes, i) },
    )
}

/// Every entry of the report says that the email was delivered.
pub open spec fn all_delivered(report: Seq<ReportEntryView>) -> bool {
    forall|i: int| 0 <= i < report.len() ==> (#[trigger] report[i]).outcome
        == DeliveryOutcome::Delivered
}

/// The planned emails of one newsletter and what has been told about them.
#[derive(Debug)]
pub struct Dispatch {
    emails: Vec<OutboundEmail>,
    outcomes: Vec<Result<(), TransportError>>,
}

impl Dispatch {
    /// The planned emails, in order.
    pub closed spec fn emails(&self) -> Seq<OutboundEmailView> {
        email_views(self.emails@)
    }

    /// The outcomes told so far: the `i`-th is that of the `i`-th email.
    pub closed spec fn outcomes(&self) -> Seq<Result<(), TransportError>> {
        self.outcomes@
    }

    /// The email to send next: the first without an outcome. None is left
    /// once every email has one.
    pub fn next(&self) -> (email: Option<&OutboundEmail>)
        ensures
            match email {
                Some(e) => self.outcomes().len() < self.emails().len() && e@
                    == self.emails()[self.outcomes().len() as int],
                None => self.outcomes().len() >= self.emails().len(),
            },
    {
        let done = self.outcomes.len();
        if done < self.emails.len() {
            Some(&self.emails[done])
        } else {
            None
        }
    }

    /// Tells how the delivery of the email given by [`Dispatch::next`] went.
    /// Whatever the outcome, the email after it is next. Answers `false`, and
    /// keeps nothing, if no email was waiting.
    pub fn record(&mut self, outcome: Result<(), TransportError>) -> (recorded: bool)
        ensures
            final(self).emails() == old(self).emails(),
            recorded == (old(self).outcomes().len() < old(self).emails().len()),
            final(self).outcomes() == (if recorded {
                old(self).outcomes().push(outcome)
            } else {
                old(self).outcomes()
            }),
    {
        if self.outcomes.len() < self.emails.len() {
            self.outcomes.push(outcome);
            true
        } else {
            false
        }
    }

    /// Sums up. The newsletter went out only if every planned email was
    /// delivered; otherwise the report comes back as the error.
    #[verifier::loop_isolation(false)]
    pub fn finish(self) -> (r: Result<DispatchReport, DispatchError>)
        ensures
            match r {
                Ok(report) => report@ == report_of(self.emails(), self.outcomes()) && all_delivered(
                    report@,
                ),
                Err(DispatchError::Delivery(report)) => report@ == report_of(
                    self.emails(),
                    self.outcomes(),
                ) && !all_delivered(report@),
                Err(DispatchError::Auth(_)) => false,
            },
    {
        let n = self.emails.len();
        let mut entries: Vec<ReportEntry> = Vec::new();
        let mut complete = true;
        let mut i: usize = 0;
        let ghost target = report_of(self.emails(), self.outcomes());
        while i < n
            invariant
                i <= n,
                entries@.len() == i,
                forall|k: int| 0 <= k < i ==> (#[trigger] entries@[k])@ == target[k],
                complete == (forall|k: int|
                    0 <= k < i ==> (#[trigger] target[k]).outcome == DeliveryOutcome::Delivered),
            decreases n - i,
        {
            let outcome = if i < self.outcomes.len() {
                match self.outcomes[i] {
                    Ok(()) => DeliveryOutcome::Delivered,
                    Err(e) => DeliveryOutcome::Failed(e),
                }
            } else {
                DeliveryOutcome::NotAttempted
            };
            assert(outcome == target[i as int].outcome);
            if outcome != DeliveryOutcome::Delivered {
                complete = false;
            }
            entries.push(ReportEntry { recipient: self.emails[i].to.clone(), outcome });
            i += 1;
        }
        let report = DispatchReport { entries };
        assert(report@ =~= target);
        if complete {
            Ok(report)
        } else {
            Err(DispatchError::Delivery(report))
        }
    }
}

/// Handles a request to send `newsletter`.
///
/// The guard comes first: if it turns the request away, that is the result,
/// and nothing is planned. Otherwise one email is planned for each confirmed
/// subscriber, in the order of the records, and none for anyone else. The
/// store is only read.
#[verifier::loop_isolation(false)]
pub fn broadcast(state: &AppState, header: Option<&[u8]>, newsletter: &Newsletter) -> (r: Result<
    Dispatch,
    DispatchError,
>)
    ensures
        match authorize_spec(
            match header {
                Some(bytes) => Some(bytes@),
                None => None,
            },
            state.inner().model_mgr.operators(),
        ) {
            Err(e) => r matches Err(DispatchError::Auth(refused)) && refused@ == e,
            Ok(_) => r matches Ok(dispatch) && dispatch.emails() == newsletter_emails(
                state.inner().email_client.sender(),
                confirmed_of(state.inner().model_mgr@),
                newsletter@,
            ) && dispatch.outcomes() == Seq::<Result<(), TransportError>>::empty(),
        },
{
    match authorize(header, state.model_mgr()) {
        Err(e) => {
            return Err(DispatchError::Auth(e));
        },
        Ok(_) => {},
    }
    let recipients = state.model_mgr().list_confirmed();
    let n = recipients.len();
    let ghost target = newsletter_emails(
        state.inner().email_client.sender(),
        confirmed_of(state.inner().model_mgr@),
        newsletter@,
    );
    let mut emails: Vec<OutboundEmail> = Vec::new();
    let mut i: usize = 0;
    while i < n
        invariant
            i <= n,
            n == recipients@.len(),
            emails@.len() == i,
            forall|k: int| 0 <= k < i ==> (#[trigger] emails@[k])@ == target[k],
        decreases n - i,
    {
        let email = state.email_client().compose(
            recipients[i].email.as_str(),
            newsletter.title.as_str(),
            newsletter.html.as_str(),
            newsletter.text.as_str(),
        );
        assert(recipient_views(recipients@)[i as int] == recipients@[i as int]@);
        emails.push(email);
        i += 1;
    }
    let dispatch = Dispatch { emails, outcomes: Vec::new() };
    assert(recipient_views(recipients@).len() == n);
    assert(dispatch.emails() =~= target);
    Ok(dispatch)
}

/// A list of newsletter emails addresses someone as often as the list of
/// recipients names them.
pub proof fn lemma_addressed_as_listed(
    sender: Seq<char>,
    list: Seq<RecipientView>,
    newsletter: NewsletterView,
    to: Seq<char>,
)
    ensures
        times_addressed(newsletter_emails(sender, list, newsletter), to) == times_listed(list, to),
    decreases list.len(),
{
    let emails = newsletter_emails(sender, list, newsletter);
    if list.len() > 0 {
        assert(emails.drop_last() =~= newsletter_emails(sender, list.drop_last(), newsletter));
        assert(emails.last().to == list.last().email);
        lemma_addressed_as_listed(sender, list.drop_last(), newsletter, to);
    }
}

/// A newsletter is planned exactly once for each confirmed subscriber and
/// not at all for a pending one.
pub proof fn law_one_email_per_confirmed(
    s: Seq<RecordView>,
    sender: Seq<char>,
    newsletter: NewsletterView,
    i: int,
)
    requires
        well_formed(s),
        0 <= i < s.len(),
    ensures
        times_addressed(newsletter_emails(sender, confirmed_of(s), newsletter), s[i].email) == (
        if s[i].status == SubscriptionStatus::Confirmed {
            1nat
        } else {
            0nat
        }),
{
    lemma_confirmed_listed_once(s, i);
    lemma_addressed_as_listed(sender, confirmed_of(s), newsletter, s[i].email);
}

/// Without a header that the guard accepts, nothing is planned: whatever the
/// store holds, the guard's refusal is all that can come back.
pub proof fn law_guard_before_everything(header: Option<Seq<u8>>, ops: Seq<OperatorView>)
    requires
        parse_header(header) is Err,
    ensures
        authorize_spec(header, ops) is Err,
        authorize_spec(header, ops)->Err_0 == parse_header(header)->Err_0,
{
}

} // verus!
