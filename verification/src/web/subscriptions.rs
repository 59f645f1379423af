//! The life of a subscription: unknown, then pending, then confirmed.
//!
//! [`subscribe`] records a subscription and hands back the confirmation email
//! for the caller to send; [`conclude_subscription`] turns the transport's
//! answer into the answer to the subscriber. [`confirm`] follows a token to
//! its subscriber and confirms them.

use crate::app::{AppState, InternalState};
use crate::email_client::{OutboundEmail, OutboundEmailView, TransportError};
use crate::model::{
    after_confirm, after_insert, confirmed, has_email, has_token, index_of_email,
    index_of_token, insert_outcome, lemma_confirm_keeps_well_formed, lemma_email_names_one,
    lemma_id_names_one, lemma_insert_keeps_well_formed, lemma_token_names_one, pending_record,
    resolved, well_formed, RecordView, StoreError, SubscriptionStatus,
};
use crate::templ_manager::{
    confirmation_html_text, confirmation_plain_text, CONFIRMATION_SUBJECT,
};
use crate::token::{
    confirmation_link, link_text, resolve, resolve_spec, token_text, ConfirmationToken, TokenError,
};
use crate::web::data::{validate, validation_error, DeserSubscriber, ValidationError};
use vstd::prelude::*;
use vstd::string::*;

verus! {

/// Why a subscription request failed.
#[derive(Debug, Clone, Copy, PartialEq, Eq, Structural)]
pub enum SubscribeError {
    /// The data broke a rule; nothing was stored.
    Validation(ValidationError),
    /// The store failed; nothing was stored.
    Store(StoreError),
    /// The confirmation email could not be sent; the record stays pending.
    Transport(TransportError),
}

/// The confirmation email to `to`, carrying the link for `token`. Both bodies
/// carry the same link.
pub open spec fn confirmation_email(
    sender: Seq<char>,
    base_url: Seq<char>,
    to: Seq<char>,
    token: Seq<char>,
) -> OutboundEmailView {
    OutboundEmailView {
        from: sender,
        to,
        subject: CONFIRMATION_SUBJECT@,
        html_body: confirmation_html_text(link_text(base_url, token)),
        text_body: confirmation_plain_text(link_text(base_url, token)),
    }
}

/// The records after a subscription request: invalid data changes nothing,
/// valid data is inserted as pending.
pub open spec fn after_subscribe(
    s: Seq<RecordView>,
    name: Seq<char>,
    email: Seq<char>,
    id: u128,
    token: Seq<char>,
    now: u64,
) -> Seq<RecordView> {
    if validation_error(name, email) is Some {
        s
    } else {
        after_insert(s, pending_record(name, email, id, token, now))
    }
}

/// The token under which the subscriber of a successful request is stored:
/// the one offered if the record is new, the stored one if it is not.
pub open spec fn subscription_token(
    s: Seq<RecordView>,
    name: Seq<char>,
    email: Seq<char>,
    id: u128,
    token: Seq<char>,
    now: u64,
) -> Result<Seq<char>, SubscribeError> {
    match validation_error(name, email) {
        Some(e) => Err(SubscribeError::Validation(e)),
        None => match insert_outcome(s, pending_record(name, email, id, token, now)) {
            Err(e) => Err(SubscribeError::Store(e)),
            Ok(outcome) => Ok(outcome.token),
        },
    }
}

/// Handles a subscription request.
///
/// Invalid data is turned down and nothing is stored. Valid data is stored as
/// pending under `id`, with the token made from `entropy`; if the address is
/// already stored, its record is left alone and its token is used again. The
/// result is the confirmation email for the caller to send: the record is
/// kept whether or not sending succeeds.
pub fn subscribe(
    state: &mut AppState,
    raw: DeserSubscriber,
    id: u128,
    entropy: &[u8; 16],
    now: u64,
) -> (r: Result<OutboundEmail, SubscribeError>)
    requires
        old(state).wf(),
    ensures
        final(state).wf(),
        final(state).inner() == (InternalState {
            model_mgr: final(state).inner().model_mgr,
            ..old(state).inner()
        }),
        final(state).inner().model_mgr.operators() == old(state).inner().model_mgr.operators(),
        final(state).inner().model_mgr@ == after_subscribe(
            old(state).inner().model_mgr@,
            raw.name@,
            raw.email@,
            id,
            token_text(entropy@),
            now,
        ),
        match subscription_token(
            old(state).inner().model_mgr@,
            raw.name@,
            raw.email@,
            id,
            token_text(entropy@),
            now,
        ) {
            Err(e) => r == Err::<OutboundEmail, SubscribeError>(e),
            Ok(token) => r is Ok && r->Ok_0@ == confirmation_email(
                old(state).inner().email_client.sender(),
                old(state).inner().base_url@,
                raw.email@,
                token,
            ),
        },
{
    let subscriber = match validate(raw) {
        Err(e) => {
            return Err(SubscribeError::Validation(e));
        },
        Ok(subscriber) => subscriber,
    };
    let issued = ConfirmationToken::issue(id, entropy);
    let outcome = match state.model_mgr_mut().insert_pending(&subscriber, id, issued.token, now) {
        Err(e) => {
            return Err(SubscribeError::Store(e));
        },
        Ok(outcome) => outcome,
    };
    let link = confirmation_link(state.base_url(), outcome.token.as_str());
    let html = state.templ_mgr().confirmation_html(link.as_str());
    let text = state.templ_mgr().confirmation_text(link.as_str());
    Ok(
        state.email_client().compose(
            subscriber.email().as_str(),
            CONFIRMATION_SUBJECT,
            html.as_str(),
            text.as_str(),
        ),
    )
}

/// The answer to the subscriber once the transport has answered: a failed
/// delivery is a failure of the request, though the record is kept.
pub fn conclude_subscription(sent: Result<(), TransportError>) -> (r: Result<(), SubscribeError>)
    ensures
        r == (match sent {
            Ok(()) => Ok::<(), SubscribeError>(()),
            Err(e) => Err::<(), SubscribeError>(SubscribeError::Transport(e)),
        }),
{
    match sent {
        Ok(()) => Ok(()),
        Err(e) => Err(SubscribeError::Transport(e)),
    }
}

/// The records after a confirmation request for `token`.
pub open spec fn after_confirmation(s: Seq<RecordView>, token: Seq<char>) -> Seq<RecordView> {
    match resolved(s, token) {
        Ok(id) => after_confirm(s, id),
        Err(_) => s,
    }
}

/// Handles a confirmation request: the subscriber behind `token` is confirmed.
///
/// A token that no record holds fails with [`TokenError::TokenNotFound`] and
/// changes nothing. A token whose subscriber is already confirmed succeeds
/// and changes nothing.
pub fn confirm(state: &mut AppState, token: &str) -> (r: Result<(), TokenError>)
    requires
        old(state).wf(),
    ensures
        final(state).wf(),
        final(state).inner() == (InternalState {
            model_mgr: final(state).inner().model_mgr,
            ..old(state).inner()
        }),
        final(state).inner().model_mgr.operators() == old(state).inner().model_mgr.operators(),
        final(state).inner().model_mgr@ == after_confirmation(old(state).inner().model_mgr@, token@),
        r == (if has_token(old(state).inner().model_mgr@, token@) {
            Ok::<(), TokenError>(())
        } else {
            Err::<(), TokenError>(TokenError::TokenNotFound)
        }),
{
    let ghost s = state.inner().model_mgr@;
    let id = match resolve(state.model_mgr(), token) {
        Err(e) => {
            return Err(e);
        },
        Ok(id) => id,
    };
    proof {
        let i = index_of_token(s, token@);
        lemma_id_names_one(s, i);
    }
    match state.model_mgr_mut().confirm(id) {
        Ok(()) => Ok(()),
        Err(e) => Err(TokenError::Store(e)),
    }
}

/// After a successful subscription the store holds exactly one record for the
/// address, and unless the address was confirmed before, that record is
/// pending.
pub proof fn law_subscribe_stores_one_pending(
    s: Seq<RecordView>,
    name: Seq<char>,
    email: Seq<char>,
    id: u128,
    token: Seq<char>,
    now: u64,
)
    requires
        well_formed(s),
        subscription_token(s, name, email, id, token, now) is Ok,
        !(has_email(s, email) && s[index_of_email(s, email)].status
            == SubscriptionStatus::Confirmed),
    ensures
        ({
            let t = after_subscribe(s, name, email, id, token, now);
            &&& well_formed(t)
            &&& has_email(t, email)
            &&& t[index_of_email(t, email)].status == SubscriptionStatus::PendingConfirmation
            &&& forall|i: int|
                0 <= i < t.len() && (#[trigger] t[i]).email == email ==> i == index_of_email(
                    t,
                    email,
                )
        }),
{
    let rec = pending_record(name, email, id, token, now);
    let t = after_subscribe(s, name, email, id, token, now);
    lemma_insert_keeps_well_formed(s, rec);
    if has_email(s, email) {
        assert(t == s);
    } else {
        assert(t == s.push(rec));
        assert(t[s.len() as int].email == email);
        lemma_email_names_one(t, s.len() as int);
    }
    assert forall|i: int| 0 <= i < t.len() && (#[trigger] t[i]).email == email implies i
        == index_of_email(t, email) by {
        lemma_email_names_one(t, i);
    }
}

/// Subscribing is idempotent: after a successful subscription, a second
/// request for the same address succeeds too, changes nothing, and leads to
/// the same token.
pub proof fn law_subscribe_twice(
    s: Seq<RecordView>,
    email: Seq<char>,
    name1: Seq<char>,
    id1: u128,
    token1: Seq<char>,
    now1: u64,
    name2: Seq<char>,
    id2: u128,
    token2: Seq<char>,
    now2: u64,
)
    requires
        well_formed(s),
        subscription_token(s, name1, email, id1, token1, now1) is Ok,
        validation_error(name2, email) is None,
    ensures
        ({
            let t = after_subscribe(s, name1, email, id1, token1, now1);
            &&& subscription_token(t, name2, email, id2, token2, now2) == subscription_token(
                s,
                name1,
                email,
                id1,
                token1,
                now1,
            )
            &&& after_subscribe(t, name2, email, id2, token2, now2) == t
            &&& forall|i: int, j: int|
                0 <= i < t.len() && 0 <= j < t.len() && (#[trigger] t[i]).email == email
                    && (#[trigger] t[j]).email == email ==> i == j
        }),
{
    let rec1 = pending_record(name1, email, id1, token1, now1);
    let t = after_subscribe(s, name1, email, id1, token1, now1);
    lemma_insert_keeps_well_formed(s, rec1);
    if has_email(s, email) {
        assert(t == s);
    } else {
        assert(t == s.push(rec1));
        assert(t[s.len() as int].email == email);
        lemma_email_names_one(t, s.len() as int);
    }
    assert forall|i: int, j: int|
        0 <= i < t.len() && 0 <= j < t.len() && (#[trigger] t[i]).email == email && (
        #[trigger] t[j]).email == email implies i == j by {
        lemma_email_names_one(t, i);
        lemma_email_names_one(t, j);
    }
}

/// The token of a successful subscription confirms its subscriber, and
/// confirming a second time succeeds and changes nothing.
pub proof fn law_confirm_after_subscribe(
    s: Seq<RecordView>,
    name: Seq<char>,
    email: Seq<char>,
    id: u128,
    token: Seq<char>,
    now: u64,
)
    requires
        well_formed(s),
        subscription_token(s, name, email, id, token, now) is Ok,
    ensures
        ({
            let t = after_subscribe(s, name, email, id, token, now);
            let issued = subscription_token(s, name, email, id, token, now)->Ok_0;
            let u = after_confirmation(t, issued);
            &&& has_token(t, issued)
            &&& well_formed(u)
            &&& has_email(u, email)
            &&& u[index_of_email(u, email)].status == SubscriptionStatus::Confirmed
            &&& u[index_of_email(u, email)].token == issued
            &&& has_token(u, issued)
            &&& after_confirmation(u, issued) == u
        }),
{
    let rec = pending_record(name, email, id, token, now);
    let t = after_subscribe(s, name, email, id, token, now);
    let issued = subscription_token(s, name, email, id, token, now)->Ok_0;
    lemma_insert_keeps_well_formed(s, rec);
    let i: int = if has_email(s, email) {
        index_of_email(s, email)
    } else {
        s.len() as int
    };
    assert(t[i].email == email && t[i].token == issued);
    lemma_email_names_one(t, i);
    lemma_token_names_one(t, i);
    lemma_id_names_one(t, i);
    let u = after_confirmation(t, issued);
    assert(u == t.update(i, confirmed(t[i])));
    lemma_confirm_keeps_well_formed(t, t[i].id);
    assert(u[i].email == email && u[i].token == issued);
    lemma_email_names_one(u, i);
    lemma_token_names_one(u, i);
    lemma_id_names_one(u, i);
    assert(after_confirmation(u, issued) =~= u);
}

/// A token that no record holds confirms nobody.
pub proof fn law_unknown_token_confirms_nobody(s: Seq<RecordView>, token: Seq<char>)
    requires
        !has_token(s, token),
    ensures
        resolve_spec(resolved(s, token)) == Err::<u128, TokenError>(TokenError::TokenNotFound),
        after_confirmation(s, token) == s,
{
}

} // verus!
