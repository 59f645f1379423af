//! The context that every operation of the service works in.
//!
//! An [`AppState`] is built once and handed to each operation. Nothing
//! reaches the store, the templates or the email settings in any other way.

use crate::email_client::EmailClient;
use crate::model::ModelManager;
use crate::templ_manager::TemplateManager;
use vstd::prelude::*;
use vstd::string::*;

verus! {

/// What the context holds.
pub struct InternalState {
    pub model_mgr: ModelManager,
    pub templ_mgr: TemplateManager,
    pub email_client: EmailClient,
    pub base_url: String,
}

/// Application state containing all global data. Its parts are reached
/// through the accessors below.
pub struct AppState(InternalState);

impl AppState {
    /// What the context holds.
    pub closed spec fn inner(&self) -> InternalState {
        self.0
    }

    /// The store keeps its rules.
    pub open spec fn wf(&self) -> bool {
        self.inner().model_mgr.wf()
    }

    /// A context made of its four parts.
    pub fn new(
        model_mgr: ModelManager,
        templ_mgr: TemplateManager,
        email_client: EmailClient,
        base_url: String,
    ) -> (state: Self)
        ensures
            state.inner().model_mgr == model_mgr,
            state.inner().templ_mgr == templ_mgr,
            state.inner().email_client == email_client,
            state.inner().base_url == base_url,
    {
        AppState(InternalState { templ_mgr, model_mgr, email_client, base_url })
    }

    /// The store.
    pub fn model_mgr(&self) -> (store: &ModelManager)
        ensures
            *store == self.inner().model_mgr,
    {
        &self.0.model_mgr
    }

    /// The store, to be written to. Nothing else of the context changes.
    pub fn model_mgr_mut(&mut self) -> (store: &mut ModelManager)
        ensures
            *store == old(self).inner().model_mgr,
            final(self).inner() == (InternalState {
                model_mgr: *final(store),
                ..old(self).inner()
            }),
    {
        &mut self.0.model_mgr
    }

    /// The templates.
    pub fn templ_mgr(&self) -> (templates: &TemplateManager)
        ensures
            *templates == self.inner().templ_mgr,
    {
        &self.0.templ_mgr
    }

    /// The email settings.
    pub fn email_client(&self) -> (client: &EmailClient)
        ensures
            *client == self.inner().email_client,
    {
        &self.0.email_client
    }

    /// The URL under which the service is reached from outside.
    pub fn base_url(&self) -> (url: &str)
        ensures
            url@ == self.inner().base_url@,
    {
        self.0.base_url.as_str()
    }
}

} // verus!
