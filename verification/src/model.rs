//! The subscriber store: every subscription, its state and its confirmation
//! token, and the operators who may send newsletters.
//!
//! [`ModelManager`] keeps the records in memory and is the only owner of
//! them. Its contracts are stated over a sequence of [`RecordView`]s, in the
//! order in which the subscriptions were first made.

use crate::text::same_text;
use crate::web::data::ValidSubscriber;
use vstd::prelude::*;
use vstd::string::*;

verus! {

/// Where a subscription stands.
#[derive(Debug, Clone, Copy, PartialEq, Eq, Structural)]
pub enum SubscriptionStatus {
    /// Signed up; the confirmation link has not been followed yet.
    PendingConfirmation,
    /// The confirmation link was followed; newsletters go out to this one.
    Confirmed,
}

impl SubscriptionStatus {
    /// The name under which the status is stored and shown.
    pub open spec fn text(self) -> Seq<char> {
        match self {
            SubscriptionStatus::PendingConfirmation => "pending_confirmation"@,
            SubscriptionStatus::Confirmed => "confirmed"@,
        }
    }

    /// The name under which the status is stored and shown.
    pub fn as_str(&self) -> (s: &'static str)
        ensures
            s@ == self.text(),
    {
        match self {
            SubscriptionStatus::PendingConfirmation => "pending_confirmation",
            SubscriptionStatus::Confirmed => "confirmed",
        }
    }
}

/// What can go wrong in the store.
#[derive(Debug, Clone, Copy, PartialEq, Eq, Structural)]
pub enum StoreError {
    /// Nothing is stored under the key that was asked for.
    NotFound,
    /// The write would break a uniqueness rule of the store.
    ConstraintViolation,
    /// The store could not be reached.
    Connectivity,
}

impl StoreError {
    /// What went wrong, in words.
    pub open spec fn text(self) -> Seq<char> {
        match self {
            StoreError::NotFound => "no such row"@,
            StoreError::ConstraintViolation => "a uniqueness constraint was violated"@,
            StoreError::Connectivity => "the store could not be reached"@,
        }
    }

    /// What went wrong, in words.
    pub fn message(&self) -> (s: &'static str)
        ensures
            s@ == self.text(),
    {
        match self {
            StoreError::NotFound => "no such row",
            StoreError::ConstraintViolation => "a uniqueness constraint was violated",
            StoreError::Connectivity => "the store could not be reached",
        }
    }
}

/// One subscription as the store holds it, token included.
pub struct RecordView {
    pub id: u128,
    pub email: Seq<char>,
    pub name: Seq<char>,
    pub status: SubscriptionStatus,
    pub subscribed_at: u64,
    pub token: Seq<char>,
}

/// One subscription as a reader of the store sees it.
#[derive(Debug)]
pub struct SubscriptionRecord {
    pub id: u128,
    pub email: String,
    pub name: String,
    pub status: SubscriptionStatus,
    pub subscribed_at: u64,
}

impl SubscriptionRecord {
    /// The record shows what `stored` holds.
    pub open spec fn shows(&self, stored: RecordView) -> bool {
        &&& self.id == stored.id
        &&& self.email@ == stored.email
        &&& self.name@ == stored.name
        &&& self.status == stored.status
        &&& self.subscribed_at == stored.subscribed_at
    }
}

/// Someone a newsletter goes to.
pub struct RecipientView {
    pub email: Seq<char>,
    pub name: Seq<char>,
}

/// Someone a newsletter goes to.
#[derive(Debug)]
pub struct Recipient {
    pub email: String,
    pub name: String,
}

impl View for Recipient {
    type V = RecipientView;

    open spec fn view(&self) -> RecipientView {
        RecipientView { email: self.email@, name: self.name@ }
    }
}

/// The views of a list of recipients, in order.
pub open spec fn recipient_views(list: Seq<Recipient>) -> Seq<RecipientView> {
    Seq::new(list.len(), |i: int| list[i]@)
}

/// An operator's name and password as the store holds them.
pub struct OperatorView {
    pub username: Seq<char>,
    pub password: Seq<char>,
}

/// An operator who may send newsletters.
#[derive(Debug)]
pub struct Operator {
    pub username: String,
    pub password: String,
}

impl View for Operator {
    type V = OperatorView;

    open spec fn view(&self) -> OperatorView {
        OperatorView { username: self.username@, password: self.password@ }
    }
}

/// What an insert gave back.
pub struct InsertView {
    pub id: u128,
    pub token: Seq<char>,
    pub created: bool,
}

/// What an insert gave back: the subscriber's id and token, and whether the
/// record is new.
#[derive(Debug)]
pub struct InsertOutcome {
    pub id: u128,
    pub token: String,
    pub created: bool,
}

impl View for InsertOutcome {
    type V = InsertView;

    open spec fn view(&self) -> InsertView {
        InsertView { id: self.id, token: self.token@, created: self.created }
    }
}

/// Some record of `s` has the address `email`.
pub open spec fn has_email(s: Seq<RecordView>, email: Seq<char>) -> bool {
    exists|i: int| 0 <= i < s.len() && (#[trigger] s[i]).email == email
}

/// Some record of `s` has the id `id`.
pub open spec fn has_id(s: Seq<RecordView>, id: u128) -> bool {
    exists|i: int| 0 <= i < s.len() && (#[trigger] s[i]).id == id
}

/// Some record of `s` has the token `token`.
pub open spec fn has_token(s: Seq<RecordView>, token: Seq<char>) -> bool {
    exists|i: int| 0 <= i < s.len() && (#[trigger] s[i]).token == token
}

/// The place of the record with the address `email`.
pub open spec fn index_of_email(s: Seq<RecordView>, email: Seq<char>) -> int {
    choose|i: int| 0 <= i < s.len() && (#[trigger] s[i]).email == email
}

/// The place of the record with the id `id`.
pub open spec fn index_of_id(s: Seq<RecordView>, id: u128) -> int {
    choose|i: int| 0 <= i < s.len() && (#[trigger] s[i]).id == id
}

/// The place of the record with the token `token`.
pub open spec fn index_of_token(s: Seq<RecordView>, token: Seq<char>) -> int {
    choose|i: int| 0 <= i < s.len() && (#[trigger] s[i]).token == token
}

/// No two records share an id, an address or a token. So an address names at
/// most one subscription, and a token resolves to at most one subscriber.
pub open spec fn well_formed(s: Seq<RecordView>) -> bool {
    forall|i: int, j: int|
        0 <= i < j < s.len() ==> {
            &&& (#[trigger] s[i]).id != (#[trigger] s[j]).id
            &&& s[i].email != s[j].email
            &&& s[i].token != s[j].token
        }
}

/// The record that a first subscription creates.
pub open spec fn pending_record(
    name: Seq<char>,
    email: Seq<char>,
    id: u128,
    token: Seq<char>,
    now: u64,
) -> RecordView {
    RecordView {
        id,
        email,
        name,
        status: SubscriptionStatus::PendingConfirmation,
        subscribed_at: now,
        token,
    }
}

/// The store after an insert of `rec`: `rec` is appended unless its address,
/// id or token is already taken, in which case nothing changes.
pub open spec fn after_insert(s: Seq<RecordView>, rec: RecordView) -> Seq<RecordView> {
    if has_email(s, rec.email) || has_id(s, rec.id) || has_token(s, rec.token) {
        s
    } else {
        s.push(rec)
    }
}

/// What an insert of `rec` gives back: the id and token of the record that
/// already has the address; else a constraint violation if the id or the
/// token is taken; else the id and token of `rec`, newly created.
pub open spec fn insert_outcome(s: Seq<RecordView>, rec: RecordView) -> Result<
    InsertView,
    StoreError,
> {
    if has_email(s, rec.email) {
        let existing = s[index_of_email(s, rec.email)];
        Ok(InsertView { id: existing.id, token: existing.token, created: false })
    } else if has_id(s, rec.id) || has_token(s, rec.token) {
        Err(StoreError::ConstraintViolation)
    } else {
        Ok(InsertView { id: rec.id, token: rec.token, created: true })
    }
}

/// `r` with its status set to confirmed.
pub open spec fn confirmed(r: RecordView) -> RecordView {
    RecordView { status: SubscriptionStatus::Confirmed, ..r }
}

/// The store after the subscriber `id` confirmed: that record is confirmed,
/// every other record is as before. Nothing changes if no record has the id.
pub open spec fn after_confirm(s: Seq<RecordView>, id: u128) -> Seq<RecordView> {
    if has_id(s, id) {
        s.update(index_of_id(s, id), confirmed(s[index_of_id(s, id)]))
    } else {
        s
    }
}

/// The subscriber that `token` resolves to.
pub open spec fn resolved(s: Seq<RecordView>, token: Seq<char>) -> Result<u128, StoreError> {
    if has_token(s, token) {
        Ok(s[index_of_token(s, token)].id)
    } else {
        Err(StoreError::NotFound)
    }
}

/// The recipient that a record stands for.
pub open spec fn recipient_of(r: RecordView) -> RecipientView {
    RecipientView { email: r.email, name: r.name }
}

/// The confirmed subscribers of `s`, in the order of their records.
pub open spec fn confirmed_of(s: Seq<RecordView>) -> Seq<RecipientView>
    decreases s.len(),
{
    if s.len() == 0 {
        Seq::empty()
    } else if s.last().status == SubscriptionStatus::Confirmed {
        confirmed_of(s.drop_last()).push(recipient_of(s.last()))
    } else {
        confirmed_of(s.drop_last())
    }
}

/// How many entries of `list` have the address `email`.
pub open spec fn times_listed(list: Seq<RecipientView>, email: Seq<char>) -> nat
    decreases list.len(),
{
    if list.len() == 0 {
        0
    } else if list.last().email == email {
        times_listed(list.drop_last(), email) + 1
    } else {
        times_listed(list.drop_last(), email)
    }
}

struct Entry {
    record: SubscriptionRecord,
    token: String,
}

impl Entry {
    spec fn view(&self) -> RecordView {
        RecordView {
            id: self.record.id,
            email: self.record.email@,
            name: self.record.name@,
            status: self.record.status,
            subscribed_at: self.record.subscribed_at,
            token: self.token@,
        }
    }
}

/// The store.
pub struct ModelManager {
    entries: Vec<Entry>,
    operators: Vec<Operator>,
}

impl ModelManager {
    /// The records, in the order in which they were created.
    pub closed spec fn view(&self) -> Seq<RecordView> {
        Seq::new(self.entries@.len(), |i: int| self.entries@[i]@)
    }

    /// The operators, in the order in which they were added.
    pub closed spec fn operators(&self) -> Seq<OperatorView> {
        Seq::new(self.operators@.len(), |i: int| self.operators@[i]@)
    }

    /// The store keeps its uniqueness rules.
    pub open spec fn wf(&self) -> bool {
        well_formed(self@)
    }

    /// A store without records and without operators.
    pub fn init() -> (store: Self)
        ensures
            store.wf(),
            store@ == Seq::<RecordView>::empty(),
            store.operators() == Seq::<OperatorView>::empty(),
    {
        let store = ModelManager { entries: Vec::new(), operators: Vec::new() };
        assert(store@ =~= Seq::<RecordView>::empty());
        assert(store.operators() =~= Seq::<OperatorView>::empty());
        store
    }

    /// Number of records.
    pub fn len(&self) -> (n: usize)
        ensures
            n == self@.len(),
    {
        self.entries.len()
    }

    /// Records a first subscription as pending, under `id` and with `token`.
    ///
    /// If the address already has a record, whatever its state, that record
    /// stays as it is and its id and token are given back. If the address is
    /// new but `id` or `token` is taken, nothing is written.
    #[verifier::loop_isolation(false)]
    pub fn insert_pending(
        &mut self,
        subscriber: &ValidSubscriber,
        id: u128,
        token: String,
        now: u64,
    ) -> (r: Result<InsertOutcome, StoreError>)
        requires
            old(self).wf(),
        ensures
            final(self).wf(),
            final(self).operators() == old(self).operators(),
            final(self)@ == after_insert(
                old(self)@,
                pending_record(subscriber.name_view(), subscriber.email_view(), id, token@, now),
            ),
            match r {
                Ok(outcome) => Ok::<InsertView, StoreError>(outcome@),
                Err(e) => Err::<InsertView, StoreError>(e),
            } == insert_outcome(
                old(self)@,
                pending_record(subscriber.name_view(), subscriber.email_view(), id, token@, now),
            ),
    {
        let email = subscriber.email().as_str();
        let name = subscriber.name().as_str();
        let n = self.entries.len();
        let ghost s = self@;
        let mut i: usize = 0;
        while i < n
            invariant
                n == self.entries@.len(),
                s == self@,
                self.wf(),
                i <= n,
                forall|k: int| 0 <= k < i ==> (#[trigger] s[k]).email != email@,
            decreases n - i,
        {
            if same_text(self.entries[i].record.email.as_str(), email) {
                let found = InsertOutcome {
                    id: self.entries[i].record.id,
                    token: self.entries[i].token.clone(),
                    created: false,
                };
                proof {
                    assert(s[i as int].email == email@);
                    let j = index_of_email(s, email@);
                    assert(j == i) by {
                        if j < i {
                            assert(s[j].email != s[i as int].email);
                        } else if j > i {
                            assert(s[i as int].email != s[j].email);
                        }
                    }
                }
                return Ok(found);
            }
            i += 1;
        }
        assert(!has_email(s, email@));
        i = 0;
        while i < n
            invariant
                n == self.entries@.len(),
                s == self@,
                i <= n,
                forall|k: int| 0 <= k < i ==> (#[trigger] s[k]).id != id,
                forall|k: int| 0 <= k < i ==> (#[trigger] s[k]).token != token@,
            decreases n - i,
        {
            if self.entries[i].record.id == id || same_text(
                self.entries[i].token.as_str(),
                token.as_str(),
            ) {
                proof {
                    assert(s[i as int].id == id || s[i as int].token == token@);
                }
                return Err(StoreError::ConstraintViolation);
            }
            i += 1;
        }
        assert(!has_id(s, id));
        assert(!has_token(s, token@));
        let returned = token.clone();
        let entry = Entry {
            record: SubscriptionRecord {
                id,
                email: email.to_owned(),
                name: name.to_owned(),
                status: SubscriptionStatus::PendingConfirmation,
                subscribed_at: now,
            },
            token,
        };
        let ghost rec = entry@;
        self.entries.push(entry);
        proof {
            assert(self@ =~= s.push(rec));
            assert(self.operators() =~= old(self).operators());
            assert forall|a: int, b: int| 0 <= a < b < self@.len() implies {
                &&& (#[trigger] self@[a]).id != (#[trigger] self@[b]).id
                &&& self@[a].email != self@[b].email
                &&& self@[a].token != self@[b].token
            } by {
                if b < s.len() {
                    assert(self@[a] == s[a] && self@[b] == s[b]);
                } else {
                    assert(self@[a] == s[a]);
                }
            }
        }
        Ok(InsertOutcome { id, token: returned, created: true })
    }

    /// Marks the subscriber `id` as confirmed. Confirming a confirmed
    /// subscriber changes nothing and succeeds.
    #[verifier::loop_isolation(false)]
    pub fn confirm(&mut self, id: u128) -> (r: Result<(), StoreError>)
        requires
            old(self).wf(),
        ensures
            final(self).wf(),
            final(self).operators() == old(self).operators(),
            final(self)@ == after_confirm(old(self)@, id),
            r == (if has_id(old(self)@, id) {
                Ok::<(), StoreError>(())
            } else {
                Err::<(), StoreError>(StoreError::NotFound)
            }),
    {
        let n = self.entries.len();
        let ghost s = self@;
        let mut i: usize = 0;
        while i < n
            invariant
                n == self.entries@.len(),
                s == self@,
                *self == *old(self),
                self.wf(),
                i <= n,
                forall|k: int| 0 <= k < i ==> (#[trigger] s[k]).id != id,
            decreases n - i,
        {
            if self.entries[i].record.id == id {
                let entry = &self.entries[i];
                let updated = Entry {
                    record: SubscriptionRecord {
                        id: entry.record.id,
                        email: entry.record.email.clone(),
                        name: entry.record.name.clone(),
                        status: SubscriptionStatus::Confirmed,
                        subscribed_at: entry.record.subscribed_at,
                    },
                    token: entry.token.clone(),
                };
                self.entries.set(i, updated);
                proof {
                    let j = index_of_id(s, id);
                    assert(s[i as int].id == id);
                    assert(j == i) by {
                        if j < i {
                            assert(s[j].id != s[i as int].id);
                        } else if j > i {
                            assert(s[i as int].id != s[j].id);
                        }
                    }
                    assert(self@ =~= s.update(i as int, confirmed(s[i as int])));
                    assert(self.operators() =~= old(self).operators());
                    lemma_confirm_keeps_well_formed(s, id);
                }
                return Ok(());
            }
            i += 1;
        }
        assert(!has_id(s, id));
        Err(StoreError::NotFound)
    }

    /// The subscriber that `token` stands for.
    #[verifier::loop_isolation(false)]
    pub fn find_by_token(&self, token: &str) -> (r: Result<u128, StoreError>)
        requires
            self.wf(),
        ensures
            r == resolved(self@, token@),
    {
        let n = self.entries.len();
        let mut i: usize = 0;
        while i < n
            invariant
                n == self.entries@.len(),
                self.wf(),
                i <= n,
                forall|k: int| 0 <= k < i ==> (#[trigger] self@[k]).token != token@,
            decreases n - i,
        {
            if same_text(self.entries[i].token.as_str(), token) {
                proof {
                    let s = self@;
                    assert(s[i as int].token == token@);
                    let j = index_of_token(s, token@);
                    assert(j == i) by {
                        if j < i {
                            assert(s[j].token != s[i as int].token);
                        } else if j > i {
                            assert(s[i as int].token != s[j].token);
                        }
                    }
                }
                return Ok(self.entries[i].record.id);
            }
            i += 1;
        }
        assert(!has_token(self@, token@));
        Err(StoreError::NotFound)
    }

    /// The record with the address `email`, if there is one.
    #[verifier::loop_isolation(false)]
    pub fn find_by_email(&self, email: &str) -> (r: Option<SubscriptionRecord>)
        requires
            self.wf(),
        ensures
            match r {
                Some(record) => has_email(self@, email@) && record.shows(
                    self@[index_of_email(self@, email@)],
                ),
                None => !has_email(self@, email@),
            },
    {
        let n = self.entries.len();
        let mut i: usize = 0;
        while i < n
            invariant
                n == self.entries@.len(),
                self.wf(),
                i <= n,
                forall|k: int| 0 <= k < i ==> (#[trigger] self@[k]).email != email@,
            decreases n - i,
        {
            if same_text(self.entries[i].record.email.as_str(), email) {
                let entry = &self.entries[i];
                proof {
                    let s = self@;
                    assert(s[i as int].email == email@);
                    let j = index_of_email(s, email@);
                    assert(j == i) by {
                        if j < i {
                            assert(s[j].email != s[i as int].email);
                        } else if j > i {
                            assert(s[i as int].email != s[j].email);
                        }
                    }
                }
                return Some(
                    SubscriptionRecord {
                        id: entry.record.id,
                        email: entry.record.email.clone(),
                        name: entry.record.name.clone(),
                        status: entry.record.status,
                        subscribed_at: entry.record.subscribed_at,
                    },
                );
            }
            i += 1;
        }
        None
    }

    /// The confirmed subscribers, in the order of their records.
    #[verifier::loop_isolation(false)]
    pub fn list_confirmed(&self) -> (list: Vec<Recipient>)
        ensures
            recipient_views(list@) == confirmed_of(self@),
    {
        let n = self.entries.len();
        let mut list: Vec<Recipient> = Vec::new();
        let mut i: usize = 0;
        while i < n
            invariant
                n == self.entries@.len(),
                i <= n,
                recipient_views(list@) == confirmed_of(self@.take(i as int)),
            decreases n - i,
        {
            let entry = &self.entries[i];
            let ghost before = recipient_views(list@);
            proof {
                assert(self@.take(i + 1).drop_last() =~= self@.take(i as int));
                assert(self@.take(i + 1).last() == self@[i as int]);
            }
            if entry.record.status == SubscriptionStatus::Confirmed {
                list.push(
                    Recipient { email: entry.record.email.clone(), name: entry.record.name.clone() },
                );
                assert(recipient_views(list@) =~= before.push(recipient_of(self@[i as int])));
            }
            i += 1;
        }
        assert(self@.take(n as int) =~= self@);
        list
    }

    /// Adds an operator who may send newsletters.
    pub fn add_operator(&mut self, operator: Operator)
        ensures
            final(self)@ == old(self)@,
            final(self).operators() == old(self).operators().push(operator@),
    {
        self.operators.push(operator);
        assert(self@ =~= old(self)@);
        assert(self.operators() =~= old(self).operators().push(operator@));
    }

    /// The password of the first operator named `username`, if there is one.
    #[verifier::loop_isolation(false)]
    pub fn find_operator(&self, username: &str) -> (r: Option<String>)
        ensures
            match r {
                Some(password) => Some(password@),
                None => None::<Seq<char>>,
            } == stored_password(self.operators(), username@),
    {
        let n = self.operators.len();
        let mut i: usize = 0;
        while i < n
            invariant
                n == self.operators@.len(),
                i <= n,
                forall|k: int| 0 <= k < i ==> (#[trigger] self.operators()[k]).username != username@,
            decreases n - i,
        {
            if same_text(self.operators[i].username.as_str(), username) {
                proof {
                    let ops = self.operators();
                    assert(is_first_operator(ops, username@, i as int));
                    let j = choose|j: int| is_first_operator(ops, username@, j);
                    assert(j == i) by {
                        if j < i {
                            assert(ops[j].username != username@);
                        } else if j > i {
                            assert(ops[i as int].username != username@);
                        }
                    }
                }
                return Some(self.operators[i].password.clone());
            }
            i += 1;
        }
        proof {
            let ops = self.operators();
            assert forall|j: int| !is_first_operator(ops, username@, j) by {
                if 0 <= j < ops.len() {
                    assert(ops[j].username != username@);
                }
            }
        }
        None
    }
}

/// The operator at `i` is named `username`, and none before it is.
pub open spec fn is_first_operator(ops: Seq<OperatorView>, username: Seq<char>, i: int) -> bool {
    &&& 0 <= i < ops.len()
    &&& ops[i].username == username
    &&& forall|k: int| 0 <= k < i ==> (#[trigger] ops[k]).username != username
}

/// The password stored for `username`: that of the first operator of that
/// name.
pub open spec fn stored_password(ops: Seq<OperatorView>, username: Seq<char>) -> Option<
    Seq<char>,
> {
    if exists|i: int| is_first_operator(ops, username, i) {
        Some(ops[choose|i: int| is_first_operator(ops, username, i)].password)
    } else {
        None
    }
}

/// In a well-formed store the record with a given address is the only one.
pub proof fn lemma_email_names_one(s: Seq<RecordView>, i: int)
    requires
        well_formed(s),
        0 <= i < s.len(),
    ensures
        has_email(s, s[i].email),
        index_of_email(s, s[i].email) == i,
{
    let j = index_of_email(s, s[i].email);
    if j < i {
        assert(s[j].email != s[i].email);
    } else if j > i {
        assert(s[i].email != s[j].email);
    }
}

/// In a well-formed store the record with a given id is the only one.
pub proof fn lemma_id_names_one(s: Seq<RecordView>, i: int)
    requires
        well_formed(s),
        0 <= i < s.len(),
    ensures
        has_id(s, s[i].id),
        index_of_id(s, s[i].id) == i,
{
    let j = index_of_id(s, s[i].id);
    if j < i {
        assert(s[j].id != s[i].id);
    } else if j > i {
        assert(s[i].id != s[j].id);
    }
}

/// In a well-formed store the record with a given token is the only one.
pub proof fn lemma_token_names_one(s: Seq<RecordView>, i: int)
    requires
        well_formed(s),
        0 <= i < s.len(),
    ensures
        has_token(s, s[i].token),
        index_of_token(s, s[i].token) == i,
{
    let j = index_of_token(s, s[i].token);
    if j < i {
        assert(s[j].token != s[i].token);
    } else if j > i {
        assert(s[i].token != s[j].token);
    }
}

/// An insert keeps the uniqueness rules.
pub proof fn lemma_insert_keeps_well_formed(s: Seq<RecordView>, rec: RecordView)
    requires
        well_formed(s),
    ensures
        well_formed(after_insert(s, rec)),
{
    let t = after_insert(s, rec);
    if t != s {
        assert forall|a: int, b: int| 0 <= a < b < t.len() implies {
            &&& (#[trigger] t[a]).id != (#[trigger] t[b]).id
            &&& t[a].email != t[b].email
            &&& t[a].token != t[b].token
        } by {
            if b < s.len() {
                assert(t[a] == s[a] && t[b] == s[b]);
            } else {
                assert(t[a] == s[a]);
            }
        }
    }
}

/// A record is never without a token that resolves to it.
pub proof fn law_token_resolves_to_its_record(s: Seq<RecordView>, i: int)
    requires
        well_formed(s),
        0 <= i < s.len(),
    ensures
        resolved(s, s[i].token) == Ok::<u128, StoreError>(s[i].id),
{
    lemma_token_names_one(s, i);
}

/// A token never resolves to a subscriber that has no record.
pub proof fn law_resolved_subscriber_exists(s: Seq<RecordView>, token: Seq<char>)
    requires
        resolved(s, token) is Ok,
    ensures
        has_id(s, resolved(s, token)->Ok_0),
{
    let i = index_of_token(s, token);
    assert(s[i].id == resolved(s, token)->Ok_0);
}

/// An insert leaves every record that was there as it was.
pub proof fn law_insert_keeps_records(s: Seq<RecordView>, rec: RecordView, i: int)
    requires
        0 <= i < s.len(),
    ensures
        after_insert(s, rec).len() >= s.len(),
        after_insert(s, rec)[i] == s[i],
{
}

/// A confirmation changes nothing but the state of one record, and a
/// confirmed record stays confirmed: no state ever goes back to pending.
pub proof fn law_status_never_reverts(s: Seq<RecordView>, id: u128, i: int)
    requires
        0 <= i < s.len(),
    ensures
        after_confirm(s, id).len() == s.len(),
        after_confirm(s, id)[i] == s[i] || after_confirm(s, id)[i] == confirmed(s[i]),
        s[i].status == SubscriptionStatus::Confirmed ==> after_confirm(s, id)[i] == s[i],
{
}

/// An address that no record has is not listed.
pub proof fn lemma_absent_not_listed(s: Seq<RecordView>, email: Seq<char>)
    requires
        !has_email(s, email),
    ensures
        times_listed(confirmed_of(s), email) == 0,
    decreases s.len(),
{
    if s.len() > 0 {
        let p = s.drop_last();
        assert forall|j: int| 0 <= j < p.len() implies (#[trigger] p[j]).email != email by {
            assert(s[j].email != email);
        }
        lemma_absent_not_listed(p, email);
        assert(s.last().email != email) by {
            assert(s[s.len() - 1].email != email);
        }
        let rest = confirmed_of(p);
        assert(rest.push(recipient_of(s.last())).drop_last() =~= rest);
    }
}

/// In a well-formed store, the list of confirmed subscribers holds the
/// address of each confirmed record exactly once, and the address of a
/// pending record not at all.
pub proof fn lemma_confirmed_listed_once(s: Seq<RecordView>, i: int)
    requires
        well_formed(s),
        0 <= i < s.len(),
    ensures
        times_listed(confirmed_of(s), s[i].email) == (if s[i].status
            == SubscriptionStatus::Confirmed {
            1nat
        } else {
            0nat
        }),
    decreases s.len(),
{
    let p = s.drop_last();
    let last = s.last();
    let rest = confirmed_of(p);
    assert(rest.push(recipient_of(last)).drop_last() =~= rest);
    assert forall|a: int, b: int| 0 <= a < b < p.len() implies {
        &&& (#[trigger] p[a]).id != (#[trigger] p[b]).id
        &&& p[a].email != p[b].email
        &&& p[a].token != p[b].token
    } by {
        assert(s[a].id != s[b].id);
    }
    if i == s.len() - 1 {
        assert forall|j: int| 0 <= j < p.len() implies (#[trigger] p[j]).email != last.email by {
            assert(s[j].email != s[i].email);
        }
        lemma_absent_not_listed(p, last.email);
    } else {
        assert(p[i] == s[i]);
        lemma_confirmed_listed_once(p, i);
        assert(s[i].email != s[s.len() - 1].email);
    }
}

/// Confirming keeps the uniqueness rules: it changes no id, address or token.
pub proof fn lemma_confirm_keeps_well_formed(s: Seq<RecordView>, id: u128)
    requires
        well_formed(s),
    ensures
        well_formed(after_confirm(s, id)),
        after_confirm(s, id).len() == s.len(),
{
    let t = after_confirm(s, id);
    if has_id(s, id) {
        let i = index_of_id(s, id);
        assert forall|a: int, b: int| 0 <= a < b < t.len() implies {
            &&& (#[trigger] t[a]).id != (#[trigger] t[b]).id
            &&& t[a].email != t[b].email
            &&& t[a].token != t[b].token
        } by {
            assert(s[a].id != s[b].id);
        }
    }
}

} // verus!
