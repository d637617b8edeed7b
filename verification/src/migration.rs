//! The migration ledger: the append-only list of applied migrations that a
//! model keeps, and the guard that forbids writes out of migration order.

use vstd::prelude::*;
use vstd::string::{StrSliceExecFns, StringExecFns};
use crate::entity::Model;
use crate::index::holds;
use crate::keys::{ledger_key, ledger_text, migration_name, migration_text};
use crate::script::{ledger_in, take_ledger};
use crate::store::{
    respond, texts, ErrorView, Kind, Payload, PayloadView, Reply, ReplyView, Request, RequestView,
    StoreError, StoreModel,
};

verus! {

/// The list of names that a stored ledger decodes to, or `None` where the
/// bytes are no ledger.
pub uninterp spec fn cbor_names(bytes: Seq<u8>) -> Option<Seq<Seq<char>>>;

/// The bytes that a ledger is stored as, or `None` where it cannot be encoded.
pub uninterp spec fn names_cbor(names: Seq<Seq<char>>) -> Option<Seq<u8>>;

/// The views of an optional list of strings.
pub open spec fn names_of(names: Option<Vec<String>>) -> Option<Seq<Seq<char>>> {
    match names {
        Some(list) => Some(texts(list@)),
        None => None,
    }
}

/// The view of an optional byte vector.
pub open spec fn bytes_of(bytes: Option<Vec<u8>>) -> Option<Seq<u8>> {
    match bytes {
        Some(b) => Some(b@),
        None => None,
    }
}

/// Calls `ciborium::de::from_reader_with_recursion_limit` with a limit of
/// 2048 to read a list of strings from `bytes`. Nothing is proved of the
/// decoder: the contract only gives its result a name, which depends on the
/// bytes alone, and turns a decoding error into `None`.
#[verifier::external_body]
pub(crate) fn decode_names(bytes: &Vec<u8>) -> (names: Option<Vec<String>>)
    ensures
        names_of(names) == cbor_names(bytes@),
{
    match ciborium::de::from_reader_with_recursion_limit::<Vec<String>, _>(bytes.as_slice(), 2048) {
        Ok(list) => Some(list),
        Err(_) => None,
    }
}

/// Calls `ciborium::ser::into_writer` to write a list of strings into a fresh
/// byte vector. Nothing is proved of the encoder: the contract only gives its
/// result a name, which depends on the list alone, and turns an encoding
/// error into `None`.
#[verifier::external_body]
pub(crate) fn encode_names(names: &Vec<String>) -> (bytes: Option<Vec<u8>>)
    ensures
        bytes_of(bytes) == names_cbor(texts(names@)),
{
    let mut data: Vec<u8> = Vec::new();
    match ciborium::ser::into_writer(names, &mut data) {
        Ok(()) => Some(data),
        Err(_) => None,
    }
}

/// Whether `text` begins with `head`.
pub open spec fn begins_with(text: Seq<char>, head: Seq<char>) -> bool {
    head.len() <= text.len() && text.subrange(0, head.len() as int) == head
}

/// A model is superseded once its ledger names a migration that leads away
/// from it.
pub open spec fn superseded(ledger: Seq<Seq<char>>, model: Seq<char>) -> bool {
    exists|i: int| 0 <= i < ledger.len() && begins_with(#[trigger] ledger[i], model + "->"@)
}

/// A model is backfilled when it has no predecessor, or the migration from
/// its predecessor is in its ledger.
pub open spec fn backfilled(
    ledger: Seq<Seq<char>>,
    model: Seq<char>,
    predecessor: Option<Seq<char>>,
) -> bool {
    match predecessor {
        Some(p) => ledger.contains(migration_text(p, model)),
        None => true,
    }
}

/// Whether the strict guard lets a model with this ledger be written.
pub open spec fn may_mutate(
    ledger: Seq<Seq<char>>,
    model: Seq<char>,
    predecessor: Option<Seq<char>>,
) -> bool {
    !superseded(ledger, model) && backfilled(ledger, model, predecessor)
}

/// Whether `text` begins with `head`.
pub fn has_prefix(text: &str, head: &str) -> (yes: bool)
    ensures
        yes == begins_with(text@, head@),
{
    let n = head.unicode_len();
    if n > text.unicode_len() {
        return false;
    }
    let start = String::from_str(text.substring_char(0, n));
    let wanted = String::from_str(head);
    start == wanted
}

/// The strict guard before a write to `model`: it refuses with
/// `MigrationOrderError` where the ledger shows a migration away from the
/// model, or lacks the migration from its predecessor.
pub fn check_mutation(ledger: &Vec<String>, model: &str, predecessor: &Option<String>) -> (verdict:
    Result<(), StoreError>)
    ensures
        verdict is Ok <==> may_mutate(texts(ledger@), model@, crate::node::text_of(*predecessor)),
        verdict is Err ==> verdict == Err::<(), StoreError>(StoreError::MigrationOrderError),
{
    let mut away = String::from_str(model);
    away.append("->");
    let mut i: usize = 0;
    while i < ledger.len()
        invariant
            i <= ledger.len(),
            away@ == model@ + "->"@,
            forall|j: int| 0 <= j < i ==> !begins_with(#[trigger] texts(ledger@)[j], away@),
        decreases ledger.len() - i,
    {
        if has_prefix(ledger[i].as_str(), away.as_str()) {
            assert(begins_with(texts(ledger@)[i as int], model@ + "->"@));
            return Err(StoreError::MigrationOrderError);
        }
        i += 1;
    }
    match predecessor {
        Some(p) => {
            let name = migration_name(p.as_str(), model);
            if holds(ledger, name.as_str()) {
                Ok(())
            } else {
                Err(StoreError::MigrationOrderError)
            }
        },
        None => Ok(()),
    }
}

/// What `ensure_migrations` has to do for one model, once it has read the
/// model's ledger.
#[derive(Debug, Clone, PartialEq, Eq)]
pub enum MigrationPlan {
    /// The migration is in the ledger: nothing is to be done.
    UpToDate,
    /// The migration is due: the predecessor's own migrations are ensured
    /// first, then each of its live records is transformed and saved in a
    /// transaction of its own, and at last the ledger is sealed.
    Replay { ledger: Vec<String> },
}

/// The mathematical value of a [`MigrationPlan`].
pub enum PlanView {
    UpToDate,
    Replay { ledger: Seq<Seq<char>> },
}

impl View for MigrationPlan {
    type V = PlanView;

    open spec fn view(&self) -> PlanView {
        match *self {
            MigrationPlan::UpToDate => PlanView::UpToDate,
            MigrationPlan::Replay { ledger } => PlanView::Replay { ledger: texts(ledger@) },
        }
    }
}

/// The plan for a ledger: nothing where it names the migration already.
pub open spec fn plan_for(ledger: Seq<Seq<char>>, name: Seq<char>) -> PlanView {
    if ledger.contains(name) {
        PlanView::UpToDate
    } else {
        PlanView::Replay { ledger }
    }
}

/// The ledger once the migration `name` has been ensured: the name is
/// appended where it was missing.
pub open spec fn ensured(ledger: Seq<Seq<char>>, name: Seq<char>) -> Seq<Seq<char>> {
    if ledger.contains(name) {
        ledger
    } else {
        ledger.push(name)
    }
}

/// The read of the ledger of `model`.
pub fn ledger_request(model: &str) -> (request: Request)
    ensures
        request@ == (RequestView::Get { key: ledger_text(model@), kind: Kind::Bytes }),
{
    Request::Get { key: ledger_key(model), kind: Kind::Bytes }
}

/// Decides from the store's reply to the read of the ledger of `model`
/// whether the migration from `predecessor` is due. A model without a
/// ledger row has an empty ledger.
pub fn plan_migration(reply: Reply, predecessor: &str, model: &str) -> (out: Result<
    MigrationPlan,
    StoreError,
>)
    ensures
        match ledger_in(reply@) {
            Ok(names) => out is Ok && out->Ok_0@ == plan_for(
                names,
                migration_text(predecessor@, model@),
            ),
            Err(e) => out is Err && out->Err_0@ == e,
        },
{
    match take_ledger(reply) {
        Ok(ledger) => {
            let name = migration_name(predecessor, model);
            if holds(&ledger, name.as_str()) {
                Ok(MigrationPlan::UpToDate)
            } else {
                Ok(MigrationPlan::Replay { ledger })
            }
        },
        Err(e) => Err(e),
    }
}

/// What seals a migration: the write of the ledger with the migration's
/// name appended, or `EncodeError` where the ledger cannot be encoded.
pub open spec fn seal_for(ledger: Seq<Seq<char>>, predecessor: Seq<char>, model: Seq<char>)
    -> Result<RequestView, ErrorView> {
    match names_cbor(ledger.push(migration_text(predecessor, model))) {
        Some(bytes) => Ok(
            RequestView::Put { key: ledger_text(model), value: PayloadView::Bytes(bytes) },
        ),
        None => Err(ErrorView::EncodeError),
    }
}

/// Seals the migration from `predecessor` to `model` after every record was
/// replayed: the write that appends its name to `ledger`.
pub fn seal_migration(ledger: Vec<String>, predecessor: &str, model: &str) -> (out: Result<
    Request,
    StoreError,
>)
    ensures
        match seal_for(texts(ledger@), predecessor@, model@) {
            Ok(request) => out is Ok && out->Ok_0@ == request,
            Err(e) => out is Err && out->Err_0@ == e,
        },
{
    let mut ledger = ledger;
    let ghost before = texts(ledger@);
    ledger.push(migration_name(predecessor, model));
    assert(texts(ledger@) =~= before.push(migration_text(predecessor@, model@)));
    match encode_names(&ledger) {
        Some(bytes) => Ok(Request::Put { key: ledger_key(model), value: Payload::Bytes(bytes) }),
        None => Err(StoreError::EncodeError),
    }
}

/// Ensuring a migration twice is ensuring it once: after the first time the
/// plan is to do nothing, the ledger stays as it is, and the migration's
/// name occurs in it exactly as often as before, or once where it was
/// missing. The ledger only grows at its end.
pub proof fn lemma_migration_applies_once(ledger: Seq<Seq<char>>, name: Seq<char>)
    ensures
        plan_for(ensured(ledger, name), name) == PlanView::UpToDate,
        ensured(ensured(ledger, name), name) == ensured(ledger, name),
        ledger.to_multiset().count(name) <= 1 ==> ensured(ledger, name).to_multiset().count(name)
            == 1,
        ensured(ledger, name).take(ledger.len() as int) == ledger,
{
    broadcast use vstd::multiset::group_multiset_axioms;

    let after = ensured(ledger, name);
    ledger.to_multiset_ensures();
    if !ledger.contains(name) {
        assert(after[ledger.len() as int] == name);
        vstd::seq_lib::to_multiset_build(ledger, name);
        assert(ledger.to_multiset().count(name) == 0);
    }
    assert(after.take(ledger.len() as int) =~= ledger);
}

/// Where a migration stands.
#[derive(Debug, Clone, Copy, PartialEq, Eq, Structural)]
pub enum MigrationPhase {
    /// The ledger is being read.
    Ledger,
    /// The predecessor's own migrations are being ensured.
    Predecessor,
    /// The predecessor's records are being replayed, one at a time.
    Records,
    /// The ledger is being written with the migration's name appended.
    Sealing,
    /// The migration is over.
    Over,
}

/// What happened since the migration last said what to do.
#[derive(Debug, Clone, PartialEq, Eq)]
pub enum MigrationEvent {
    /// The store answered the request that was asked.
    Answer(Reply),
    /// The predecessor's own migrations are applied.
    PredecessorEnsured,
    /// A record was transformed and saved, and its transaction committed.
    Migrated,
    /// The transform refused a record, and its transaction was rolled back.
    TransformFailed,
    /// The predecessor has no more records.
    Exhausted,
}

/// The mathematical value of a [`MigrationEvent`].
pub enum EventView {
    Answer(ReplyView),
    PredecessorEnsured,
    Migrated,
    TransformFailed,
    Exhausted,
}

impl View for MigrationEvent {
    type V = EventView;

    open spec fn view(&self) -> EventView {
        match *self {
            MigrationEvent::Answer(r) => EventView::Answer(r@),
            MigrationEvent::PredecessorEnsured => EventView::PredecessorEnsured,
            MigrationEvent::Migrated => EventView::Migrated,
            MigrationEvent::TransformFailed => EventView::TransformFailed,
            MigrationEvent::Exhausted => EventView::Exhausted,
        }
    }
}

/// What is to be done next for a migration.
#[derive(Debug, Clone, PartialEq, Eq)]
pub enum MigrationAction {
    /// Perform this request in a transaction of its own and hand back the
    /// store's answer.
    Ask(Request),
    /// Ensure the migrations of the predecessor.
    EnsurePredecessor,
    /// Take the next record of the predecessor, transform it and save the
    /// result in a transaction of its own.
    ReplayNext,
    /// Nothing: the migration is applied.
    Done,
    /// Give up with the error of the transform; the ledger stays unsealed.
    Abort,
    /// Give up with this error.
    Fail(StoreError),
}

/// The mathematical value of a [`MigrationAction`].
pub enum ActionView {
    Ask(RequestView),
    EnsurePredecessor,
    ReplayNext,
    Done,
    Abort,
    Fail(ErrorView),
}

impl View for MigrationAction {
    type V = ActionView;

    open spec fn view(&self) -> ActionView {
        match *self {
            MigrationAction::Ask(r) => ActionView::Ask(r@),
            MigrationAction::EnsurePredecessor => ActionView::EnsurePredecessor,
            MigrationAction::ReplayNext => ActionView::ReplayNext,
            MigrationAction::Done => ActionView::Done,
            MigrationAction::Abort => ActionView::Abort,
            MigrationAction::Fail(e) => ActionView::Fail(e@),
        }
    }
}

/// The migration of one model from its predecessor, under way.
#[derive(Debug)]
pub struct Migration {
    pub predecessor: String,
    pub model: String,
    pub phase: MigrationPhase,
    pub ledger: Vec<String>,
}

/// The mathematical value of a [`Migration`].
pub struct MigrationView {
    pub predecessor: Seq<char>,
    pub model: Seq<char>,
    pub phase: MigrationPhase,
    pub ledger: Seq<Seq<char>>,
}

impl View for Migration {
    type V = MigrationView;

    open spec fn view(&self) -> MigrationView {
        MigrationView {
            predecessor: self.predecessor@,
            model: self.model@,
            phase: self.phase,
            ledger: texts(self.ledger@),
        }
    }
}

impl MigrationView {
    /// The migration in another phase, with the ledger it has read.
    pub open spec fn at(self, phase: MigrationPhase, ledger: Seq<Seq<char>>) -> MigrationView {
        MigrationView { predecessor: self.predecessor, model: self.model, phase, ledger }
    }

    /// The migration once it is over.
    pub open spec fn over(self) -> MigrationView {
        self.at(MigrationPhase::Over, Seq::empty())
    }

    /// What the migration does on an event. The ledger is read first, and
    /// where it names the migration nothing more is done. Else the
    /// predecessor's migrations come first, then its records one by one,
    /// and the ledger is sealed after the last of them. An event that the
    /// phase does not wait for ends the migration as a store failure.
    pub open spec fn advance(self, event: EventView) -> (MigrationView, ActionView) {
        match (self.phase, event) {
            (MigrationPhase::Ledger, EventView::Answer(reply)) => match ledger_in(reply) {
                Ok(names) => match plan_for(names, migration_text(self.predecessor, self.model)) {
                    PlanView::UpToDate => (self.over(), ActionView::Done),
                    PlanView::Replay { ledger } => (
                        self.at(MigrationPhase::Predecessor, ledger),
                        ActionView::EnsurePredecessor,
                    ),
                },
                Err(e) => (self.over(), ActionView::Fail(e)),
            },
            (MigrationPhase::Predecessor, EventView::PredecessorEnsured) => (
                self.at(MigrationPhase::Records, self.ledger),
                ActionView::ReplayNext,
            ),
            (MigrationPhase::Records, EventView::Migrated) => (self, ActionView::ReplayNext),
            (MigrationPhase::Records, EventView::TransformFailed) => (
                self.over(),
                ActionView::Abort,
            ),
            (MigrationPhase::Records, EventView::Exhausted) => match seal_for(
                self.ledger,
                self.predecessor,
                self.model,
            ) {
                Ok(request) => (
                    self.at(MigrationPhase::Sealing, Seq::empty()),
                    ActionView::Ask(request),
                ),
                Err(e) => (self.over(), ActionView::Fail(e)),
            },
            (MigrationPhase::Sealing, EventView::Answer(ReplyView::Done)) => (
                self.over(),
                ActionView::Done,
            ),
            _ => (self.over(), ActionView::Fail(ErrorView::StoreConflict)),
        }
    }
}

impl Migration {
    /// Starts ensuring the migrations of `model`: nothing is to be done for
    /// a model without a predecessor; for any other the ledger is read.
    pub fn begin(model: &Model) -> (out: (Migration, MigrationAction))
        ensures
            out.0@.model == model@.name,
            out.0@.ledger == Seq::<Seq<char>>::empty(),
            match model@.predecessor {
                Some(p) => out.0@.predecessor == p && out.0@.phase == MigrationPhase::Ledger
                    && out.1@ == ActionView::Ask(
                    RequestView::Get { key: ledger_text(model@.name), kind: Kind::Bytes },
                ),
                None => out.0@.phase == MigrationPhase::Over && out.1@ == ActionView::Done,
            },
    {
        let ledger: Vec<String> = Vec::new();
        assert(texts(ledger@) =~= Seq::<Seq<char>>::empty());
        match &model.predecessor {
            Some(p) => (
                Migration {
                    predecessor: p.clone(),
                    model: model.name.clone(),
                    phase: MigrationPhase::Ledger,
                    ledger,
                },
                MigrationAction::Ask(ledger_request(model.name.as_str())),
            ),
            None => (
                Migration {
                    predecessor: String::new(),
                    model: model.name.clone(),
                    phase: MigrationPhase::Over,
                    ledger,
                },
                MigrationAction::Done,
            ),
        }
    }

    /// Ends the migration with `action`.
    fn end(&mut self, action: MigrationAction) -> (out: MigrationAction)
        ensures
            final(self)@ == old(self)@.over(),
            out == action,
    {
        self.phase = MigrationPhase::Over;
        self.ledger = Vec::new();
        assert(texts(self.ledger@) =~= Seq::<Seq<char>>::empty());
        action
    }

    /// Takes what happened and says what is to be done next.
    pub fn advance(&mut self, event: MigrationEvent) -> (action: MigrationAction)
        ensures
            (final(self)@, action@) == old(self)@.advance(event@),
    {
        match (self.phase, event) {
            (MigrationPhase::Ledger, MigrationEvent::Answer(reply)) => {
                match plan_migration(reply, self.predecessor.as_str(), self.model.as_str()) {
                    Ok(MigrationPlan::UpToDate) => self.end(MigrationAction::Done),
                    Ok(MigrationPlan::Replay { ledger }) => {
                        self.phase = MigrationPhase::Predecessor;
                        self.ledger = ledger;
                        MigrationAction::EnsurePredecessor
                    },
                    Err(e) => self.end(MigrationAction::Fail(e)),
                }
            },
            (MigrationPhase::Predecessor, MigrationEvent::PredecessorEnsured) => {
                self.phase = MigrationPhase::Records;
                MigrationAction::ReplayNext
            },
            (MigrationPhase::Records, MigrationEvent::Migrated) => MigrationAction::ReplayNext,
            (MigrationPhase::Records, MigrationEvent::TransformFailed) => self.end(
                MigrationAction::Abort,
            ),
            (MigrationPhase::Records, MigrationEvent::Exhausted) => {
                let mut ledger: Vec<String> = Vec::new();
                core::mem::swap(&mut self.ledger, &mut ledger);
                assert(texts(self.ledger@) =~= Seq::<Seq<char>>::empty());
                match seal_migration(ledger, self.predecessor.as_str(), self.model.as_str()) {
                    Ok(request) => {
                        self.phase = MigrationPhase::Sealing;
                        MigrationAction::Ask(request)
                    },
                    Err(e) => self.end(MigrationAction::Fail(e)),
                }
            },
            (MigrationPhase::Sealing, MigrationEvent::Answer(Reply::Done)) => self.end(
                MigrationAction::Done,
            ),
            _ => self.end(MigrationAction::Fail(StoreError::StoreConflict)),
        }
    }
}

/// A sealed migration is skipped: where the codec reads back the ledger
/// that it wrote, a migration that begins on the store as the seal left it
/// finds its name in the ledger and does nothing.
pub proof fn lemma_sealed_migration_is_skipped(
    s: StoreModel,
    predecessor: Seq<char>,
    model: Seq<char>,
    ledger: Seq<Seq<char>>,
)
    requires
        seal_for(ledger, predecessor, model) is Ok,
        cbor_names(names_cbor(ledger.push(migration_text(predecessor, model)))->0) == Some(
            ledger.push(migration_text(predecessor, model)),
        ),
    ensures
        ({
            let sealed = respond(s, seal_for(ledger, predecessor, model)->Ok_0).0;
            let begun = MigrationView {
                predecessor,
                model,
                phase: MigrationPhase::Ledger,
                ledger: Seq::empty(),
            };
            let answer = respond(
                sealed,
                RequestView::Get { key: ledger_text(model), kind: Kind::Bytes },
            ).1;
            begun.advance(EventView::Answer(answer)) == (begun.over(), ActionView::Done)
        }),
{
    let name = migration_text(predecessor, model);
    assert(ledger.push(name)[ledger.len() as int] == name);
}

} // verus!
