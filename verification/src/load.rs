//! Reading entities back: the field rows of one entity, and the keys that
//! an index entry leads to.

use vstd::prelude::*;
use vstd::string::StringExecFns;
use crate::keys::{
    field_row_key, field_row_text, multi_index_key, multi_index_text, unique_index_key,
    unique_index_text,
};
use crate::script::{keys_in, take_keys};
use crate::store::{
    respond, texts, ErrorView, Kind, Payload, PayloadView, Reply, ReplyView, Request, RequestView,
    StoreError, StoreModel,
};

verus! {

/// How far a load has come.
#[derive(Debug, Clone, PartialEq, Eq)]
pub enum LoadStep {
    /// The store is to perform this read; its reply is handed to `resume`.
    Ask(Request),
    /// Every row was read: the encoded field values, in field order.
    Done(Vec<Vec<u8>>),
    /// The load gave up.
    Failed(StoreError),
}

/// The mathematical value of a [`LoadStep`].
pub enum LoadStepView {
    Ask(RequestView),
    Done(Seq<Seq<u8>>),
    Failed(ErrorView),
}

/// The views of a list of byte vectors, in order.
pub open spec fn rows_of(rows: Seq<Vec<u8>>) -> Seq<Seq<u8>> {
    Seq::new(rows.len(), |i: int| rows[i]@)
}

impl View for LoadStep {
    type V = LoadStepView;

    open spec fn view(&self) -> LoadStepView {
        match *self {
            LoadStep::Ask(r) => LoadStepView::Ask(r@),
            LoadStep::Done(rows) => LoadStepView::Done(rows_of(rows@)),
            LoadStep::Failed(e) => LoadStepView::Failed(e@),
        }
    }
}

/// A load under way: the field names of the model, and the rows read so
/// far. The row of the field after them is being read.
#[derive(Debug)]
pub struct Loader {
    pub model: String,
    pub key: String,
    pub names: Vec<String>,
    pub rows: Vec<Vec<u8>>,
    pub over: bool,
}

/// The mathematical value of a [`Loader`].
pub struct LoaderView {
    pub model: Seq<char>,
    pub key: Seq<char>,
    pub names: Seq<Seq<char>>,
    pub rows: Seq<Seq<u8>>,
    pub over: bool,
}

impl View for Loader {
    type V = LoaderView;

    open spec fn view(&self) -> LoaderView {
        LoaderView {
            model: self.model@,
            key: self.key@,
            names: texts(self.names@),
            rows: rows_of(self.rows@),
            over: self.over,
        }
    }
}

/// The encoded value that a reply to the read of the row of `field` holds.
/// A missing row fails the load with `NotFound`, a payload that is no
/// encoded value with `DecodeError`.
pub open spec fn row_in(reply: ReplyView, field: Seq<char>) -> Result<Seq<u8>, ErrorView> {
    match reply {
        ReplyView::Found(PayloadView::Bytes(b)) => Ok(b),
        ReplyView::Missing => Err(ErrorView::NotFound { field }),
        ReplyView::Found(_) => Err(ErrorView::DecodeError),
        ReplyView::Undecodable => Err(ErrorView::DecodeError),
        _ => Err(ErrorView::StoreConflict),
    }
}

impl LoaderView {
    /// The loader once it has ended.
    pub open spec fn ended(self) -> LoaderView {
        LoaderView {
            model: self.model,
            key: self.key,
            names: self.names,
            rows: Seq::empty(),
            over: true,
        }
    }

    /// The loader with one more row read.
    pub open spec fn with_row(self, row: Seq<u8>) -> LoaderView {
        LoaderView {
            model: self.model,
            key: self.key,
            names: self.names,
            rows: self.rows.push(row),
            over: false,
        }
    }

    /// Whether a read is outstanding.
    pub open spec fn reading(self) -> bool {
        !self.over && self.rows.len() < self.names.len()
    }

    /// The read of the row of the field that comes next.
    pub open spec fn request(self) -> RequestView {
        RequestView::Get {
            key: field_row_text(self.model, self.key, self.names[self.rows.len() as int]),
            kind: Kind::Bytes,
        }
    }

    /// What comes first: the read of the first row, or no rows at once for
    /// a model without fields.
    pub open spec fn launch(self) -> (LoaderView, LoadStepView) {
        if self.reading() {
            (self, LoadStepView::Ask(self.request()))
        } else {
            (self.ended(), LoadStepView::Done(self.rows))
        }
    }

    /// Takes the store's reply to the read that is outstanding.
    pub open spec fn resume(self, reply: ReplyView) -> (LoaderView, LoadStepView) {
        if !self.reading() {
            (self.ended(), LoadStepView::Done(Seq::empty()))
        } else {
            match row_in(reply, self.names[self.rows.len() as int]) {
                Ok(row) => self.with_row(row).launch(),
                Err(e) => (self.ended(), LoadStepView::Failed(e)),
            }
        }
    }
}

/// What a load under way finds in a faithful store: each read is answered
/// by the store and the answer handed back to the loader.
pub open spec fn load_from(s: StoreModel, at: LoaderView) -> Result<Seq<Seq<u8>>, ErrorView>
    decreases at.names.len() - at.rows.len(),
{
    if at.reading() {
        let (next, step) = at.resume(respond(s, at.request()).1);
        match step {
            LoadStepView::Ask(_) => load_from(s, next),
            LoadStepView::Done(rows) => Ok(rows),
            LoadStepView::Failed(e) => Err(e),
        }
    } else {
        Ok(at.rows)
    }
}

/// What a load of the entity `key` of `model` finds in a faithful store:
/// the encoded values of the fields `names`, in order, or the error of the
/// first row that is missing or unreadable.
pub open spec fn load(s: StoreModel, model: Seq<char>, key: Seq<char>, names: Seq<Seq<char>>)
    -> Result<Seq<Seq<u8>>, ErrorView> {
    load_from(s, LoaderView { model, key, names, rows: Seq::empty(), over: false })
}

impl Loader {
    /// What comes first.
    fn launch(&mut self) -> (step: LoadStep)
        ensures
            (final(self)@, step@) == old(self)@.launch(),
    {
        proof {
            assert(texts(self.names@).len() == self.names.len());
            assert(rows_of(self.rows@).len() == self.rows.len());
        }
        if !self.over && self.rows.len() < self.names.len() {
            let field = &self.names[self.rows.len()];
            LoadStep::Ask(
                Request::Get {
                    key: field_row_key(self.model.as_str(), self.key.as_str(), field.as_str()),
                    kind: Kind::Bytes,
                },
            )
        } else {
            let mut rows: Vec<Vec<u8>> = Vec::new();
            core::mem::swap(&mut self.rows, &mut rows);
            self.over = true;
            assert(rows_of(self.rows@) =~= Seq::<Seq<u8>>::empty());
            LoadStep::Done(rows)
        }
    }

    /// Starts loading the entity `key` of `model`, whose fields are `names`.
    pub fn begin(model: &str, key: &str, names: Vec<String>) -> (out: (Loader, LoadStep))
        ensures
            (out.0@, out.1@) == (LoaderView {
                model: model@,
                key: key@,
                names: texts(names@),
                rows: Seq::empty(),
                over: false,
            }).launch(),
    {
        let mut loader = Loader {
            model: String::from_str(model),
            key: String::from_str(key),
            names,
            rows: Vec::new(),
            over: false,
        };
        assert(rows_of(loader.rows@) =~= Seq::<Seq<u8>>::empty());
        let step = loader.launch();
        (loader, step)
    }

    /// Takes the store's reply to the read that was asked last, and says
    /// what comes next. Once the load is over every further call answers
    /// `Done` without rows.
    pub fn resume(&mut self, reply: Reply) -> (step: LoadStep)
        ensures
            (final(self)@, step@) == old(self)@.resume(reply@),
    {
        proof {
            assert(texts(self.names@).len() == self.names.len());
            assert(rows_of(self.rows@).len() == self.rows.len());
        }
        if self.over || self.rows.len() >= self.names.len() {
            self.over = true;
            self.rows = Vec::new();
            assert(rows_of(self.rows@) =~= Seq::<Seq<u8>>::empty());
            return LoadStep::Done(Vec::new());
        }
        let ghost before = rows_of(self.rows@);
        match reply {
            Reply::Found(Payload::Bytes(b)) => {
                self.rows.push(b);
                assert(rows_of(self.rows@) =~= before.push(b@));
                self.launch()
            },
            Reply::Missing => {
                let field = self.names[self.rows.len()].clone();
                self.fail(StoreError::NotFound { field })
            },
            Reply::Found(_) => self.fail(StoreError::DecodeError),
            Reply::Undecodable => self.fail(StoreError::DecodeError),
            _ => self.fail(StoreError::StoreConflict),
        }
    }

    /// Ends the load with `e`.
    fn fail(&mut self, e: StoreError) -> (step: LoadStep)
        ensures
            final(self)@ == old(self)@.ended(),
            step@ == LoadStepView::Failed(e@),
    {
        self.over = true;
        self.rows = Vec::new();
        assert(rows_of(self.rows@) =~= Seq::<Seq<u8>>::empty());
        LoadStep::Failed(e)
    }
}

/// The read of the unique index entry of `field` for `value`.
pub fn unique_request(model: &str, field: &str, value: &str) -> (request: Request)
    ensures
        request@ == (RequestView::Get {
            key: unique_index_text(model@, field@, value@),
            kind: Kind::Key,
        }),
{
    Request::Get { key: unique_index_key(model, field, value), kind: Kind::Key }
}

/// The read of the multi index entry of `field` for `value`.
pub fn multi_request(model: &str, field: &str, value: &str) -> (request: Request)
    ensures
        request@ == (RequestView::Get {
            key: multi_index_text(model@, field@, value@),
            kind: Kind::Keys,
        }),
{
    Request::Get { key: multi_index_key(model, field, value), kind: Kind::Keys }
}

/// The entity key that a reply to the read of a unique index entry leads
/// to: `None` where the value has no entry.
pub open spec fn unique_in(reply: ReplyView) -> Result<Option<Seq<char>>, ErrorView> {
    match reply {
        ReplyView::Found(PayloadView::Key(k)) => Ok(Some(k)),
        ReplyView::Missing => Ok(None),
        ReplyView::Found(_) => Err(ErrorView::DecodeError),
        ReplyView::Undecodable => Err(ErrorView::DecodeError),
        _ => Err(ErrorView::StoreConflict),
    }
}

/// The entity keys that a reply to the read of a multi index entry leads
/// to: none where the value has no entry.
pub open spec fn multi_in(reply: ReplyView) -> Result<Seq<Seq<char>>, ErrorView> {
    match keys_in(reply) {
        Ok(Some(ks)) => Ok(ks),
        Ok(None) => Ok(Seq::empty()),
        Err(e) => Err(e),
    }
}

/// The entity key that the unique index entry in `reply` leads to.
pub fn unique_hit(reply: Reply) -> (out: Result<Option<String>, StoreError>)
    ensures
        crate::stream::yield_of(out) == unique_in(reply@),
{
    match reply {
        Reply::Found(Payload::Key(k)) => Ok(Some(k)),
        Reply::Missing => Ok(None),
        Reply::Found(_) => Err(StoreError::DecodeError),
        Reply::Undecodable => Err(StoreError::DecodeError),
        _ => Err(StoreError::StoreConflict),
    }
}

/// The entity keys that the multi index entry in `reply` leads to, in the
/// order of the entry.
pub fn multi_hits(reply: Reply) -> (out: Result<Vec<String>, StoreError>)
    ensures
        match out {
            Ok(ks) => multi_in(reply@) == Ok::<Seq<Seq<char>>, ErrorView>(texts(ks@)),
            Err(e) => multi_in(reply@) == Err::<Seq<Seq<char>>, ErrorView>(e@),
        },
{
    match take_keys(reply) {
        Ok(Some(ks)) => Ok(ks),
        Ok(None) => {
            let none: Vec<String> = Vec::new();
            assert(texts(none@) =~= Seq::<Seq<char>>::empty());
            Ok(none)
        },
        Err(e) => Err(e),
    }
}

} // verus!
