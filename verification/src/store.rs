//! The time-windowed store, seen from this side of the backend.
//!
//! The backend is a key-value service that is reached over the network, so
//! the calls themselves are made by whoever runs the store. Here stand the
//! decisions: which command goes out next, and what an answer means. A write
//! is two commands, `SET` and then `EXPIRE`; nothing undoes the first where
//! the second fails, and nothing is tried twice.
//!
//! No command is sent from here, so what the backend does with one is not
//! proved. `Backend` writes down what it is relied on to do, and the laws at
//! the end of the file say what then follows for a write and a later read.

use vstd::prelude::*;
use crate::key::{composite_key, encode_key};
use crate::listing::{distinct_times, latest_keys, latest_of, law_listing_is_repeatable};
use crate::offer::{masked_password, Offer, OfferView, OFFER_TTL_SECONDS};

verus! {

/// A command for the backend.
#[derive(Debug, Clone, PartialEq, Eq)]
pub enum Command {
    /// `SET`: store `value` under `key`, whatever was there.
    Put { key: String, value: String },
    /// `EXPIRE`: let `key` lapse `seconds` from now.
    Expire { key: String, seconds: u64 },
    /// `GET`: read what is stored under `key`.
    Get { key: String },
    /// `KEYS`: list the keys that match `pattern`.
    Keys { pattern: String },
}

/// A command, as mathematics sees it.
pub ghost enum CommandView {
    Put { key: Seq<char>, value: Seq<char> },
    Expire { key: Seq<char>, seconds: u64 },
    Get { key: Seq<char> },
    Keys { pattern: Seq<char> },
}

impl View for Command {
    type V = CommandView;

    open spec fn view(&self) -> CommandView {
        match self {
            Command::Put { key, value } => CommandView::Put { key: key@, value: value@ },
            Command::Expire { key, seconds } => CommandView::Expire {
                key: key@,
                seconds: *seconds,
            },
            Command::Get { key } => CommandView::Get { key: key@ },
            Command::Keys { pattern } => CommandView::Keys { pattern: pattern@ },
        }
    }
}

/// Why the store could not do what was asked.
#[derive(Debug, Clone, PartialEq, Eq)]
pub enum StoreError {
    /// The backend could not be reached or failed; the text is its own.
    Storage(String),
    /// No record is held under the key: none was ever written, or its time
    /// has run out.
    NotFound,
}

/// An error of the store, as mathematics sees it.
pub ghost enum StoreErrorView {
    Storage(Seq<char>),
    NotFound,
}

impl View for StoreError {
    type V = StoreErrorView;

    open spec fn view(&self) -> StoreErrorView {
        match self {
            StoreError::Storage(text) => StoreErrorView::Storage(text@),
            StoreError::NotFound => StoreErrorView::NotFound,
        }
    }
}

/// Which answer a write is waiting for.
#[derive(Debug, Clone, Copy, PartialEq, Eq, Structural)]
pub enum UploadStage {
    /// `SET` is out.
    Writing,
    /// `SET` is done and `EXPIRE` is out.
    Timing,
}

/// A write that is under way.
#[derive(Debug, Clone, PartialEq, Eq)]
pub struct Upload {
    pub key: String,
    pub stage: UploadStage,
}

/// A write that is under way, as mathematics sees it.
pub ghost struct UploadView {
    pub key: Seq<char>,
    pub stage: UploadStage,
}

impl View for Upload {
    type V = UploadView;

    open spec fn view(&self) -> UploadView {
        UploadView { key: self.key@, stage: self.stage }
    }
}

/// How a write goes on after an answer.
#[derive(Debug, Clone, PartialEq, Eq)]
pub enum UploadStep {
    /// The command is to be sent next, and its answer handed to the write.
    Send(Upload, Command),
    /// The record is stored under the key and will lapse.
    Stored(String),
    /// The write has ended without the record being stored for its time.
    Failed(StoreError),
}

/// How a write goes on, as mathematics sees it.
pub ghost enum UploadStepView {
    Send(UploadView, CommandView),
    Stored(Seq<char>),
    Failed(StoreErrorView),
}

impl View for UploadStep {
    type V = UploadStepView;

    open spec fn view(&self) -> UploadStepView {
        match self {
            UploadStep::Send(upload, command) => UploadStepView::Send(upload@, command@),
            UploadStep::Stored(key) => UploadStepView::Stored(key@),
            UploadStep::Failed(error) => UploadStepView::Failed(error@),
        }
    }
}

/// The pattern that every key matches.
pub open spec fn every_key() -> Seq<char> {
    seq!['*']
}

/// How the write of the record `raw` of an offer begins: with a `SET` of
/// `raw` under the composite key of the offer.
pub open spec fn upload_begin(offer: OfferView, raw: Seq<char>) -> (UploadView, CommandView) {
    let key = offer.storage_key();
    (UploadView { key, stage: UploadStage::Writing }, CommandView::Put { key, value: raw })
}

/// How a write goes on. After the `SET` comes the `EXPIRE` of the same key,
/// after the `EXPIRE` the write is done; a failure ends it at once.
pub open spec fn upload_next(upload: UploadView, answer: Result<(), Seq<char>>) -> UploadStepView {
    match answer {
        Err(text) => UploadStepView::Failed(StoreErrorView::Storage(text)),
        Ok(_) => match upload.stage {
            UploadStage::Writing => UploadStepView::Send(
                UploadView { key: upload.key, stage: UploadStage::Timing },
                CommandView::Expire { key: upload.key, seconds: OFFER_TTL_SECONDS },
            ),
            UploadStage::Timing => UploadStepView::Stored(upload.key),
        },
    }
}

/// What the answer to a `GET` means: the record, or that none is held, or
/// that the backend failed.
pub open spec fn fetched(answer: Result<Option<Seq<char>>, Seq<char>>) -> Result<
    Seq<char>,
    StoreErrorView,
> {
    match answer {
        Ok(Some(raw)) => Ok(raw),
        Ok(None) => Err(StoreErrorView::NotFound),
        Err(text) => Err(StoreErrorView::Storage(text)),
    }
}

/// What the answer to a `KEYS` means for a listing of at most `amount`.
pub open spec fn listed(answer: Result<Seq<Seq<char>>, Seq<char>>, amount: nat) -> Result<
    Seq<Seq<char>>,
    StoreErrorView,
> {
    match answer {
        Ok(keys) => Ok(latest_of(keys, amount)),
        Err(text) => Err(StoreErrorView::Storage(text)),
    }
}

impl OfferView {
    /// The key under which the offer is stored.
    pub open spec fn storage_key(self) -> Seq<char> {
        composite_key(self.update_epoch, self.id)
    }
}

impl Offer {
    /// Begins the write of the offer, whose record is `raw`. The bounds of
    /// the offer are not tried again.
    pub fn upload(&self, raw: String) -> (begun: (Upload, Command))
        ensures
            (begun.0@, begun.1@) == upload_begin(self@, raw@),
    {
        let key = encode_key(self.update_epoch, self.id.as_str());
        let upload = Upload { key: key.clone(), stage: UploadStage::Writing };
        (upload, Command::Put { key, value: raw })
    }

    /// The command that reads the record stored under `id`, which is a whole
    /// composite key as a write or a listing gave it, not the bare id of an
    /// offer.
    #[allow(non_snake_case)]
    pub fn Download(id: &str) -> (command: Command)
        ensures
            command@ == (CommandView::Get { key: id@ }),
    {
        Command::Get { key: id.to_owned() }
    }

    /// Lists the latest `amount` of the keys that the backend holds, or all
    /// of them where there are fewer, from the latest write to the earliest.
    #[allow(non_snake_case)]
    pub fn LatestN(keys: &Vec<String>, amount: usize) -> (latest: Vec<String>)
        ensures
            latest.deep_view() == latest_of(keys.deep_view(), amount as nat),
    {
        latest_keys(keys, amount)
    }
}

impl Upload {
    /// Takes the answer to the command that is out and says how the write
    /// goes on.
    pub fn next(self, answer: Result<(), String>) -> (step: UploadStep)
        ensures
            step@ == upload_next(self@, answer_view(answer)),
    {
        match answer {
            Err(text) => UploadStep::Failed(StoreError::Storage(text)),
            Ok(_) => match self.stage {
                UploadStage::Writing => {
                    let key = self.key.clone();
                    UploadStep::Send(
                        Upload { key: self.key, stage: UploadStage::Timing },
                        Command::Expire { key, seconds: OFFER_TTL_SECONDS },
                    )
                },
                UploadStage::Timing => UploadStep::Stored(self.key),
            },
        }
    }
}

/// The answer to a `SET` or an `EXPIRE`, as mathematics sees it.
pub open spec fn answer_view(answer: Result<(), String>) -> Result<(), Seq<char>> {
    match answer {
        Ok(_) => Ok(()),
        Err(text) => Err(text@),
    }
}

/// The answer to a `GET`, as mathematics sees it.
pub open spec fn record_view(answer: Result<Option<String>, String>) -> Result<
    Option<Seq<char>>,
    Seq<char>,
> {
    match answer {
        Ok(Some(raw)) => Ok(Some(raw@)),
        Ok(None) => Ok(None),
        Err(text) => Err(text@),
    }
}

/// The answer to a `KEYS`, as mathematics sees it.
pub open spec fn keys_view(answer: Result<Vec<String>, String>) -> Result<
    Seq<Seq<char>>,
    Seq<char>,
> {
    match answer {
        Ok(keys) => Ok(keys.deep_view()),
        Err(text) => Err(text@),
    }
}

/// What came of a read or a listing, as mathematics sees it.
pub open spec fn outcome_view<T: DeepView>(outcome: Result<T, StoreError>) -> Result<
    T::V,
    StoreErrorView,
> {
    match outcome {
        Ok(value) => Ok(value.deep_view()),
        Err(error) => Err(error@),
    }
}

/// Takes the answer to a `GET` and gives the record, or says why there is
/// none: `NotFound` where the backend holds nothing under the key, `Storage`
/// where it failed.
pub fn fetch_outcome(answer: Result<Option<String>, String>) -> (outcome: Result<
    String,
    StoreError,
>)
    ensures
        outcome_view(outcome) == fetched(record_view(answer)),
{
    match answer {
        Ok(Some(raw)) => Ok(raw),
        Ok(None) => Err(StoreError::NotFound),
        Err(text) => Err(StoreError::Storage(text)),
    }
}

/// The command that lists every key that the backend holds.
pub fn list_command() -> (command: Command)
    ensures
        command@ == (CommandView::Keys { pattern: every_key() }),
{
    let pattern = "*".to_owned();
    proof {
        reveal_strlit("*");
        assert(pattern@ =~= every_key());
    }
    Command::Keys { pattern }
}

/// Takes the answer to a `KEYS` and gives the listing of at most `amount`
/// keys, or `Storage` where the backend failed.
pub fn list_outcome(answer: Result<Vec<String>, String>, amount: usize) -> (outcome: Result<
    Vec<String>,
    StoreError,
>)
    ensures
        outcome_view(outcome) == listed(keys_view(answer), amount as nat),
{
    match answer {
        Ok(keys) => Ok(latest_keys(&keys, amount)),
        Err(text) => Err(StoreError::Storage(text)),
    }
}

/// A record as the backend holds it: what was stored, and when it lapses
/// if it ever does.
pub ghost struct Record {
    pub value: Seq<char>,
    pub lapses_at: Option<nat>,
}

/// What the backend is relied on to do, with time in seconds. A `SET`
/// stores the value and takes away any end that the key had; an `EXPIRE`
/// gives a key that is held its end, so many seconds from the moment it is
/// carried out; a key that has reached its end is held no more; reading and
/// listing change nothing.
pub ghost struct Backend {
    pub records: Map<Seq<char>, Record>,
}

impl Backend {
    /// Whether a record is held under `key` at the time `now`.
    pub open spec fn holds(self, key: Seq<char>, now: nat) -> bool {
        self.records.contains_key(key) && match self.records[key].lapses_at {
            Some(end) => now < end,
            None => true,
        }
    }

    /// The backend once it has carried out `command` at the time `now`.
    pub open spec fn after(self, command: CommandView, now: nat) -> Backend {
        match command {
            CommandView::Put { key, value } => Backend {
                records: self.records.insert(key, Record { value, lapses_at: None }),
            },
            CommandView::Expire { key, seconds } => if self.holds(key, now) {
                Backend {
                    records: self.records.insert(
                        key,
                        Record { value: self.records[key].value, lapses_at: Some(now + seconds as nat) },
                    ),
                }
            } else {
                self
            },
            CommandView::Get { key } => self,
            CommandView::Keys { pattern } => self,
        }
    }

    /// What a `GET` of `key` is answered at the time `now`.
    pub open spec fn read(self, key: Seq<char>, now: nat) -> Option<Seq<char>> {
        if self.holds(key, now) {
            Some(self.records[key].value)
        } else {
            None
        }
    }

    /// Whether a `KEYS` for every key may be answered `keys` at the time
    /// `now`: each key that is held once, in whatever order, and no other.
    pub open spec fn lists(self, keys: Seq<Seq<char>>, now: nat) -> bool {
        &&& keys.no_duplicates()
        &&& forall|key: Seq<char>| keys.contains(key) <==> self.holds(key, now)
    }

    /// The backend once the write of `raw` for `offer` has gone through, its
    /// `SET` carried out at the time `written` and its `EXPIRE` at `timed`.
    pub open spec fn after_upload(self, offer: OfferView, raw: Seq<char>, written: nat, timed: nat)
        -> Backend {
        let key = offer.storage_key();
        self.after(CommandView::Put { key, value: raw }, written).after(
            CommandView::Expire { key, seconds: OFFER_TTL_SECONDS },
            timed,
        )
    }
}

/// A write whose commands are both answered well sends a `SET` of the
/// record under the composite key of the offer, then an `EXPIRE` of that key
/// after 48 hours, and ends with that key.
pub proof fn law_upload_sends_set_then_expire(offer: OfferView, raw: Seq<char>)
    ensures
        ({
            let key = offer.storage_key();
            let (writing, first) = upload_begin(offer, raw);
            let timing = UploadView { key, stage: UploadStage::Timing };
            &&& first == (CommandView::Put { key, value: raw })
            &&& upload_next(writing, Ok(())) == UploadStepView::Send(
                timing,
                CommandView::Expire { key, seconds: 172_800 },
            )
            &&& upload_next(timing, Ok(())) == UploadStepView::Stored(key)
        }),
{
}

/// A record that was written is read back as it was written, under the key
/// that the write ended with, until its time has run out: if the backend
/// does what it is relied on to do, a `GET` of that key less than 48 hours
/// after the `EXPIRE` was carried out gives the record.
pub proof fn law_stored_record_is_read_back(
    backend: Backend,
    offer: OfferView,
    raw: Seq<char>,
    written: nat,
    timed: nat,
    now: nat,
)
    requires
        written <= timed <= now < timed + OFFER_TTL_SECONDS,
    ensures
        fetched(Ok(backend.after_upload(offer, raw, written, timed).read(offer.storage_key(), now)))
            == Ok::<Seq<char>, StoreErrorView>(raw),
{
}

/// An offer that was submitted is shown as it was submitted, but for its
/// password: if the backend does what it is relied on to do, and if the
/// records are written and read by an encoding that gives back the offer it
/// was given, then what is read under the key that the write ended with,
/// less than 48 hours after the `EXPIRE` was carried out, is the record of
/// that offer, and the offer read from it and masked is the submitted offer
/// with four asterisks for its password.
pub proof fn law_submitted_offer_is_shown_masked(
    backend: Backend,
    offer: OfferView,
    encode: spec_fn(OfferView) -> Seq<char>,
    decode: spec_fn(Seq<char>) -> Option<OfferView>,
    written: nat,
    timed: nat,
    now: nat,
)
    requires
        decode(encode(offer)) == Some(offer),
        written <= timed <= now < timed + OFFER_TTL_SECONDS,
    ensures
        ({
            let stored = backend.after_upload(offer, encode(offer), written, timed);
            &&& fetched(Ok(stored.read(offer.storage_key(), now))) matches Ok(raw)
            &&& decode(raw) matches Some(read)
            &&& read.redacted() == (OfferView { password: masked_password(), ..offer })
        }),
{
}

/// A record whose time has run out is not found: if the backend does what
/// it is relied on to do, a `GET` of the key 48 hours or more after the
/// `EXPIRE` was carried out is answered with nothing, which the store
/// reports as `NotFound`.
pub proof fn law_lapsed_record_is_not_found(
    backend: Backend,
    offer: OfferView,
    raw: Seq<char>,
    written: nat,
    timed: nat,
    now: nat,
)
    requires
        written <= timed,
        now >= timed + OFFER_TTL_SECONDS,
    ensures
        fetched(Ok(backend.after_upload(offer, raw, written, timed).read(offer.storage_key(), now)))
            == Err::<Seq<char>, StoreErrorView>(StoreErrorView::NotFound),
{
}

/// A key under which nothing was ever written is not found.
pub proof fn law_unwritten_key_is_not_found(key: Seq<char>, now: nat)
    ensures
        fetched(Ok(Backend { records: Map::empty() }.read(key, now))) == Err::<
            Seq<char>,
            StoreErrorView,
        >(StoreErrorView::NotFound),
{
}

/// A listing changes nothing and can be repeated: if the backend does what
/// it is relied on to do, it is after a `KEYS` what it was before; and where
/// it holds the same keys at two moments, the listings made from its two
/// answers are the same, provided that it lists its keys in the same order
/// both times or that no two of them read as one time.
pub proof fn law_listing_twice_gives_the_same(
    backend: Backend,
    first: Seq<Seq<char>>,
    earlier: nat,
    second: Seq<Seq<char>>,
    later: nat,
    amount: nat,
)
    requires
        backend.lists(first, earlier),
        backend.lists(second, later),
        forall|key: Seq<char>| backend.holds(key, earlier) <==> backend.holds(key, later),
        first == second || distinct_times(first),
    ensures
        backend.after(CommandView::Keys { pattern: every_key() }, earlier) == backend,
        listed(Ok(first), amount) == listed(Ok(second), amount),
{
    if first != second {
        law_listing_is_repeatable(first, second, amount);
    }
}

} // verus!
