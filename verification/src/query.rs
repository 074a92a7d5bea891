//! Batched queries: one result per identifier, failures kept apart.

use crate::encoding::{encode_uint_key, text_key, uint_key, ToRawKey};
use crate::error::{
    kind_of, std_error_display, std_error_shown, ContractError, ErrorToMsg, Fatal, StdErrorKind,
};
use crate::msg::IntType;
use crate::text::{decimal, decimal_string, texts};
use crate::target::{
    addr_validate, balance_msg, base64_text, nft_info_msg, query_balance, query_nft_info,
    raw_query, raw_request, system_error_display, system_error_shown, to_base64, ContractReply,
    Target,
};
use cosmwasm_std::{StdError, SystemError};
use cw20::BalanceResponse;
use cw721::NftInfoResponse;
use cw721_metadata_onchain::Extension;
use vstd::prelude::*;

verus! {

/// What a batch holds for one identifier: the target's value, or the reason
/// why there is none.
#[derive(Clone, Debug, PartialEq, Eq)]
pub enum BundleReturn<T> {
    Success(T),
    Error(String),
}

/// What a raw read yields for one key: the stored bytes as base64 text, or
/// the reason why there are none.
pub type QueryResRaw = BundleReturn<String>;

/// What a token collection's own query yields for one token.
pub type Cw721QueryResSmart = BundleReturn<NftInfoResponse<Extension>>;

/// What a ledger's own query yields for one account.
pub type Cw20QueryResSmart = BundleReturn<BalanceResponse>;

/// A [`BundleReturn`] with its error text as a sequence of characters.
pub enum Item<V> {
    Success(V),
    Error(Seq<char>),
}

impl<T: View> View for BundleReturn<T> {
    type V = Item<T::V>;

    open spec fn view(&self) -> Item<T::V> {
        match self {
            BundleReturn::Success(val) => Item::Success(val@),
            BundleReturn::Error(msg) => Item::Error(msg@),
        }
    }
}

impl<T> BundleReturn<T> {
    /// This result with its value as it is: for values that have no view.
    pub open spec fn item(self) -> Item<T> {
        match self {
            BundleReturn::Success(val) => Item::Success(val),
            BundleReturn::Error(msg) => Item::Error(msg@),
        }
    }

    /// The result of an item that the target answered with `val`.
    pub fn success(val: T) -> (r: Self)
        ensures
            r == BundleReturn::Success(val),
    {
        BundleReturn::Success(val)
    }

    /// The result of an item that failed for the reason `msg`.
    pub fn error(msg: String) -> (r: Self)
        ensures
            r == BundleReturn::<T>::Error(msg),
    {
        BundleReturn::Error(msg)
    }
}

/// The batch made of one step per label: the first step that is fatal fails
/// the whole batch; where none is, each label is paired with its item, in
/// order.
pub open spec fn bundle<V>(labels: Seq<Seq<char>>, steps: Seq<Result<Item<V>, Fatal>>) -> Result<
    Seq<(Seq<char>, Item<V>)>,
    Fatal,
>
    decreases steps.len(),
{
    if steps.len() == 0 {
        Ok(Seq::empty())
    } else {
        match bundle(labels.drop_last(), steps.drop_last()) {
            Err(fatal) => Err(fatal),
            Ok(items) => match steps.last() {
                Err(fatal) => Err(fatal),
                Ok(item) => Ok(items.push((labels.last(), item))),
            },
        }
    }
}

/// A batch that came out whole has one entry per label, in the order of the
/// labels, and each entry holds its own step's item: no step was fatal, and
/// no item depends on another step.
pub proof fn lemma_bundle_whole<V>(labels: Seq<Seq<char>>, steps: Seq<Result<Item<V>, Fatal>>)
    requires
        labels.len() == steps.len(),
        bundle(labels, steps) is Ok,
    ensures
        bundle(labels, steps)->Ok_0.len() == labels.len(),
        forall|i: int| 0 <= i < steps.len() ==> (#[trigger] steps[i]) is Ok,
        forall|i: int|
            0 <= i < steps.len() ==> #[trigger] bundle(labels, steps)->Ok_0[i] == (
                labels[i],
                steps[i]->Ok_0,
            ),
    decreases steps.len(),
{
    if steps.len() > 0 {
        let shorter = steps.drop_last();
        lemma_bundle_whole(labels.drop_last(), shorter);
        let items = bundle(labels.drop_last(), shorter)->Ok_0;
        assert forall|i: int| 0 <= i < steps.len() implies (#[trigger] steps[i]) is Ok by {
            if i < shorter.len() {
                assert(shorter[i] == steps[i]);
            }
        }
        assert forall|i: int| 0 <= i < steps.len() implies #[trigger] bundle(labels, steps)->Ok_0[i]
            == (labels[i], steps[i]->Ok_0) by {
            if i < shorter.len() {
                assert(items[i] == (labels.drop_last()[i], shorter[i]->Ok_0));
            }
        }
    }
}

/// Where no step is fatal the batch comes out whole.
pub proof fn lemma_bundle_succeeds<V>(labels: Seq<Seq<char>>, steps: Seq<Result<Item<V>, Fatal>>)
    requires
        labels.len() == steps.len(),
        forall|i: int| 0 <= i < steps.len() ==> (#[trigger] steps[i]) is Ok,
    ensures
        bundle(labels, steps) is Ok,
    decreases steps.len(),
{
    if steps.len() > 0 {
        lemma_bundle_succeeds(labels.drop_last(), steps.drop_last());
    }
}

/// The first fatal step fails the batch, with its own error, whatever the
/// later steps are.
pub proof fn lemma_bundle_first_fatal<V>(
    labels: Seq<Seq<char>>,
    steps: Seq<Result<Item<V>, Fatal>>,
    k: int,
)
    requires
        labels.len() == steps.len(),
        0 <= k < steps.len(),
        steps[k] is Err,
        forall|i: int| 0 <= i < k ==> (#[trigger] steps[i]) is Ok,
    ensures
        bundle(labels, steps) == Err::<Seq<(Seq<char>, Item<V>)>, _>(steps[k]->Err_0),
    decreases steps.len(),
{
    if k == steps.len() - 1 {
        lemma_bundle_succeeds(labels.drop_last(), steps.drop_last());
    } else {
        lemma_bundle_first_fatal(labels.drop_last(), steps.drop_last(), k);
    }
}

/// What a contract's storage answered, as plain sequences.
pub open spec fn reply_view(reply: ContractReply) -> Result<Seq<u8>, Seq<char>> {
    match reply {
        Ok(data) => Ok(data@),
        Err(msg) => Err(msg@),
    }
}

/// The item that stands for a storage answer. A refusal is shown with the
/// contract's own text. No bytes at all mean that the key is absent: a stored
/// empty value cannot be told from that, and is shown as absent too. Any
/// other bytes are shown as base64 text.
pub open spec fn stored_item(reply: Result<Seq<u8>, Seq<char>>) -> Item<Seq<char>> {
    match reply {
        Err(msg) => Item::Error(msg),
        Ok(data) => if data.len() == 0 {
            Item::Error("Nonexistent key"@)
        } else {
            Item::Success(base64_text(data))
        },
    }
}

/// Classifies what a contract's storage answered to one raw read.
pub fn raw_item(reply: ContractReply) -> (r: QueryResRaw)
    ensures
        r@ == stored_item(reply_view(reply)),
{
    match reply {
        Err(msg) => BundleReturn::error(msg),
        Ok(data) => {
            if data.len() == 0 {
                BundleReturn::error(String::from_str("Nonexistent key"))
            } else {
                BundleReturn::success(to_base64(data))
            }
        },
    }
}

/// What happened to one raw read on its way to the contract and back.
pub enum RawEvent {
    /// The request could not be put into bytes, for the reason given.
    Unsendable(StdError),
    /// The host could not ask the contract, for the reason given.
    Unreachable(SystemError),
    /// The contract's storage answered.
    Answered(Result<Seq<u8>, Seq<char>>),
}

/// One step of a raw batch. A key that could not be built is fatal, with the
/// text of its error, and nothing is sent. So are a request that could not be
/// sent and a contract that could not be reached, each with the text of its
/// reason behind a fixed prefix. An answer becomes the item of
/// [`stored_item`].
pub open spec fn raw_step(key: Result<Seq<u8>, Seq<char>>, event: RawEvent) -> Result<
    Item<Seq<char>>,
    Fatal,
> {
    match key {
        Err(text) => Err(Fatal::Message(text)),
        Ok(_) => match event {
            RawEvent::Unsendable(why) => Err(
                Fatal::Message("Serializing QueryRequest: "@ + std_error_shown(why)),
            ),
            RawEvent::Unreachable(why) => Err(
                Fatal::Message("System Err: "@ + system_error_shown(why)),
            ),
            RawEvent::Answered(reply) => Ok(stored_item(reply)),
        },
    }
}

/// The steps of a raw batch: one per key, each with the event that befell it.
pub open spec fn raw_steps(keys: Seq<Result<Seq<u8>, Seq<char>>>, events: Seq<RawEvent>) -> Seq<
    Result<Item<Seq<char>>, Fatal>,
> {
    Seq::new(keys.len(), |i: int| raw_step(keys[i], events[i]))
}

/// A step's outcome as plain sequences.
pub open spec fn raw_step_view(step: Result<QueryResRaw, ContractError>) -> Result<
    Item<Seq<char>>,
    Fatal,
> {
    match step {
        Ok(item) => Ok(item@),
        Err(e) => Err(e@),
    }
}

/// The entries of a raw batch as plain sequences.
pub open spec fn raw_entries(entries: Seq<(String, QueryResRaw)>) -> Seq<
    (Seq<char>, Item<Seq<char>>),
> {
    entries.map_values(|entry: (String, QueryResRaw)| entry@)
}

/// The outcome of a raw batch as plain sequences.
pub open spec fn raw_batch_view(batch: Result<Vec<(String, QueryResRaw)>, ContractError>) -> Result<
    Seq<(Seq<char>, Item<Seq<char>>)>,
    Fatal,
> {
    match batch {
        Ok(entries) => Ok(raw_entries(entries@)),
        Err(e) => Err(e@),
    }
}

/// What a raw batch over `labels` and `keys` may come to. The host may refuse
/// the contract's address: the call then fails with the host's error.
/// Otherwise the outcome is the [`bundle`] of one [`raw_step`] per key, for
/// the events that befell the reads: `events` stands for them, the library
/// cannot say what they are.
pub open spec fn raw_batch_outcome(
    r: Result<Vec<(String, QueryResRaw)>, ContractError>,
    labels: Seq<Seq<char>>,
    keys: Seq<Result<Seq<u8>, Seq<char>>>,
) -> bool {
    r matches Err(ContractError::Std(_)) || exists|events: Seq<RawEvent>|
        events.len() == keys.len() && raw_batch_view(r) == bundle(
            labels,
            #[trigger] raw_steps(keys, events),
        )
}

/// The keys of a batch of text primary keys.
pub open spec fn text_keys(namespace: Seq<char>, pks: Seq<String>) -> Seq<
    Result<Seq<u8>, Seq<char>>,
> {
    Seq::new(pks.len(), |i: int| text_key(namespace, pks[i]@))
}

/// The keys of a batch of integer primary keys, each stored in the width of
/// `keytype`.
pub open spec fn uint_keys(namespace: Seq<char>, pks: Seq<u64>, keytype: IntType) -> Seq<
    Result<Seq<u8>, Seq<char>>,
> {
    Seq::new(pks.len(), |i: int| uint_key(namespace, pks[i], keytype))
}

/// The labels of a batch of integer identifiers: each in decimal digits.
pub open spec fn uint_labels(ids: Seq<u64>) -> Seq<Seq<char>> {
    Seq::new(ids.len(), |i: int| decimal(ids[i] as nat))
}

/// Sends one raw read of `key` to `contract` and classifies what came back.
fn raw_read(target: &Target, contract: &str, key: Vec<u8>) -> (r: (
    Result<QueryResRaw, ContractError>,
    Ghost<RawEvent>,
))
    ensures
        raw_step_view(r.0) == raw_step(Ok(key@), r.1@),
{
    let request = match raw_request(contract, key) {
        Ok(request) => request,
        Err(e) => {
            let why = std_error_display(&e);
            let msg = String::from_str("Serializing QueryRequest: ").concat(why.as_str());
            return (Err(ContractError::GenericError(msg)), Ghost(RawEvent::Unsendable(e)));
        },
    };
    match raw_query(target, &request) {
        Err(e) => {
            let why = system_error_display(&e);
            let msg = String::from_str("System Err: ").concat(why.as_str());
            (Err(ContractError::GenericError(msg)), Ghost(RawEvent::Unreachable(e)))
        },
        Ok(reply) => {
            let ghost answered = reply_view(reply);
            (Ok(raw_item(reply)), Ghost(RawEvent::Answered(answered)))
        },
    }
}

/// A batch that was whole up to its step `i` fails as a whole when that step
/// is fatal, whatever would have come after.
proof fn lemma_raw_batch_fails(
    labels: Seq<Seq<char>>,
    keys: Seq<Result<Seq<u8>, Seq<char>>>,
    events: Seq<RawEvent>,
    event: RawEvent,
)
    requires
        labels.len() == keys.len(),
        events.len() < keys.len(),
        bundle(
            labels.take(events.len() as int),
            raw_steps(keys.take(events.len() as int), events),
        ) is Ok,
        raw_step(keys[events.len() as int], event) is Err,
    ensures
        exists|all: Seq<RawEvent>|
            all.len() == keys.len() && bundle(labels, #[trigger] raw_steps(keys, all)) == Err::<
                Seq<(Seq<char>, Item<Seq<char>>)>,
                _,
            >(raw_step(keys[events.len() as int], event)->Err_0),
{
    let i = events.len() as int;
    let before = raw_steps(keys.take(i), events);
    lemma_bundle_whole(labels.take(i), before);
    let all = Seq::new(keys.len(), |j: int| if j < i { events[j] } else { event });
    let steps = raw_steps(keys, all);
    assert forall|j: int| 0 <= j < i implies (#[trigger] steps[j]) is Ok by {
        assert(steps[j] == before[j]);
    }
    lemma_bundle_first_fatal(labels, steps, i);
}

/// A batch that was whole up to its step `i` is whole up to the next step
/// when that step has an item: the item joins the entries under its label.
proof fn lemma_raw_batch_grows(
    labels: Seq<Seq<char>>,
    keys: Seq<Result<Seq<u8>, Seq<char>>>,
    events: Seq<RawEvent>,
    event: RawEvent,
)
    requires
        labels.len() == keys.len(),
        events.len() < keys.len(),
        bundle(
            labels.take(events.len() as int),
            raw_steps(keys.take(events.len() as int), events),
        ) is Ok,
        raw_step(keys[events.len() as int], event) is Ok,
    ensures
        bundle(
            labels.take(events.len() as int + 1),
            raw_steps(keys.take(events.len() as int + 1), events.push(event)),
        ) == Ok::<_, Fatal>(
            bundle(
                labels.take(events.len() as int),
                raw_steps(keys.take(events.len() as int), events),
            )->Ok_0.push(
                (labels[events.len() as int], raw_step(keys[events.len() as int], event)->Ok_0),
            ),
        ),
{
    let i = events.len() as int;
    let before = raw_steps(keys.take(i), events);
    let next = raw_steps(keys.take(i + 1), events.push(event));
    assert(next.drop_last() =~= before);
    assert(labels.take(i + 1).drop_last() =~= labels.take(i));
}

/// The primary keys of a raw batch: texts, or integers of one width, of one
/// map.
enum KeySource {
    Text { keys: Vec<String>, namespace: String },
    Uint { keys: Vec<u64>, keytype: IntType, namespace: String },
}

impl KeySource {
    /// The labels under which the entries are returned.
    spec fn labels(self) -> Seq<Seq<char>> {
        match self {
            KeySource::Text { keys, namespace } => texts(keys@),
            KeySource::Uint { keys, keytype, namespace } => uint_labels(keys@),
        }
    }

    /// The raw keys that are read, or the texts that refuse them.
    spec fn keys(self) -> Seq<Result<Seq<u8>, Seq<char>>> {
        match self {
            KeySource::Text { keys, namespace } => text_keys(namespace@, keys@),
            KeySource::Uint { keys, keytype, namespace } => uint_keys(namespace@, keys@, keytype),
        }
    }

    /// The number of primary keys.
    fn len(&self) -> (n: usize)
        ensures
            n == self.labels().len(),
            n == self.keys().len(),
    {
        match self {
            KeySource::Text { keys, namespace } => keys.len(),
            KeySource::Uint { keys, keytype, namespace } => keys.len(),
        }
    }

    /// The label of primary key number `i`.
    fn label(&self, i: usize) -> (label: String)
        requires
            i < self.labels().len(),
        ensures
            label@ == self.labels()[i as int],
    {
        match self {
            KeySource::Text { keys, namespace } => keys[i].clone(),
            KeySource::Uint { keys, keytype, namespace } => decimal_string(keys[i]),
        }
    }

    /// The raw key of primary key number `i`.
    fn key(&self, i: usize) -> (key: Result<Vec<u8>, ContractError>)
        requires
            i < self.keys().len(),
        ensures
            match self.keys()[i as int] {
                Ok(bytes) => key is Ok && key->Ok_0@ == bytes,
                Err(text) => key is Err && key->Err_0@ == Fatal::Message(text),
            },
    {
        match self {
            KeySource::Text { keys, namespace } => {
                match keys[i].to_raw_map_key(namespace.as_str()) {
                    Ok(key) => Ok(key),
                    Err(e) => Err(ContractError::GenericError(e.message())),
                }
            },
            KeySource::Uint { keys, keytype, namespace } => encode_uint_key(
                keys[i],
                *keytype,
                namespace.as_str(),
            ),
        }
    }
}

/// Reads the entry of each key of `source` from the storage of `contract`,
/// one read per key and in the order of the keys.
fn raw_batch(target: &Target, contract: &str, source: &KeySource) -> (r: Result<
    Vec<(String, QueryResRaw)>,
    ContractError,
>)
    ensures
        raw_batch_outcome(r, source.labels(), source.keys()),
        source.labels().len() == source.keys().len(),
{
    match addr_validate(target, contract) {
        Ok(_) => {},
        Err(e) => {
            return Err(ContractError::Std(e));
        },
    }
    let ghost labels = source.labels();
    let ghost encoded = source.keys();
    let ghost mut events: Seq<RawEvent> = Seq::empty();
    let n: usize = source.len();
    let mut res: Vec<(String, QueryResRaw)> = Vec::with_capacity(n);
    let mut i: usize = 0;
    assert(raw_entries(res@) =~= Seq::empty());
    while i < n
        invariant
            i <= n,
            n == labels.len(),
            labels == source.labels(),
            encoded == source.keys(),
            labels.len() == encoded.len(),
            events.len() == i,
            bundle(labels.take(i as int), raw_steps(encoded.take(i as int), events)) == Ok::<_, Fatal>(
                raw_entries(res@),
            ),
        decreases n - i,
    {
        let key = match source.key(i) {
            Ok(key) => key,
            Err(failed) => {
                proof {
                    lemma_raw_batch_fails(
                        labels,
                        encoded,
                        events,
                        RawEvent::Answered(Ok(Seq::empty())),
                    );
                }
                return Err(failed);
            },
        };
        let (step, event) = raw_read(target, contract, key);
        match step {
            Err(failed) => {
                proof {
                    lemma_raw_batch_fails(labels, encoded, events, event@);
                }
                return Err(failed);
            },
            Ok(item) => {
                let ghost entries = res@;
                let entry = (source.label(i), item);
                res.push(entry);
                proof {
                    lemma_raw_batch_grows(labels, encoded, events, event@);
                    events = events.push(event@);
                    assert(raw_entries(res@) =~= raw_entries(entries).push(entry@));
                }
            },
        }
        i += 1;
    }
    proof {
        assert(labels.take(i as int) =~= labels);
        assert(encoded.take(i as int) =~= encoded);
    }
    Ok(res)
}

/// Reads the entry of each of `keys` from the map `namespace` in the storage
/// of `contract`, one read per key and in the order of `keys`.
///
/// The host may refuse `contract` as an address: the call then fails with the
/// host's error. Otherwise the outcome is the [`bundle`] of one [`raw_step`]
/// per key: a key that cannot be encoded, a request that cannot be sent and a
/// contract that cannot be reached each fail the whole call; whatever the
/// contract's storage answers for a key, a refusal too, is that key's entry.
/// What the storage answers is not this library's to say: `events` stands
/// for it.
pub fn generic_string_bundle_query_raw(
    target: &Target,
    keys: Vec<String>,
    namespace: String,
    contract: String,
) -> (r: Result<Vec<(String, QueryResRaw)>, ContractError>)
    ensures
        raw_batch_outcome(r, texts(keys@), text_keys(namespace@, keys@)),
        r is Ok ==> r->Ok_0@.len() == keys@.len(),
        r is Ok ==> forall|i: int|
            0 <= i < keys@.len() ==> (#[trigger] r->Ok_0@[i]).0@ == keys@[i]@,
{
    let r = raw_batch(target, contract.as_str(), &KeySource::Text { keys, namespace });
    proof {
        if r is Ok {
            lemma_raw_batch_shape(r, texts(keys@), text_keys(namespace@, keys@));
        }
    }
    r
}

/// Reads the stored entry of each of `token_ids` from the storage of the
/// token collection `contract`, which keeps its tokens in the map `tokens`.
/// The outcome is that of [`generic_string_bundle_query_raw`] on that map.
pub fn cw721_bundle_query_raw(target: &Target, token_ids: Vec<String>, contract: String) -> (r:
    Result<Vec<(String, QueryResRaw)>, ContractError>)
    ensures
        raw_batch_outcome(r, texts(token_ids@), text_keys("tokens"@, token_ids@)),
        r is Ok ==> r->Ok_0@.len() == token_ids@.len(),
        r is Ok ==> forall|i: int|
            0 <= i < token_ids@.len() ==> (#[trigger] r->Ok_0@[i]).0@ == token_ids@[i]@,
{
    generic_string_bundle_query_raw(target, token_ids, String::from_str("tokens"), contract)
}

/// Reads the stored balance of each of `accounts` from the storage of the
/// ledger `contract`, which keeps its balances in the map `balance`. The
/// accounts are not checked to be addresses. The outcome is that of
/// [`generic_string_bundle_query_raw`] on that map.
pub fn cw20_balances_bundle_query_raw(target: &Target, accounts: Vec<String>, contract: String) -> (r:
    Result<Vec<(String, QueryResRaw)>, ContractError>)
    ensures
        raw_batch_outcome(r, texts(accounts@), text_keys("balance"@, accounts@)),
        r is Ok ==> r->Ok_0@.len() == accounts@.len(),
        r is Ok ==> forall|i: int|
            0 <= i < accounts@.len() ==> (#[trigger] r->Ok_0@[i]).0@ == accounts@[i]@,
{
    generic_string_bundle_query_raw(target, accounts, String::from_str("balance"), contract)
}

/// Reads the entry of each of `keys` from the map `namespace` in the storage
/// of `contract`, where the map's primary keys are integers of the width
/// `keytype`. Each entry is labelled with its key in decimal digits.
///
/// The outcome is as in [`generic_string_bundle_query_raw`], with the keys of
/// [`uint_key`]: a key that does not fit the width fails the whole call.
pub fn generic_uint_bundle_query_raw(
    target: &Target,
    keys: Vec<u64>,
    keytype: IntType,
    namespace: String,
    contract: String,
) -> (r: Result<Vec<(String, QueryResRaw)>, ContractError>)
    ensures
        raw_batch_outcome(r, uint_labels(keys@), uint_keys(namespace@, keys@, keytype)),
        r is Ok ==> r->Ok_0@.len() == keys@.len(),
        r is Ok ==> forall|i: int|
            0 <= i < keys@.len() ==> (#[trigger] r->Ok_0@[i]).0@ == decimal(keys@[i] as nat),
{
    let r = raw_batch(target, contract.as_str(), &KeySource::Uint { keys, keytype, namespace });
    proof {
        if r is Ok {
            lemma_raw_batch_shape(r, uint_labels(keys@), uint_keys(namespace@, keys@, keytype));
        }
    }
    r
}

/// A raw batch that succeeds is whole: it has one entry per key, in the
/// order of the keys and under their labels; every key could be encoded; and
/// every entry is the item of some answer of the storage, so none holds the
/// base64 text of no bytes.
pub proof fn lemma_raw_batch_shape(
    r: Result<Vec<(String, QueryResRaw)>, ContractError>,
    labels: Seq<Seq<char>>,
    keys: Seq<Result<Seq<u8>, Seq<char>>>,
)
    requires
        raw_batch_outcome(r, labels, keys),
        labels.len() == keys.len(),
        r is Ok,
    ensures
        r->Ok_0@.len() == labels.len(),
        forall|i: int| 0 <= i < labels.len() ==> (#[trigger] r->Ok_0@[i]).0@ == labels[i],
        forall|i: int| 0 <= i < keys.len() ==> (#[trigger] keys[i]) is Ok,
        forall|i: int|
            0 <= i < labels.len() ==> exists|reply: Result<Seq<u8>, Seq<char>>|
                (#[trigger] r->Ok_0@[i]).1@ == stored_item(reply),
{
    let entries = r->Ok_0@;
    let events = choose|events: Seq<RawEvent>|
        events.len() == keys.len() && raw_batch_view(r) == bundle(
            labels,
            #[trigger] raw_steps(keys, events),
        );
    let steps = raw_steps(keys, events);
    lemma_bundle_whole(labels, steps);
    assert(raw_entries(entries).len() == entries.len());
    assert forall|i: int| 0 <= i < keys.len() implies (#[trigger] keys[i]) is Ok by {
        assert(steps[i] is Ok);
    }
    assert forall|i: int| 0 <= i < labels.len() implies (#[trigger] entries[i]).0@ == labels[i]
        && exists|reply: Result<Seq<u8>, Seq<char>>| entries[i].1@ == stored_item(reply) by {
        assert(raw_entries(entries)[i] == entries[i]@);
        assert(bundle(labels, steps)->Ok_0[i] == (labels[i], steps[i]->Ok_0));
        assert(keys[i] is Ok);
        assert(steps[i] is Ok);
        assert(events[i] is Answered);
        assert(entries[i].1@ == stored_item(events[i]->Answered_0));
    }
}

/// Where every key can be encoded and the contract's storage answers every
/// read, the batch comes out whole: one entry per key, in the order of the
/// keys, each the item of its own answer.
pub proof fn lemma_answered_batch(
    labels: Seq<Seq<char>>,
    keys: Seq<Result<Seq<u8>, Seq<char>>>,
    events: Seq<RawEvent>,
)
    requires
        labels.len() == keys.len(),
        events.len() == keys.len(),
        forall|i: int| 0 <= i < keys.len() ==> (#[trigger] keys[i]) is Ok,
        forall|i: int| 0 <= i < keys.len() ==> (#[trigger] events[i]) is Answered,
    ensures
        bundle(labels, raw_steps(keys, events)) == Ok::<_, Fatal>(
            Seq::new(
                labels.len(),
                |i: int| (labels[i], stored_item(events[i]->Answered_0)),
            ),
        ),
{
    let steps = raw_steps(keys, events);
    assert forall|i: int| 0 <= i < steps.len() implies (#[trigger] steps[i]) is Ok by {
        assert(keys[i] is Ok);
        assert(events[i] is Answered);
    }
    lemma_bundle_succeeds(labels, steps);
    lemma_bundle_whole(labels, steps);
    assert(bundle(labels, steps)->Ok_0 =~= Seq::new(
        labels.len(),
        |i: int| (labels[i], stored_item(events[i]->Answered_0)),
    ));
}

/// The events of a batch whose reads all reach a contract that answers the
/// read of a key with `store(key)`, the same at every read.
pub open spec fn store_events(
    keys: Seq<Result<Seq<u8>, Seq<char>>>,
    store: spec_fn(Seq<u8>) -> Result<Seq<u8>, Seq<char>>,
) -> Seq<RawEvent> {
    Seq::new(keys.len(), |i: int| RawEvent::Answered(store(keys[i]->Ok_0)))
}

/// Against a contract whose storage does not change, a batch of keys that can
/// all be encoded comes out whole, and the entry of each key is the item of
/// what the storage holds under that key alone: it depends on no other key
/// of the batch, on no earlier read and on no earlier batch.
pub proof fn lemma_batch_reads_store(
    labels: Seq<Seq<char>>,
    keys: Seq<Result<Seq<u8>, Seq<char>>>,
    store: spec_fn(Seq<u8>) -> Result<Seq<u8>, Seq<char>>,
)
    requires
        labels.len() == keys.len(),
        forall|i: int| 0 <= i < keys.len() ==> (#[trigger] keys[i]) is Ok,
    ensures
        bundle(labels, raw_steps(keys, store_events(keys, store))) == Ok::<_, Fatal>(
            Seq::new(labels.len(), |i: int| (labels[i], stored_item(store(keys[i]->Ok_0)))),
        ),
{
    let events = store_events(keys, store);
    lemma_answered_batch(labels, keys, events);
    assert(Seq::new(labels.len(), |i: int| (labels[i], stored_item(events[i]->Answered_0)))
        =~= Seq::new(labels.len(), |i: int| (labels[i], stored_item(store(keys[i]->Ok_0)))));
}

/// Failures are kept apart: in a batch that came out whole, another answer
/// to the read of one key changes that key's entry and no other.
pub proof fn lemma_batch_isolation(
    labels: Seq<Seq<char>>,
    keys: Seq<Result<Seq<u8>, Seq<char>>>,
    events: Seq<RawEvent>,
    at: int,
    reply: Result<Seq<u8>, Seq<char>>,
)
    requires
        labels.len() == keys.len(),
        events.len() == keys.len(),
        0 <= at < keys.len(),
        bundle(labels, raw_steps(keys, events)) is Ok,
    ensures
        bundle(labels, raw_steps(keys, events.update(at, RawEvent::Answered(reply)))) == Ok::<
            _,
            Fatal,
        >(bundle(labels, raw_steps(keys, events))->Ok_0.update(at, (labels[at], stored_item(reply)))),
{
    let steps = raw_steps(keys, events);
    let other = raw_steps(keys, events.update(at, RawEvent::Answered(reply)));
    lemma_bundle_whole(labels, steps);
    assert forall|i: int| 0 <= i < other.len() implies (#[trigger] other[i]) is Ok by {
        assert(steps[i] is Ok);
    }
    lemma_bundle_succeeds(labels, other);
    lemma_bundle_whole(labels, other);
    assert(bundle(labels, other)->Ok_0 =~= bundle(labels, steps)->Ok_0.update(
        at,
        (labels[at], stored_item(reply)),
    ));
}

/// A raw batch can be repeated: two calls on the same identifiers whose reads
/// met the same events give the same outcome, entry for entry and text for
/// text, or fail alike.
pub proof fn lemma_raw_batch_repeatable(
    first: Result<Vec<(String, QueryResRaw)>, ContractError>,
    second: Result<Vec<(String, QueryResRaw)>, ContractError>,
    labels: Seq<Seq<char>>,
    keys: Seq<Result<Seq<u8>, Seq<char>>>,
    events: Seq<RawEvent>,
)
    requires
        raw_batch_view(first) == bundle(labels, raw_steps(keys, events)),
        raw_batch_view(second) == bundle(labels, raw_steps(keys, events)),
    ensures
        raw_batch_view(first) == raw_batch_view(second),
        first is Ok <==> second is Ok,
        first is Ok ==> first->Ok_0.len() == second->Ok_0.len(),
        first is Ok ==> forall|i: int|
            0 <= i < first->Ok_0.len() ==> (#[trigger] first->Ok_0[i])@ == second->Ok_0[i]@,
{
    if first is Ok {
        let a = first->Ok_0@;
        let b = second->Ok_0@;
        assert(raw_entries(a).len() == a.len());
        assert(raw_entries(b).len() == b.len());
        assert forall|i: int| 0 <= i < a.len() implies (#[trigger] a[i])@ == b[i]@ by {
            assert(raw_entries(a)[i] == a[i]@);
            assert(raw_entries(b)[i] == b[i]@);
        }
    }
}

/// The item that stands for what a contract's own query answered: its value,
/// or the text of its error.
pub open spec fn smart_outcome<T>(reply: Result<T, StdErrorKind>) -> Item<T> {
    match reply {
        Ok(val) => Item::Success(val),
        Err(e) => Item::Error(e.text()),
    }
}

/// Classifies what a contract's own query answered for one identifier.
pub fn smart_item<T>(reply: Result<T, StdErrorKind>) -> (r: BundleReturn<T>)
    ensures
        r.item() == smart_outcome(reply),
{
    match reply {
        Ok(val) => BundleReturn::success(val),
        Err(e) => BundleReturn::error(e.to_msg()),
    }
}

/// The entries of a smart batch, with their texts as plain sequences.
pub open spec fn smart_entries<T>(entries: Seq<(String, BundleReturn<T>)>) -> Seq<
    (Seq<char>, Item<T>),
> {
    entries.map_values(|entry: (String, BundleReturn<T>)| (entry.0@, entry.1.item()))
}

/// The smart batch made of one answer per label: each label is paired with
/// the item of its own answer, in order.
pub open spec fn smart_batch<T>(labels: Seq<Seq<char>>, replies: Seq<Result<T, StdErrorKind>>) -> Seq<
    (Seq<char>, Item<T>),
> {
    Seq::new(labels.len(), |i: int| (labels[i], smart_outcome(replies[i])))
}

/// What a smart batch over `labels` may come to. The call fails as a whole,
/// with the host's error, where the host refuses the contract's address or a
/// query message cannot be built. Otherwise there is one entry per label,
/// each the item of its own answer: `replies` stands for the answers, the
/// library cannot say what they are.
pub open spec fn smart_batch_outcome<T>(
    r: Result<Vec<(String, BundleReturn<T>)>, ContractError>,
    labels: Seq<Seq<char>>,
) -> bool {
    match r {
        Err(e) => e is Std,
        Ok(entries) => exists|replies: Seq<Result<T, StdErrorKind>>|
            replies.len() == labels.len() && smart_entries(entries@) == #[trigger] smart_batch(
                labels,
                replies,
            ),
    }
}

/// A smart batch of `i` entries grows by the entry of the next answer.
proof fn lemma_smart_batch_grows<T>(
    labels: Seq<Seq<char>>,
    replies: Seq<Result<T, StdErrorKind>>,
    reply: Result<T, StdErrorKind>,
)
    requires
        replies.len() < labels.len(),
    ensures
        smart_batch(labels.take(replies.len() as int + 1), replies.push(reply)) == smart_batch(
            labels.take(replies.len() as int),
            replies,
        ).push((labels[replies.len() as int], smart_outcome(reply))),
{
    let i = replies.len() as int;
    assert(smart_batch(labels.take(i + 1), replies.push(reply)) =~= smart_batch(
        labels.take(i),
        replies,
    ).push((labels[i], smart_outcome(reply))));
}

/// A kind of question that a contract's own query answers for one
/// identifier.
trait SmartQuery {
    /// What the contract answers with.
    type Answer;

    /// Asks `contract` about `id`. The outer error is that of a message that
    /// could not be built, the inner that of the query itself.
    fn ask(target: &Target, contract: &str, id: &str) -> Result<
        Result<Self::Answer, StdError>,
        StdError,
    >;
}

/// The info of a token, asked of a token collection.
struct TokenInfo;

/// The balance of an account, asked of a ledger.
struct Balance;

impl SmartQuery for TokenInfo {
    type Answer = NftInfoResponse<Extension>;

    fn ask(target: &Target, contract: &str, id: &str) -> Result<
        Result<NftInfoResponse<Extension>, StdError>,
        StdError,
    > {
        let msg = match nft_info_msg(id) {
            Ok(msg) => msg,
            Err(e) => {
                return Err(e);
            },
        };
        Ok(query_nft_info(target, contract, msg))
    }
}

impl SmartQuery for Balance {
    type Answer = BalanceResponse;

    fn ask(target: &Target, contract: &str, id: &str) -> Result<
        Result<BalanceResponse, StdError>,
        StdError,
    > {
        let msg = match balance_msg(id) {
            Ok(msg) => msg,
            Err(e) => {
                return Err(e);
            },
        };
        Ok(query_balance(target, contract, msg))
    }
}

/// Asks `contract` the question `Q` about each of `ids`, one query per
/// identifier and in the order of `ids`.
fn smart_bundle<Q: SmartQuery>(target: &Target, ids: Vec<String>, contract: String) -> (r: Result<
    Vec<(String, BundleReturn<Q::Answer>)>,
    ContractError,
>)
    ensures
        smart_batch_outcome(r, texts(ids@)),
{
    match addr_validate(target, contract.as_str()) {
        Ok(_) => {},
        Err(e) => {
            return Err(ContractError::Std(e));
        },
    }
    let ghost labels = texts(ids@);
    let ghost mut replies: Seq<Result<Q::Answer, StdErrorKind>> = Seq::empty();
    let mut res: Vec<(String, BundleReturn<Q::Answer>)> = Vec::with_capacity(ids.len());
    let mut i: usize = 0;
    assert(smart_entries(res@) =~= smart_batch(labels.take(0), replies));
    while i < ids.len()
        invariant
            i <= ids.len(),
            labels == texts(ids@),
            replies.len() == i,
            smart_entries(res@) == smart_batch(labels.take(i as int), replies),
        decreases ids.len() - i,
    {
        let id = &ids[i];
        let answer = match Q::ask(target, contract.as_str(), id.as_str()) {
            Ok(answer) => answer,
            Err(e) => {
                return Err(ContractError::Std(e));
            },
        };
        let reply = match answer {
            Ok(val) => Ok(val),
            Err(e) => Err(kind_of(e)),
        };
        let ghost answered = reply;
        let ghost entries = res@;
        let entry = (id.clone(), smart_item(reply));
        res.push(entry);
        proof {
            lemma_smart_batch_grows(labels, replies, answered);
            replies = replies.push(answered);
            assert(smart_entries(res@) =~= smart_entries(entries).push(
                (entry.0@, entry.1.item()),
            ));
        }
        i += 1;
    }
    proof {
        assert(labels.take(i as int) =~= labels);
    }
    Ok(res)
}

/// Asks the token collection `contract` for the info of each of `token_ids`,
/// one query per id and in the order of `token_ids`.
///
/// The call fails as a whole, with the host's error, where the host refuses
/// `contract` as an address or a query message cannot be built. Otherwise it
/// returns one entry per id: whatever the query answers for an id, an error
/// too, is that id's entry and touches no other. What the collection answers
/// is not this library's to say: `replies` stands for it.
pub fn cw721_bundle_query_smart(target: &Target, token_ids: Vec<String>, contract: String) -> (r:
    Result<Vec<(String, Cw721QueryResSmart)>, ContractError>)
    ensures
        smart_batch_outcome(r, texts(token_ids@)),
        r is Ok ==> r->Ok_0@.len() == token_ids@.len(),
        r is Ok ==> forall|i: int|
            0 <= i < token_ids@.len() ==> (#[trigger] r->Ok_0@[i]).0@ == token_ids@[i]@,
{
    let r = smart_bundle::<TokenInfo>(target, token_ids, contract);
    proof {
        if r is Ok {
            lemma_smart_batch_shape(r, texts(token_ids@));
        }
    }
    r
}

/// Asks the ledger `contract` for the balance of each of `accounts`, one
/// query per account and in the order of `accounts`.
///
/// The call fails as a whole, with the host's error, where the host refuses
/// `contract` as an address or a query message cannot be built. Otherwise it
/// returns one entry per account: whatever the query answers for an account,
/// an error too, is that account's entry and touches no other. What the
/// ledger answers is not this library's to say: `replies` stands for it.
pub fn cw20_balances_bundle_query_smart(
    target: &Target,
    accounts: Vec<String>,
    contract: String,
) -> (r: Result<Vec<(String, Cw20QueryResSmart)>, ContractError>)
    ensures
        smart_batch_outcome(r, texts(accounts@)),
        r is Ok ==> r->Ok_0@.len() == accounts@.len(),
        r is Ok ==> forall|i: int|
            0 <= i < accounts@.len() ==> (#[trigger] r->Ok_0@[i]).0@ == accounts@[i]@,
{
    let r = smart_bundle::<Balance>(target, accounts, contract);
    proof {
        if r is Ok {
            lemma_smart_batch_shape(r, texts(accounts@));
        }
    }
    r
}

/// A smart batch that succeeds is whole: it has one entry per identifier, in
/// the order of the identifiers and under their labels, and every entry is
/// the item of some answer.
pub proof fn lemma_smart_batch_shape<T>(
    r: Result<Vec<(String, BundleReturn<T>)>, ContractError>,
    labels: Seq<Seq<char>>,
)
    requires
        smart_batch_outcome(r, labels),
        r is Ok,
    ensures
        r->Ok_0@.len() == labels.len(),
        forall|i: int| 0 <= i < labels.len() ==> (#[trigger] r->Ok_0@[i]).0@ == labels[i],
        forall|i: int|
            0 <= i < labels.len() ==> exists|reply: Result<T, StdErrorKind>|
                (#[trigger] r->Ok_0@[i]).1.item() == smart_outcome(reply),
{
    let entries = r->Ok_0@;
    let replies = choose|replies: Seq<Result<T, StdErrorKind>>|
        replies.len() == labels.len() && smart_entries(entries) == #[trigger] smart_batch(
            labels,
            replies,
        );
    lemma_smart_batch_repeatable(entries, entries, labels, replies);
}

/// A smart batch can be repeated: two calls on the same identifiers that were
/// answered alike give the same entries.
pub proof fn lemma_smart_batch_repeatable<T>(
    first: Seq<(String, BundleReturn<T>)>,
    second: Seq<(String, BundleReturn<T>)>,
    labels: Seq<Seq<char>>,
    replies: Seq<Result<T, StdErrorKind>>,
)
    requires
        smart_entries(first) == smart_batch(labels, replies),
        smart_entries(second) == smart_batch(labels, replies),
    ensures
        first.len() == second.len(),
        first.len() == labels.len(),
        forall|i: int|
            0 <= i < first.len() ==> (#[trigger] first[i]).0@ == second[i].0@ && first[i].1.item()
                == second[i].1.item() && first[i].0@ == labels[i] && first[i].1.item()
                == smart_outcome(replies[i]),
{
    assert(smart_entries(first).len() == first.len());
    assert(smart_entries(second).len() == second.len());
    assert forall|i: int| 0 <= i < first.len() implies (#[trigger] first[i]).0@ == second[i].0@
        && first[i].1.item() == second[i].1.item() && first[i].0@ == labels[i]
        && first[i].1.item() == smart_outcome(replies[i]) by {
        assert(smart_entries(first)[i] == (first[i].0@, first[i].1.item()));
        assert(smart_entries(second)[i] == (second[i].0@, second[i].1.item()));
        assert(smart_batch(labels, replies)[i] == (labels[i], smart_outcome(replies[i])));
    }
}

} // verus!
