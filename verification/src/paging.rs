//! Collecting a whole collection page by page.
//!
//! A collector starts fetching, unless its budget is no fetch at all. Each
//! page it is given joins what it has collected, and the page's last entry
//! becomes the cursor of the next fetch. A page shorter than the page size,
//! or the last fetch of the budget, ends the collection.

use crate::error::ContractError;
use cosmwasm_std::StdError;
use crate::target::{
    all_accounts_msg, all_tokens_msg, query_all_accounts, query_all_tokens, Target,
};
use crate::text::{optional_text, texts};
use vstd::prelude::*;

verus! {

/// The state of a collection.
pub struct Paging {
    /// Every entry of every page taken so far, in the order they came.
    pub entries: Seq<Seq<char>>,
    /// The entry after which the next page starts; none to start at the
    /// beginning.
    pub cursor: Option<Seq<char>>,
    /// The number of pages taken so far.
    pub fetches: nat,
    /// Whether the collection has ended.
    pub done: bool,
    /// The number of fetches that the collection may make.
    pub loop_limit: nat,
    /// The number of entries of a full page.
    pub page_size: nat,
}

/// The state before the first fetch.
pub open spec fn paging_start(
    loop_limit: nat,
    page_size: nat,
    start_after: Option<Seq<char>>,
) -> Paging {
    Paging {
        entries: Seq::empty(),
        cursor: start_after,
        fetches: 0,
        done: loop_limit == 0,
        loop_limit,
        page_size,
    }
}

/// The state after `page` has come in. A collection that has ended takes no
/// further page.
pub open spec fn paging_step(state: Paging, page: Seq<Seq<char>>) -> Paging {
    if state.done {
        state
    } else {
        Paging {
            entries: state.entries + page,
            cursor: if page.len() > 0 {
                Some(page.last())
            } else {
                state.cursor
            },
            fetches: state.fetches + 1,
            done: page.len() < state.page_size || state.fetches + 1 >= state.loop_limit,
            loop_limit: state.loop_limit,
            page_size: state.page_size,
        }
    }
}

/// The state after the pages of `pages` have come in, one after the other.
pub open spec fn paging_run(
    loop_limit: nat,
    page_size: nat,
    start_after: Option<Seq<char>>,
    pages: Seq<Seq<Seq<char>>>,
) -> Paging
    decreases pages.len(),
{
    if pages.len() == 0 {
        paging_start(loop_limit, page_size, start_after)
    } else {
        paging_step(
            paging_run(loop_limit, page_size, start_after, pages.drop_last()),
            pages.last(),
        )
    }
}

/// A run keeps the budget and the page size that it started with.
pub proof fn lemma_run_keeps_limits(
    loop_limit: nat,
    page_size: nat,
    start_after: Option<Seq<char>>,
    pages: Seq<Seq<Seq<char>>>,
)
    ensures
        paging_run(loop_limit, page_size, start_after, pages).loop_limit == loop_limit,
        paging_run(loop_limit, page_size, start_after, pages).page_size == page_size,
    decreases pages.len(),
{
    if pages.len() > 0 {
        lemma_run_keeps_limits(loop_limit, page_size, start_after, pages.drop_last());
    }
}

/// Whether `pages` are the pages of one whole collection: the collection
/// ends with the last of them, and with none before.
pub open spec fn paging_complete(
    loop_limit: nat,
    page_size: nat,
    start_after: Option<Seq<char>>,
    pages: Seq<Seq<Seq<char>>>,
) -> bool {
    &&& paging_run(loop_limit, page_size, start_after, pages).done
    &&& forall|k: int|
        0 <= k < pages.len() ==> !(#[trigger] paging_run(
            loop_limit,
            page_size,
            start_after,
            pages.take(k),
        )).done
}

/// Collects pages until a short page or the end of the budget.
pub struct Collector {
    entries: Vec<String>,
    cursor: Option<String>,
    fetches: u32,
    loop_limit: u32,
    page_size: u32,
    done: bool,
}

impl Collector {
    /// The state of the collection.
    pub closed spec fn state(&self) -> Paging {
        Paging {
            entries: texts(self.entries@),
            cursor: optional_text(self.cursor),
            fetches: self.fetches as nat,
            done: self.done,
            loop_limit: self.loop_limit as nat,
            page_size: self.page_size as nat,
        }
    }

    /// A collector never exceeds its budget, and has ended when the budget
    /// is spent.
    #[verifier::type_invariant]
    spec fn within_budget(self) -> bool {
        &&& self.fetches <= self.loop_limit
        &&& self.fetches == self.loop_limit ==> self.done
    }

    /// A collector that has taken no page yet.
    pub fn new(loop_limit: u32, page_size: u32, start_after: Option<String>) -> (c: Self)
        ensures
            c.state() == paging_start(
                loop_limit as nat,
                page_size as nat,
                optional_text(start_after),
            ),
    {
        let c = Collector {
            entries: Vec::new(),
            cursor: start_after,
            fetches: 0,
            loop_limit,
            page_size,
            done: loop_limit == 0,
        };
        assert(texts(c.entries@) =~= Seq::empty());
        c
    }

    /// Whether the collection has ended.
    pub fn is_done(&self) -> (done: bool)
        ensures
            done == self.state().done,
    {
        self.done
    }

    /// The entry after which the next page is to start.
    pub fn cursor(&self) -> (cursor: Option<String>)
        ensures
            optional_text(cursor) == self.state().cursor,
    {
        match &self.cursor {
            Some(text) => Some(text.clone()),
            None => None,
        }
    }

    /// The number of pages taken so far.
    pub fn fetches(&self) -> (n: u32)
        ensures
            n == self.state().fetches,
    {
        self.fetches
    }

    /// The collector after the next page has come in. A collector that has
    /// ended leaves the page aside.
    pub fn accept(self, page: Vec<String>) -> (next: Self)
        ensures
            next.state() == paging_step(self.state(), texts(page@)),
    {
        proof {
            use_type_invariant(&self);
        }
        if self.done {
            return self;
        }
        let ghost taken = page@;
        let Collector { entries, cursor, fetches, loop_limit, page_size, done: _ } = self;
        let ghost before = entries@;
        let mut entries = entries;
        let mut page = page;
        let n: usize = page.len();
        let cursor = if n > 0 {
            Some(page[n - 1].clone())
        } else {
            cursor
        };
        let fetches: u32 = fetches + 1;
        let done: bool = n < page_size as usize || fetches >= loop_limit;
        entries.append(&mut page);
        assert(texts(entries@) =~= texts(before) + texts(taken));
        Collector { entries, cursor, fetches, loop_limit, page_size, done }
    }

    /// Everything collected, in the order it came.
    pub fn into_entries(self) -> (entries: Vec<String>)
        ensures
            texts(entries@) == self.state().entries,
    {
        self.entries
    }
}

/// The page size that a token collection is asked for where the caller names
/// none.
pub const DEFAULT_TOKEN_PAGE: u32 = 100;

/// The page size that a ledger is asked for.
pub const ACCOUNT_PAGE: u32 = 30;

/// The page size of a token collection's fetches.
pub open spec fn token_page_size(max_limit: Option<u32>) -> nat {
    match max_limit {
        Some(limit) => limit as nat,
        None => DEFAULT_TOKEN_PAGE as nat,
    }
}

/// What a collection may come to. The call fails as a whole, with the host's
/// error, where a query message cannot be built or a page cannot be had:
/// that takes a fetch, so with no budget at all the call does not fail.
/// Otherwise it returns what [`paging_run`] collects from the pages that came
/// in: `pages` stands for them, the library cannot say what they hold. They
/// are the pages of one whole collection: fetching stopped with the first
/// short page, or with fetch number `loop_limit`, and not before.
pub open spec fn collection_outcome(
    r: Result<Vec<String>, ContractError>,
    loop_limit: nat,
    page_size: nat,
    start_after: Option<Seq<char>>,
) -> bool {
    match r {
        Err(e) => e is Std && loop_limit > 0,
        Ok(ids) => exists|pages: Seq<Seq<Seq<char>>>|
            {
                &&& paging_complete(loop_limit, page_size, start_after, pages)
                &&& texts(ids@) == (#[trigger] paging_run(
                    loop_limit,
                    page_size,
                    start_after,
                    pages,
                )).entries
            },
    }
}

/// A run that has not ended with any of its pages so far goes on with the
/// next page, and its shorter runs are what they were.
proof fn lemma_run_extends(
    loop_limit: nat,
    page_size: nat,
    start_after: Option<Seq<char>>,
    pages: Seq<Seq<Seq<char>>>,
    page: Seq<Seq<char>>,
)
    requires
        !paging_run(loop_limit, page_size, start_after, pages).done,
        forall|k: int|
            0 <= k < pages.len() ==> !(#[trigger] paging_run(
                loop_limit,
                page_size,
                start_after,
                pages.take(k),
            )).done,
    ensures
        paging_run(loop_limit, page_size, start_after, pages.push(page)) == paging_step(
            paging_run(loop_limit, page_size, start_after, pages),
            page,
        ),
        forall|k: int|
            0 <= k < pages.len() + 1 ==> !(#[trigger] paging_run(
                loop_limit,
                page_size,
                start_after,
                pages.push(page).take(k),
            )).done,
{
    let longer = pages.push(page);
    assert(longer.drop_last() =~= pages);
    assert forall|k: int| 0 <= k < pages.len() + 1 implies !(#[trigger] paging_run(
        loop_limit,
        page_size,
        start_after,
        longer.take(k),
    )).done by {
        if k < pages.len() {
            assert(longer.take(k) =~= pages.take(k));
        } else {
            assert(longer.take(k) =~= pages);
        }
    }
}

/// What a contract lists: the token ids of a collection, or the accounts of
/// a ledger.
#[derive(Clone, Copy, Debug, PartialEq, Eq, Structural)]
enum Listing {
    Tokens,
    Accounts,
}

/// Asks `contract` for one page of its listing: at most `page_size` entries
/// after `cursor`.
fn fetch_page(
    target: &Target,
    contract: &str,
    listing: Listing,
    cursor: Option<String>,
    page_size: u32,
) -> Result<Vec<String>, StdError> {
    match listing {
        Listing::Tokens => {
            let msg = match all_tokens_msg(cursor, page_size) {
                Ok(msg) => msg,
                Err(e) => {
                    return Err(e);
                },
            };
            query_all_tokens(target, contract, msg)
        },
        Listing::Accounts => {
            let msg = match all_accounts_msg(cursor, page_size) {
                Ok(msg) => msg,
                Err(e) => {
                    return Err(e);
                },
            };
            query_all_accounts(target, contract, msg)
        },
    }
}

/// Collects the listing of `contract` in pages of `page_size` entries,
/// starting after `start_after`, in at most `loop_limit` fetches.
fn collect(
    target: &Target,
    contract: &str,
    listing: Listing,
    loop_limit: u32,
    page_size: u32,
    start_after: Option<String>,
) -> (r: Result<Vec<String>, ContractError>)
    ensures
        collection_outcome(r, loop_limit as nat, page_size as nat, optional_text(start_after)),
{
    let ghost first = optional_text(start_after);
    let ghost mut pages: Seq<Seq<Seq<char>>> = Seq::empty();
    let mut collector = Collector::new(loop_limit, page_size, start_after);
    while !collector.is_done()
        invariant
            collector.state() == paging_run(loop_limit as nat, page_size as nat, first, pages),
            forall|k: int|
                0 <= k < pages.len() ==> !(#[trigger] paging_run(
                    loop_limit as nat,
                    page_size as nat,
                    first,
                    pages.take(k),
                )).done,
        decreases loop_limit - collector.state().fetches,
    {
        proof {
            use_type_invariant(&collector);
            lemma_run_keeps_limits(loop_limit as nat, page_size as nat, first, pages);
        }
        let page = match fetch_page(target, contract, listing, collector.cursor(), page_size) {
            Ok(page) => page,
            Err(e) => {
                assert(loop_limit > 0);
                return Err(ContractError::Std(e));
            },
        };
        proof {
            lemma_run_extends(loop_limit as nat, page_size as nat, first, pages, texts(page@));
            pages = pages.push(texts(page@));
        }
        collector = collector.accept(page);
    }
    Ok(collector.into_entries())
}

/// Collects the token ids of the collection `contract`, in pages of
/// `max_limit` ids (of 100 where none is given), starting after
/// `start_after`, in at most `loop_limit` fetches.
///
/// With a budget of no fetch the call asks nothing and returns the empty
/// list. Otherwise it fails as a whole, with the host's error, where a query
/// message cannot be built or a page cannot be had; what was collected by
/// then is dropped. Where it does not fail it returns what [`paging_run`]
/// collects from the pages that came in: `pages` stands for them, the library
/// cannot say what they hold. They are the pages of one whole collection:
/// fetching stopped with the first short page, or with fetch number
/// `loop_limit`, and not before.
pub fn cw721_bundle_query_ids(
    target: &Target,
    loop_limit: u32,
    max_limit: Option<u32>,
    contract: String,
    start_after: Option<String>,
) -> (r: Result<Vec<String>, ContractError>)
    ensures
        collection_outcome(
            r,
            loop_limit as nat,
            token_page_size(max_limit),
            optional_text(start_after),
        ),
        loop_limit == 0 ==> r is Ok && r->Ok_0@.len() == 0,
{
    let page_size: u32 = match max_limit {
        Some(limit) => limit,
        None => DEFAULT_TOKEN_PAGE,
    };
    let r = collect(target, contract.as_str(), Listing::Tokens, loop_limit, page_size, start_after);
    proof {
        if loop_limit == 0 {
            lemma_no_budget(r, page_size as nat, optional_text(start_after));
        }
    }
    r
}

/// Collects the accounts of the ledger `contract`, in pages of 30 accounts,
/// starting after `start_after`, in at most `loop_limit` fetches.
///
/// The outcome is as in [`cw721_bundle_query_ids`], with the page size 30.
pub fn cw20_bundle_query_accounts(
    target: &Target,
    loop_limit: u32,
    contract: String,
    start_after: Option<String>,
) -> (r: Result<Vec<String>, ContractError>)
    ensures
        collection_outcome(r, loop_limit as nat, ACCOUNT_PAGE as nat, optional_text(start_after)),
        loop_limit == 0 ==> r is Ok && r->Ok_0@.len() == 0,
{
    let r = collect(
        target,
        contract.as_str(),
        Listing::Accounts,
        loop_limit,
        ACCOUNT_PAGE,
        start_after,
    );
    proof {
        if loop_limit == 0 {
            lemma_no_budget(r, ACCOUNT_PAGE as nat, optional_text(start_after));
        }
    }
    r
}

/// With a budget of no fetch a collection succeeds, and with the empty list.
pub proof fn lemma_no_budget(
    r: Result<Vec<String>, ContractError>,
    page_size: nat,
    start_after: Option<Seq<char>>,
)
    requires
        collection_outcome(r, 0, page_size, start_after),
    ensures
        r is Ok,
        r->Ok_0@.len() == 0,
{
    let pages = choose|pages: Seq<Seq<Seq<char>>>|
        {
            &&& paging_complete(0, page_size, start_after, pages)
            &&& texts(r->Ok_0@) == (#[trigger] paging_run(0, page_size, start_after, pages)).entries
        };
    lemma_complete_shape(0, page_size, start_after, pages);
    assert(pages =~= Seq::empty());
    assert(texts(r->Ok_0@).len() == 0);
}

/// The shape of a whole collection. It made as many fetches as it has pages
/// and no more than its budget. Every page but the last was full; the last
/// was short, or was fetch number `loop_limit`. What was collected is the
/// pages one after the other, with nothing left out, added or moved. With no
/// budget at all nothing is fetched.
pub proof fn lemma_complete_shape(
    loop_limit: nat,
    page_size: nat,
    start_after: Option<Seq<char>>,
    pages: Seq<Seq<Seq<char>>>,
)
    requires
        paging_complete(loop_limit, page_size, start_after, pages),
    ensures
        paging_run(loop_limit, page_size, start_after, pages).fetches == pages.len(),
        paging_run(loop_limit, page_size, start_after, pages).entries == pages.flatten(),
        pages.len() <= loop_limit,
        loop_limit > 0 ==> pages.len() >= 1,
        forall|k: int| 0 <= k < pages.len() - 1 ==> (#[trigger] pages[k]).len() >= page_size,
        pages.len() > 0 ==> pages.last().len() < page_size || pages.len() == loop_limit,
{
    lemma_run_unended(loop_limit, page_size, start_after, pages);
    pages.lemma_flatten_and_flatten_alt_are_equivalent();
    if pages.len() > 0 {
        assert(pages.take(pages.len() - 1) =~= pages.drop_last());
    }
}

/// What holds of a run none of whose shorter runs has ended.
proof fn lemma_run_unended(
    loop_limit: nat,
    page_size: nat,
    start_after: Option<Seq<char>>,
    pages: Seq<Seq<Seq<char>>>,
)
    requires
        forall|k: int|
            0 <= k < pages.len() ==> !(#[trigger] paging_run(
                loop_limit,
                page_size,
                start_after,
                pages.take(k),
            )).done,
    ensures
        paging_run(loop_limit, page_size, start_after, pages).fetches == pages.len(),
        paging_run(loop_limit, page_size, start_after, pages).entries == pages.flatten_alt(),
        pages.len() <= loop_limit,
        !paging_run(loop_limit, page_size, start_after, pages).done ==> pages.len() < loop_limit,
        forall|k: int| 0 <= k < pages.len() - 1 ==> (#[trigger] pages[k]).len() >= page_size,
        pages.len() > 0 ==> {
            ||| pages.last().len() < page_size
            ||| pages.len() == loop_limit
            ||| !paging_run(loop_limit, page_size, start_after, pages).done
        },
        pages.len() > 0 && !paging_run(loop_limit, page_size, start_after, pages).done
            ==> pages.last().len() >= page_size,
    decreases pages.len(),
{
    if pages.len() > 0 {
        let shorter = pages.drop_last();
        lemma_run_keeps_limits(loop_limit, page_size, start_after, shorter);
        if shorter.len() > 0 {
            lemma_run_keeps_limits(loop_limit, page_size, start_after, shorter.drop_last());
        }
        assert(pages.take(pages.len() - 1) =~= shorter);
        assert forall|k: int| 0 <= k < shorter.len() implies !(#[trigger] paging_run(
            loop_limit,
            page_size,
            start_after,
            shorter.take(k),
        )).done by {
            assert(shorter.take(k) =~= pages.take(k));
        }
        lemma_run_unended(loop_limit, page_size, start_after, shorter);
        assert forall|k: int| 0 <= k < pages.len() - 1 implies (#[trigger] pages[k]).len()
            >= page_size by {
            if k < shorter.len() - 1 {
                assert(shorter[k] == pages[k]);
            } else {
                assert(shorter.last() == pages[k]);
            }
        }
    }
}

/// Page number `k` of the collection `all`, counted from 0, where pages hold
/// `page_size` entries: what a contract serves that lists a collection which
/// does not change between fetches.
pub open spec fn chunk(all: Seq<Seq<char>>, page_size: nat, k: nat) -> Seq<Seq<char>> {
    let from = if k * page_size <= all.len() {
        k * page_size
    } else {
        all.len()
    };
    let to = if (k + 1) * page_size <= all.len() {
        (k + 1) * page_size
    } else {
        all.len()
    };
    all.subrange(from as int, to as int)
}

/// The first `n` pages of the collection `all`.
pub open spec fn chunks(all: Seq<Seq<char>>, page_size: nat, n: nat) -> Seq<Seq<Seq<char>>> {
    Seq::new(n, |k: int| chunk(all, page_size, k as nat))
}

/// The number of fetches that collect a collection of `len` entries: one per
/// full page and one more, which comes back short; or the whole budget, if
/// that is less.
pub open spec fn fetches_needed(len: nat, loop_limit: nat, page_size: nat) -> nat {
    if loop_limit <= len / page_size {
        loop_limit
    } else {
        len / page_size + 1
    }
}

/// The number of entries in the first `k` pages of a collection of `len`
/// entries.
pub open spec fn served(len: nat, page_size: nat, k: nat) -> nat {
    if k * page_size <= len {
        k * page_size
    } else {
        len
    }
}

/// The cursor once the first `count` entries of `all` have been collected:
/// the last of them, or the start where there is none yet.
pub open spec fn cursor_after(
    all: Seq<Seq<char>>,
    start_after: Option<Seq<char>>,
    count: nat,
) -> Option<Seq<char>> {
    if count > 0 {
        Some(all[count - 1])
    } else {
        start_after
    }
}

/// Collecting from a contract that serves an unchanging collection `all`
/// page by page makes [`fetches_needed`] fetches and yields the entries
/// which that many pages hold, in the collection's order: all of them if the
/// budget allows the short last page, the first `loop_limit` pages otherwise.
/// Each fetch is asked to start after the last entry collected before it.
pub proof fn lemma_collects_unchanging(
    all: Seq<Seq<char>>,
    loop_limit: nat,
    page_size: nat,
    start_after: Option<Seq<char>>,
)
    requires
        page_size > 0,
    ensures
        ({
            let n = fetches_needed(all.len(), loop_limit, page_size);
            let pages = chunks(all, page_size, n);
            let end = paging_run(loop_limit, page_size, start_after, pages);
            &&& paging_complete(loop_limit, page_size, start_after, pages)
            &&& end.fetches == n
            &&& loop_limit > all.len() / page_size ==> end.entries == all
            &&& loop_limit <= all.len() / page_size ==> end.entries == all.take(
                (loop_limit * page_size) as int,
            )
            &&& forall|k: int|
                0 <= k <= n ==> (#[trigger] paging_run(
                    loop_limit,
                    page_size,
                    start_after,
                    pages.take(k),
                )).cursor == cursor_after(
                    all,
                    start_after,
                    served(all.len(), page_size, k as nat),
                )
        }),
{
    let n = fetches_needed(all.len(), loop_limit, page_size);
    let pages = chunks(all, page_size, n);
    assert forall|k: int| 0 <= k <= n implies {
        let state = #[trigger] paging_run(loop_limit, page_size, start_after, pages.take(k));
        &&& state.fetches == k
        &&& state.done == (k == n)
        &&& state.entries == all.take(served(all.len(), page_size, k as nat) as int)
        &&& state.cursor == cursor_after(
            all,
            start_after,
            served(all.len(), page_size, k as nat),
        )
    } by {
        lemma_unchanging_run(all, loop_limit, page_size, start_after, k as nat);
        assert(pages.take(k) =~= chunks(all, page_size, k as nat));
    }
    assert(pages.take(n as int) =~= pages);
    lemma_served(all.len(), page_size, n);
    if loop_limit > all.len() / page_size {
        assert(all.take(all.len() as int) =~= all);
    }
}

/// The first `k` pages hold all entries once `k` exceeds the number of full
/// pages, and `k` full pages before that.
proof fn lemma_served(len: nat, page_size: nat, k: nat)
    requires
        page_size > 0,
    ensures
        k <= len / page_size ==> served(len, page_size, k) == k * page_size,
        k > len / page_size ==> served(len, page_size, k) == len,
{
    vstd::arithmetic::div_mod::lemma_fundamental_div_mod(len as int, page_size as int);
    let q = len / page_size;
    if k <= q {
        assert(k * page_size <= q * page_size) by (nonlinear_arith)
            requires
                k <= q,
                page_size > 0,
        ;
        assert(q * page_size == page_size * q) by (nonlinear_arith);
    } else {
        assert(k * page_size >= (q + 1) * page_size) by (nonlinear_arith)
            requires
                k >= q + 1,
                page_size > 0,
        ;
        assert((q + 1) * page_size == page_size * q + page_size) by (nonlinear_arith);
    }
}

/// The run over the first `k` pages of an unchanging collection, for `k` up
/// to the number of fetches needed.
#[verifier::spinoff_prover]
proof fn lemma_unchanging_run(
    all: Seq<Seq<char>>,
    loop_limit: nat,
    page_size: nat,
    start_after: Option<Seq<char>>,
    k: nat,
)
    requires
        page_size > 0,
        k <= fetches_needed(all.len(), loop_limit, page_size),
    ensures
        ({
            let state = paging_run(loop_limit, page_size, start_after, chunks(all, page_size, k));
            &&& state.fetches == k
            &&& state.done == (k == fetches_needed(all.len(), loop_limit, page_size))
            &&& state.entries == all.take(served(all.len(), page_size, k) as int)
            &&& state.cursor == cursor_after(all, start_after, served(all.len(), page_size, k))
        }),
    decreases k,
{
    let len = all.len();
    let n = fetches_needed(len, loop_limit, page_size);
    let full = len / page_size;
    let pages = chunks(all, page_size, k);
    let state = paging_run(loop_limit, page_size, start_after, pages);
    if k == 0 {
        assert(state == paging_start(loop_limit, page_size, start_after));
        assert(served(len, page_size, 0) == 0) by (nonlinear_arith);
        assert(all.take(0) =~= Seq::empty());
        assert(n == 0 <==> loop_limit == 0);
    } else {
        let j = (k - 1) as nat;
        lemma_unchanging_run(all, loop_limit, page_size, start_after, j);
        let before = paging_run(loop_limit, page_size, start_after, chunks(all, page_size, j));
        let page = chunk(all, page_size, j);
        assert(pages.drop_last() =~= chunks(all, page_size, j));
        assert(pages.last() == page);
        lemma_run_keeps_limits(loop_limit, page_size, start_after, chunks(all, page_size, j));
        assert(state == paging_step(before, page));
        // The page before this one was not the last: the budget and the full
        // pages both reach beyond it.
        assert(j < n);
        assert(j < loop_limit);
        assert(j <= full);
        assert(!before.done);
        // The first j pages are full, so they hold j * page_size entries.
        lemma_served(len, page_size, j);
        lemma_served(len, page_size, k);
        let from = served(len, page_size, j);
        let to = served(len, page_size, k);
        assert(from == j * page_size);
        assert((j + 1) * page_size == j * page_size + page_size) by (nonlinear_arith);
        assert(k * page_size == j * page_size + page_size) by (nonlinear_arith)
            requires
                k == j + 1,
        ;
        assert(from <= to <= len);
        assert(page == all.subrange(from as int, to as int));
        assert(page.len() == to - from);
        // The entries grow by the page.
        assert(all.take(from as int) + page =~= all.take(to as int));
        assert(state.entries == all.take(to as int));
        assert(state.fetches == k);
        // The page is short exactly when it is past the full pages.
        if k <= full {
            assert(to == k * page_size);
            assert(page.len() == page_size);
            assert(state.done == (k >= loop_limit));
            assert(state.done == (k == n));
        } else {
            assert(k == full + 1);
            assert(n == k);
            assert(to == len);
            vstd::arithmetic::div_mod::lemma_fundamental_div_mod(len as int, page_size as int);
            assert(j * page_size == page_size * full) by (nonlinear_arith)
                requires
                    j == full,
            ;
            assert(page.len() == len % page_size);
            assert(page.len() < page_size);
            assert(state.done);
        }
        // The cursor is the last entry collected.
        if page.len() > 0 {
            assert(page.last() == all[to - 1]);
            assert(state.cursor == Some(all[to - 1]));
        } else {
            assert(to == from);
            assert(state.cursor == before.cursor);
        }
        assert(state.cursor == cursor_after(all, start_after, to));
    }
}

/// A collection can be repeated: two calls with the same budget, page size
/// and start that were served the same pages return the same entries.
pub proof fn lemma_collection_repeatable(
    first: Vec<String>,
    second: Vec<String>,
    loop_limit: nat,
    page_size: nat,
    start_after: Option<Seq<char>>,
    pages: Seq<Seq<Seq<char>>>,
)
    requires
        texts(first@) == paging_run(loop_limit, page_size, start_after, pages).entries,
        texts(second@) == paging_run(loop_limit, page_size, start_after, pages).entries,
    ensures
        first@.len() == second@.len(),
        forall|i: int| 0 <= i < first@.len() ==> (#[trigger] first@[i])@ == second@[i]@,
{
    assert(texts(first@).len() == first@.len());
    assert(texts(second@).len() == second@.len());
    assert forall|i: int| 0 <= i < first@.len() implies (#[trigger] first@[i])@ == second@[i]@ by {
        assert(texts(first@)[i] == first@[i]@);
        assert(texts(second@)[i] == second@[i]@);
    }
}

} // verus!
