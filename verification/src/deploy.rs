//! The deploy orchestrator's decisions.
//!
//! Deployment walks a fixed sequence of phases: ensure the remote program
//! account exists, write the missing config lines, and attach the
//! collection item if one is designated. Each phase's decision — what to do
//! next, given only the cache and the fetched remote state — lives here and
//! is verified; the surrounding driver performs the network calls and the
//! durable writes and reports their results back. Re-running the
//! orchestrator against the same cache re-evaluates every phase from the
//! cache alone, which is what makes a crashed run resume correctly.

use vstd::prelude::*;
use vstd::string::StringSliceAdditionalSpecFns;
use vstd::utf8::encode_utf8;

use crate::cache::{Cache, CacheProgram, ItemRecord, COLLECTION_INDEX};
use crate::chain::{check_pubkey, pubkey_str_valid};
use crate::delta::{lemma_delta_indices_distinct, generate_config_lines, spec_generate};
use crate::errors::{CacheError, DeployError};
use crate::upload::{UploadOutcome, UploadRun, WriteOutcome};

verus! {

/// Longest item name the wire format carries.
pub const MAX_NAME_LENGTH: usize = 32;

/// Longest symbol the wire format carries.
pub const MAX_SYMBOL_LENGTH: usize = 10;

/// Longest metadata link the wire format carries.
pub const MAX_URI_LENGTH: usize = 200;

/// The whole scale of the royalty share: one hundred percent in basis
/// points.
pub const MAX_FEE_BASIS_POINTS: u16 = 10000;

/// Bytes one config line occupies in the program account: each of the two
/// strings is stored length-prefixed at its maximum size.
pub const CONFIG_LINE_SIZE: u64 = 4 + 32 + 4 + 200;

/// Bytes of program account data before the config-line section: the fixed
/// header and data record the remote program lays out ahead of the lines.
pub const CONFIG_ARRAY_START: u64 = 705;

/// The account bytes a deployment needs: with hidden settings no per-item
/// storage exists and the fixed prefix suffices; otherwise the prefix is
/// followed by the counted config lines and two bitmasks with one bit per
/// item.
pub open spec fn spec_account_size(items: int, hidden: bool) -> int {
    if hidden {
        CONFIG_ARRAY_START as int
    } else {
        CONFIG_ARRAY_START + 4 + items * CONFIG_LINE_SIZE + 8 + 2 * (items / 8 + 1)
    }
}

/// Computes the program account size for a deployment, failing exactly
/// when the size does not fit the address space of the size field.
pub fn tars_account_size(items_available: u64, hidden: bool) -> (r: Result<u64, DeployError>)
    ensures
        r matches Ok(size) ==> size == spec_account_size(items_available as int, hidden),
        r is Err <==> spec_account_size(items_available as int, hidden) > u64::MAX,
        r is Err ==> r == Err::<u64, DeployError>(DeployError::AccountSizeOverflow),
{
    if hidden {
        return Ok(CONFIG_ARRAY_START);
    }
    let lines = match items_available.checked_mul(CONFIG_LINE_SIZE) {
        Some(v) => v,
        None => {
            return Err(DeployError::AccountSizeOverflow);
        },
    };
    let masks = 2 * (items_available / 8 + 1);
    let fixed = CONFIG_ARRAY_START + 4 + 8;
    let with_masks = match lines.checked_add(masks) {
        Some(v) => v,
        None => {
            return Err(DeployError::AccountSizeOverflow);
        },
    };
    match with_masks.checked_add(fixed) {
        Some(v) => Ok(v),
        None => Err(DeployError::AccountSizeOverflow),
    }
}

/// Checks that the signing account can pay the rent cost, reporting what
/// it holds against what is needed when it cannot.
pub fn check_balance(balance: u64, required: u64) -> (r: Result<(), DeployError>)
    ensures
        r is Ok <==> required <= balance,
        r is Err ==> r == Err::<(), DeployError>(DeployError::BalanceTooLow(balance, required)),
{
    if required > balance {
        Err(DeployError::BalanceTooLow(balance, required))
    } else {
        Ok(())
    }
}

/// Whether an item name fits the wire format.
pub fn check_name(name: &str) -> (ok: bool)
    ensures
        ok == (name.spec_bytes().len() <= MAX_NAME_LENGTH),
{
    name.as_bytes().len() <= MAX_NAME_LENGTH
}

/// Whether a metadata link fits the wire format.
pub fn check_url(url: &str) -> (ok: bool)
    ensures
        ok == (url.spec_bytes().len() <= MAX_URI_LENGTH),
{
    url.as_bytes().len() <= MAX_URI_LENGTH
}

/// Whether a symbol fits the wire format.
pub fn check_symbol(symbol: &str) -> (ok: bool)
    ensures
        ok == (symbol.spec_bytes().len() <= MAX_SYMBOL_LENGTH),
{
    symbol.as_bytes().len() <= MAX_SYMBOL_LENGTH
}

/// Whether a royalty share stays on the whole-basis-points scale.
pub fn check_seller_fee_basis_points(fee: u16) -> (ok: bool)
    ensures
        ok == (fee <= MAX_FEE_BASIS_POINTS),
{
    fee <= MAX_FEE_BASIS_POINTS
}

/// The first fault a record has, if any: an empty or overlong name, then
/// an empty or overlong link.
pub open spec fn spec_item_fault(k: i64, rec: ItemRecord) -> Option<DeployError> {
    if rec.name@.len() == 0 {
        Some(DeployError::MissingName(k))
    } else if encode_utf8(rec.name@).len() > MAX_NAME_LENGTH {
        Some(DeployError::NameTooLong(k))
    } else if rec.metadata_link@.len() == 0 {
        Some(DeployError::MissingMetadataLink(k))
    } else if encode_utf8(rec.metadata_link@).len() > MAX_URI_LENGTH {
        Some(DeployError::UrlTooLong(k))
    } else {
        None
    }
}

/// The first fault among the entries, scanning in insertion order.
pub open spec fn spec_validate_items(entries: Seq<(i64, ItemRecord)>) -> Result<(), DeployError>
    decreases entries.len(),
{
    if entries.len() == 0 {
        Ok(())
    } else {
        match spec_item_fault(entries[0].0, entries[0].1) {
            Some(e) => Err(e),
            None => spec_validate_items(entries.drop_first()),
        }
    }
}

/// Checks every cached record's name and metadata link before anything is
/// submitted: defense in depth, the fields were validated when the cache
/// was built.
pub fn validate_cache_items(cache: &Cache) -> (r: Result<(), DeployError>)
    requires
        cache.wf(),
    ensures
        r == spec_validate_items(cache.entries()),
{
    let n = cache.len();
    let mut i: usize = 0;
    proof {
        assert(cache.entries().skip(0) =~= cache.entries());
    }
    while i < n
        invariant
            cache.wf(),
            n == cache.entries().len(),
            0 <= i <= n,
            spec_validate_items(cache.entries()) == spec_validate_items(
                cache.entries().skip(i as int),
            ),
        decreases n - i,
    {
        let entry = cache.entries_vec();
        let k = entry[i].0;
        let rec = &entry[i].1;
        let ghost tail = cache.entries().skip(i as int);
        proof {
            assert(tail[0] == cache.entries()[i as int]);
            assert(tail.drop_first() =~= cache.entries().skip(i + 1));
        }
        if rec.name.as_str().is_empty() {
            return Err(DeployError::MissingName(k));
        }
        if !check_name(rec.name.as_str()) {
            return Err(DeployError::NameTooLong(k));
        }
        if rec.metadata_link.as_str().is_empty() {
            return Err(DeployError::MissingMetadataLink(k));
        }
        if !check_url(rec.metadata_link.as_str()) {
            return Err(DeployError::UrlTooLong(k));
        }
        i += 1;
    }
    proof {
        assert(cache.entries().skip(n as int) =~= Seq::<(i64, ItemRecord)>::empty());
    }
    Ok(())
}

/// Runs the checks that precede any remote call, in the order the
/// pipeline makes them: every cached record's fields, then the count
/// reconciliation, then the symbol and royalty limits. Returns the plan of
/// the phases that apply.
pub fn deploy_preflight(cache: &Cache, num_items: u64, symbol: &str, fee: u16, hidden: bool) -> (r:
    Result<DeployPlan, DeployError>)
    requires
        cache.wf(),
    ensures
        match spec_validate_items(cache.entries()) {
            Err(e) => r == Err::<DeployPlan, DeployError>(e),
            Ok(()) => if cache.spec_non_collection_count() != num_items {
                r == Err::<DeployPlan, DeployError>(
                    DeployError::CountMismatch(
                        num_items,
                        cache.spec_non_collection_count() as u64,
                    ),
                )
            } else if symbol.spec_bytes().len() > MAX_SYMBOL_LENGTH {
                r == Err::<DeployPlan, DeployError>(DeployError::SymbolTooLong)
            } else if fee > MAX_FEE_BASIS_POINTS {
                r == Err::<DeployPlan, DeployError>(DeployError::FeeBasisPointsOverMax(fee))
            } else {
                r matches Ok(plan) && plan == deploy_spec_plan(hidden, cache.has_key(
                    COLLECTION_INDEX,
                ))
            },
        },
{
    if let Err(e) = validate_cache_items(cache) {
        return Err(e);
    }
    let count = cache.non_collection_count() as u64;
    if count != num_items {
        return Err(DeployError::CountMismatch(num_items, count));
    }
    if !check_symbol(symbol) {
        return Err(DeployError::SymbolTooLong);
    }
    if !check_seller_fee_basis_points(fee) {
        return Err(DeployError::FeeBasisPointsOverMax(fee));
    }
    Ok(deploy_plan(hidden, cache.has_collection()))
}

/// The plan the pre-flight hands back on success.
pub open spec fn deploy_spec_plan(hidden: bool, collection_in_cache: bool) -> DeployPlan {
    DeployPlan {
        total_steps: (2 + (if collection_in_cache {
            1int
        } else {
            0int
        }) - (if hidden {
            1int
        } else {
            0int
        })) as u8,
        write_items: !hidden,
        attach_collection: collection_in_cache,
    }
}

/// The phases a deployment will walk, and the step count the operator sees:
/// two fixed steps, one fewer when no config lines are written, one more
/// when a collection item is attached.
#[derive(Debug, Clone, PartialEq, Eq)]
pub struct DeployPlan {
    pub total_steps: u8,
    pub write_items: bool,
    pub attach_collection: bool,
}

/// Lays out the run: which phases apply and how many steps to report.
pub fn deploy_plan(hidden: bool, collection_in_cache: bool) -> (r: DeployPlan)
    ensures
        r.total_steps as int == 2 + (if collection_in_cache {
            1int
        } else {
            0int
        }) - (if hidden {
            1int
        } else {
            0int
        }),
        r.write_items == !hidden,
        r.attach_collection == collection_in_cache,
{
    let mut total_steps: u8 = 2;
    if collection_in_cache {
        total_steps = total_steps + 1;
    }
    if hidden {
        total_steps = total_steps - 1;
    }
    DeployPlan { total_steps, write_items: !hidden, attach_collection: collection_in_cache }
}

/// What the account phase must do.
#[derive(Debug, Clone, PartialEq, Eq)]
pub enum AccountAction {
    /// No account exists yet: create one and register its address.
    CreateNew,
    /// An account is recorded: fetch it at this address and verify it
    /// still resolves.
    Verify(String),
}

/// Decides the account phase from the cache alone: an empty address means
/// no account was ever created; a recorded address must parse before it is
/// fetched.
pub fn ensure_account_action(cache: &Cache) -> (r: Result<AccountAction, CacheError>)
    requires
        cache.wf(),
    ensures
        cache.program.tars@.len() == 0 ==> r == Ok::<AccountAction, CacheError>(
            AccountAction::CreateNew,
        ),
        cache.program.tars@.len() > 0 && pubkey_str_valid(cache.program.tars@) ==> r == Ok::<
            AccountAction,
            CacheError,
        >(AccountAction::Verify(cache.program.tars)),
        cache.program.tars@.len() > 0 && !pubkey_str_valid(cache.program.tars@) ==> r == Err::<
            AccountAction,
            CacheError,
        >(CacheError::InvalidTarsAddress(cache.program.tars)),
{
    if cache.program.tars.as_str().is_empty() {
        Ok(AccountAction::CreateNew)
    } else if check_pubkey(cache.program.tars.as_str()) {
        Ok(AccountAction::Verify(cache.program.tars.clone()))
    } else {
        Err(CacheError::InvalidTarsAddress(cache.program.tars.clone()))
    }
}

/// Records the address of the just-created program account. The address
/// slot must still be empty: once set it is immutable for the life of the
/// cache, so a crash right after creation cannot orphan the account.
pub fn register_created_account(cache: &mut Cache, address: String)
    requires
        old(cache).wf(),
        old(cache).program.tars@.len() == 0,
    ensures
        final(cache).wf(),
        final(cache).entries() == old(cache).entries(),
        final(cache).program.tars == address,
        final(cache).program.collection_mint@ == Seq::<char>::empty(),
{
    let ghost prev = *cache;
    cache.program = CacheProgram::new_from_cm(address);
    proof {
        prev.lemma_same_entries(*cache);
        assert(cache.program.collection_mint@ =~= Seq::<char>::empty());
    }
}

/// Folds the result of fetching the recorded account back into the run: a
/// cached address that no longer resolves is fatal, and a resolving
/// account tells whether any item was already redeemed.
pub fn verify_account_fetch(found: bool, items_redeemed: u64) -> (r: Result<bool, DeployError>)
    ensures
        r is Ok <==> found,
        r matches Ok(redeemed) ==> redeemed == (items_redeemed > 0),
        r is Err ==> r == Err::<bool, DeployError>(DeployError::AccountNotFound),
{
    if found {
        Ok(items_redeemed > 0)
    } else {
        Err(DeployError::AccountNotFound)
    }
}

/// What the collection phase must do.
#[derive(Debug, Clone, PartialEq, Eq)]
pub enum CollectionAction {
    /// The item set designates no collection item.
    NotApplicable,
    /// An item was already redeemed remotely: the collection can no longer
    /// be modified.
    SkipRedeemed,
    /// The collection item is already confirmed: nothing to do.
    AlreadyAttached,
    /// Perform the one-shot create-and-attach call.
    Attach,
}

/// Decides the collection phase from the cache and the fetched redeem
/// count.
pub fn collection_action(cache: &Cache, item_redeemed: bool) -> (r: CollectionAction)
    requires
        cache.wf(),
    ensures
        !cache.has_key(COLLECTION_INDEX) ==> r == CollectionAction::NotApplicable,
        cache.has_key(COLLECTION_INDEX) && item_redeemed ==> r == CollectionAction::SkipRedeemed,
        cache.has_key(COLLECTION_INDEX) && !item_redeemed ==> r == (if cache.spec_get(
            COLLECTION_INDEX,
        )->Some_0.on_chain {
            CollectionAction::AlreadyAttached
        } else {
            CollectionAction::Attach
        }),
{
    match cache.get(COLLECTION_INDEX) {
        None => CollectionAction::NotApplicable,
        Some(rec) => {
            if item_redeemed {
                CollectionAction::SkipRedeemed
            } else if rec.on_chain {
                CollectionAction::AlreadyAttached
            } else {
                CollectionAction::Attach
            }
        },
    }
}

/// Records a successful create-and-attach: the collection item is now on
/// chain and the cache remembers the collection mint address.
pub fn register_collection_attached(cache: &mut Cache, mint: String)
    requires
        old(cache).wf(),
        old(cache).has_key(COLLECTION_INDEX),
    ensures
        final(cache).wf(),
        final(cache).keys() == old(cache).keys(),
        final(cache).spec_get(COLLECTION_INDEX) == Some(
            ItemRecord {
                on_chain: true,
                ..old(cache).spec_get(COLLECTION_INDEX)->Some_0
            },
        ),
        forall|k: i64|
            k != COLLECTION_INDEX ==> final(cache).spec_get(k) == old(cache).spec_get(k),
        final(cache).program.tars == old(cache).program.tars,
        final(cache).program.collection_mint == mint,
{
    let ghost prev = *cache;
    cache.program.collection_mint = mint;
    proof {
        prev.lemma_same_entries(*cache);
    }
    cache.mark_on_chain(COLLECTION_INDEX);
}

/// Where the sale proceeds go.
#[derive(Debug, Clone, PartialEq, Eq)]
pub enum Treasury {
    /// A given token account of the payment token.
    SplAccount(String),
    /// The payer's associated token account of this payment token, to be
    /// derived by the caller.
    SplAta(String),
    /// A native account: the configured treasury, or the payer itself.
    Sol(String),
}

/// Decides where proceeds are to be received. A payment token excludes a
/// native treasury account; without an explicit token account the payer's
/// associated account serves.
pub fn select_treasury(spl_token: &Option<String>, spl_token_account: &Option<String>,
    sol_treasury_account: &Option<String>, payer: &str) -> (r: Result<Treasury, DeployError>)
    ensures
        match spl_token {
            Some(token) => {
                if sol_treasury_account is Some {
                    r == Err::<Treasury, DeployError>(DeployError::TreasuryConflict)
                } else {
                    match spl_token_account {
                        Some(acct) => r == Ok::<Treasury, DeployError>(
                            Treasury::SplAccount(*acct),
                        ),
                        None => r == Ok::<Treasury, DeployError>(Treasury::SplAta(*token)),
                    }
                }
            },
            None => match sol_treasury_account {
                Some(acct) => r == Ok::<Treasury, DeployError>(Treasury::Sol(*acct)),
                None => r matches Ok(t) && t matches Treasury::Sol(p) && p@ == payer@,
            },
        },
{
    match spl_token {
        Some(token) => {
            if sol_treasury_account.is_some() {
                Err(DeployError::TreasuryConflict)
            } else {
                match spl_token_account {
                    Some(acct) => Ok(Treasury::SplAccount(acct.clone())),
                    None => Ok(Treasury::SplAta(token.clone())),
                }
            }
        },
        None => {
            match sol_treasury_account {
                Some(acct) => Ok(Treasury::Sol(acct.clone())),
                None => Ok(Treasury::Sol(payer.to_owned())),
            }
        },
    }
}

/// Starts the write phase: computes the delta against the cache and seeds
/// an upload run over it with the given retry budget.
pub fn start_upload(num_items: u64, cache: &Cache, max_retries: u32) -> (r: Result<
    UploadRun,
    DeployError,
>)
    requires
        cache.wf(),
        num_items <= u32::MAX,
    ensures
        match r {
            Ok(run) => {
                &&& spec_generate(*cache, num_items) matches Ok(d) && run.queued().len() == d.len()
                    && (forall|i: int|
                    0 <= i < d.len() ==> ((#[trigger] run.queued()[i]).index == d[i].0
                        && run.queued()[i].line == d[i].1 && run.queued()[i].attempts == 0))
                &&& run.wf()
                &&& !run.is_interrupted()
                &&& run.inflight().len() == 0
                &&& run.confirmed_seq().len() == 0
                &&& run.errors_seq().len() == 0
                &&& run.retry_budget() == max_retries
            },
            Err(e) => spec_generate(*cache, num_items) == Err::<Seq<(u32, crate::delta::ConfigLine)>, _>(e),
        },
{
    let delta = match generate_config_lines(num_items, cache) {
        Ok(d) => d,
        Err(e) => {
            return Err(e);
        },
    };
    proof {
        lemma_delta_indices_distinct(*cache, num_items, delta@);
    }
    let run = UploadRun::new(delta, max_retries);
    Ok(run)
}

/// Folds one gateway outcome into the run and the cache together: a
/// confirmation moves the item to the confirmed pool and marks it on chain
/// in the same step, so the caller can persist the cache before touching
/// anything else; any other outcome leaves the cache untouched.
pub fn apply_write_outcome(run: &mut UploadRun, cache: &mut Cache, index: u32,
    outcome: WriteOutcome)
    requires
        old(run).wf(),
        old(run).inflight_has(index),
        old(cache).wf(),
    ensures
        final(run).wf(),
        final(cache).wf(),
        final(run).is_interrupted() == old(run).is_interrupted(),
        final(run).initial_indices() == old(run).initial_indices(),
        final(run).retry_budget() == old(run).retry_budget(),
        final(run).inflight() == old(run).inflight().remove(old(run).inflight_at(index)),
        match outcome {
            WriteOutcome::Confirmed => {
                &&& final(run).confirmed_seq() == old(run).confirmed_seq().push(index)
                &&& final(run).queued() == old(run).queued()
                &&& final(run).errors_seq() == old(run).errors_seq()
            },
            WriteOutcome::Transient(msg) => {
                if old(run).inflight_entry(index).attempts < old(run).retry_budget() {
                    &&& final(run).queued() == old(run).queued().push(
                        crate::upload::PendingWrite {
                            index,
                            line: old(run).inflight_entry(index).line,
                            attempts: (old(run).inflight_entry(index).attempts + 1) as u32,
                        },
                    )
                    &&& final(run).confirmed_seq() == old(run).confirmed_seq()
                    &&& final(run).errors_seq() == old(run).errors_seq()
                } else {
                    &&& final(run).errors_seq() == old(run).errors_seq().push((index, msg))
                    &&& final(run).queued() == old(run).queued()
                    &&& final(run).confirmed_seq() == old(run).confirmed_seq()
                }
            },
            WriteOutcome::Rejected(msg) => {
                &&& final(run).errors_seq() == old(run).errors_seq().push((index, msg))
                &&& final(run).queued() == old(run).queued()
                &&& final(run).confirmed_seq() == old(run).confirmed_seq()
            },
        },
        outcome is Confirmed ==> {
            &&& final(cache).keys() == old(cache).keys()
            &&& final(cache).program == old(cache).program
            &&& (old(cache).has_key(index as i64) ==> final(cache).spec_get(index as i64) == Some(
                ItemRecord {
                    on_chain: true,
                    ..old(cache).spec_get(index as i64)->Some_0
                },
            ))
            &&& forall|k: i64|
                k != index as i64 ==> final(cache).spec_get(k) == old(cache).spec_get(k)
        },
        !(outcome is Confirmed) ==> *final(cache) == *old(cache),
{
    let is_confirmed = match &outcome {
        WriteOutcome::Confirmed => true,
        WriteOutcome::Transient(_) => false,
        WriteOutcome::Rejected(_) => false,
    };
    run.report(index, outcome);
    if is_confirmed {
        cache.mark_on_chain(index as i64);
    }
}

/// Closes the write phase: the run went clean only when no permanent
/// failure was recorded; otherwise the failures are summarized by count,
/// while everything already confirmed stays confirmed in the cache.
pub fn finish_write_phase(outcome: &UploadOutcome) -> (r: Result<(), DeployError>)
    ensures
        r is Ok <==> outcome.errors@.len() == 0,
        r is Err ==> r == Err::<(), DeployError>(
            DeployError::AddConfigLineFailed(outcome.errors@.len() as u64),
        ),
{
    if outcome.errors.len() == 0 {
        Ok(())
    } else {
        Err(DeployError::AddConfigLineFailed(outcome.errors.len() as u64))
    }
}

/// The messages are pairwise distinct.
#[verifier::opaque]
pub open spec fn msgs_distinct(msgs: Seq<String>) -> bool {
    forall|j1: int, j2: int| 0 <= j1 < j2 < msgs.len() ==> (#[trigger] msgs[j1])@ != (
    #[trigger] msgs[j2])@
}

/// Every message of the first `upto` failures occurs among `msgs`.
#[verifier::opaque]
pub open spec fn msgs_cover(errs: Seq<(u32, String)>, upto: int, msgs: Seq<String>) -> bool {
    forall|p: int|
        0 <= p < upto ==> exists|j: int|
            0 <= j < msgs.len() && (#[trigger] msgs[j])@ == (#[trigger] errs[p]).1@
}

/// Every message among `msgs` is the message of one of the first `upto`
/// failures.
#[verifier::opaque]
pub open spec fn msgs_only_from(errs: Seq<(u32, String)>, upto: int, msgs: Seq<String>) -> bool {
    forall|j: int|
        0 <= j < msgs.len() ==> exists|p: int|
            0 <= p < upto && (#[trigger] errs[p]).1@ == (#[trigger] msgs[j])@
}

/// One step of message deduplication: after handling entry `i` the three
/// facts — distinct messages, every handled message present, nothing but
/// handled messages present — carry over.
proof fn lemma_dedup_step(
    errs: Seq<(u32, String)>,
    i: int,
    pre: Seq<String>,
    post: Seq<String>,
    seen: bool,
)
    requires
        0 <= i < errs.len(),
        seen == exists|q: int| 0 <= q < pre.len() && (#[trigger] pre[q])@ == errs[i].1@,
        seen ==> post == pre,
        !seen ==> post.len() == pre.len() + 1 && (forall|q: int|
            0 <= q < pre.len() ==> #[trigger] post[q] == pre[q]) && post[pre.len() as int]@
            == errs[i].1@,
        msgs_distinct(pre),
        msgs_cover(errs, i, pre),
        msgs_only_from(errs, i, pre),
    ensures
        msgs_distinct(post),
        msgs_cover(errs, i + 1, post),
        msgs_only_from(errs, i + 1, post),
{
    reveal(msgs_distinct);
    reveal(msgs_cover);
    reveal(msgs_only_from);
    assert forall|j1: int, j2: int| 0 <= j1 < j2 < post.len() implies (#[trigger] post[j1])@ != (
    #[trigger] post[j2])@ by {
        if j2 < pre.len() {
            assert(pre[j1]@ != pre[j2]@);
        } else {
            assert(!seen);
            assert(post[j2]@ == errs[i].1@);
            assert(post[j1] == pre[j1]);
            if pre[j1]@ == errs[i].1@ {
                assert(exists|q: int| 0 <= q < pre.len() && (#[trigger] pre[q])@ == errs[i].1@);
            }
        }
    }
    assert forall|p: int| 0 <= p < i + 1 implies exists|j: int|
        0 <= j < post.len() && (#[trigger] post[j])@ == (#[trigger] errs[p]).1@ by {
        if p < i {
            let j = choose|j: int| 0 <= j < pre.len() && (#[trigger] pre[j])@ == errs[p].1@;
            assert(post[j]@ == errs[p].1@);
        } else {
            if seen {
                let q = choose|q: int| 0 <= q < pre.len() && (#[trigger] pre[q])@ == errs[i].1@;
                assert(post[q]@ == errs[p].1@);
            } else {
                assert(post[pre.len() as int]@ == errs[p].1@);
            }
        }
    }
    assert forall|j: int| 0 <= j < post.len() implies exists|p: int|
        0 <= p < i + 1 && (#[trigger] errs[p]).1@ == (#[trigger] post[j])@ by {
        if j < pre.len() {
            let p = choose|p: int| 0 <= p < i && (#[trigger] errs[p]).1@ == pre[j]@;
            assert(errs[p].1@ == post[j]@);
        } else {
            assert(errs[i].1@ == post[j]@);
        }
    }
}

/// Deduplicates the failure messages for reporting: every distinct message
/// once, first occurrences first.
pub fn dedup_error_messages(errors: &Vec<(u32, String)>) -> (r: Vec<String>)
    ensures
        msgs_distinct(r@),
        msgs_cover(errors@, errors@.len() as int, r@),
        msgs_only_from(errors@, errors@.len() as int, r@),
{
    let mut out: Vec<String> = Vec::new();
    proof {
        reveal(msgs_distinct);
        reveal(msgs_cover);
        reveal(msgs_only_from);
        assert(msgs_distinct(out@));
        assert(msgs_cover(errors@, 0, out@));
        assert(msgs_only_from(errors@, 0, out@));
    }
    let n = errors.len();
    let mut i: usize = 0;
    while i < n
        invariant
            n == errors@.len(),
            0 <= i <= n,
            msgs_distinct(out@),
            msgs_cover(errors@, i as int, out@),
            msgs_only_from(errors@, i as int, out@),
        decreases n - i,
    {
        let msg = &errors[i].1;
        let mut seen = false;
        let m = out.len();
        let mut j: usize = 0;
        while j < m
            invariant
                m == out@.len(),
                0 <= j <= m,
                seen == exists|q: int| 0 <= q < j as int && (#[trigger] out@[q])@ == msg@,
            decreases m - j,
        {
            if out[j] == *msg {
                proof {
                    assert(out@[j as int]@ == msg@);
                }
                seen = true;
            }
            j += 1;
        }
        let ghost pre_out = out@;
        if !seen {
            out.push(msg.clone());
        }
        proof {
            lemma_dedup_step(errors@, i as int, pre_out, out@, seen);
        }
        i += 1;
    }
    out
}

} // verus!
