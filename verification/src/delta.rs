//! The delta generator.
//!
//! Given the desired item count and the cache, it produces the ordered list
//! of config lines — one per item index whose write the remote program has
//! not yet confirmed — encoded as the wire unit of a single write call. The
//! delta is ephemeral and re-derivable: it is recomputed from the cache on
//! every run, which is what makes the pipeline idempotent across restarts.

use vstd::prelude::*;

use crate::cache::{Cache, ItemRecord};
use crate::errors::DeployError;

verus! {

/// The wire form of one item record, as submitted in a single write call.
#[derive(Debug, PartialEq, Eq)]
pub struct ConfigLine {
    pub name: String,
    pub uri: String,
}

impl Clone for ConfigLine {
    fn clone(&self) -> (r: Self)
        ensures
            r == *self,
    {
        ConfigLine { name: self.name.clone(), uri: self.uri.clone() }
    }
}

/// The config line encoding an item record.
pub open spec fn line_of(rec: ItemRecord) -> ConfigLine {
    ConfigLine { name: rec.name, uri: rec.metadata_link }
}

/// Whether the cache records index `i` as confirmed on chain.
pub open spec fn on_chain_at(c: Cache, i: int) -> bool {
    c.spec_get(i as i64) matches Some(rec) && rec.on_chain
}

/// The indices in `[0, n)` still awaiting a confirmed write.
pub open spec fn pending_indices(c: Cache, n: int) -> Set<int> {
    Set::new(|i: int| 0 <= i < n && !on_chain_at(c, i))
}

/// The delta over indices `[i, n)`: each unconfirmed index paired with its
/// config line, ascending, or the first failure found while scanning.
pub open spec fn spec_delta_from(c: Cache, i: int, n: int) -> Result<
    Seq<(u32, ConfigLine)>,
    DeployError,
>
    decreases n - i,
{
    if i >= n {
        Ok(Seq::empty())
    } else if on_chain_at(c, i) {
        spec_delta_from(c, i + 1, n)
    } else {
        match c.spec_get(i as i64) {
            None => Err(DeployError::MissingItem(i as i64)),
            Some(rec) => if rec.name@.len() == 0 {
                Err(DeployError::MissingName(i as i64))
            } else if rec.metadata_link@.len() == 0 {
                Err(DeployError::MissingMetadataLink(i as i64))
            } else {
                match spec_delta_from(c, i + 1, n) {
                    Ok(rest) => Ok(seq![(i as u32, line_of(rec))] + rest),
                    Err(e) => Err(e),
                }
            },
        }
    }
}

/// What the generator returns: the count reconciliation first, then the scan.
pub open spec fn spec_generate(c: Cache, num_items: u64) -> Result<
    Seq<(u32, ConfigLine)>,
    DeployError,
> {
    if c.spec_non_collection_count() != num_items {
        Err(DeployError::CountMismatch(num_items, c.spec_non_collection_count() as u64))
    } else {
        spec_delta_from(c, 0, num_items as int)
    }
}

/// What holds of a successful delta: every entry is an unconfirmed index of
/// `[j, n)` carrying its record's config line with non-empty fields, the
/// indices are strictly ascending, and every unconfirmed index of `[j, n)`
/// is present.
proof fn lemma_delta_from_entries(c: Cache, j: int, n: int)
    requires
        0 <= j <= n <= u32::MAX,
    ensures
        spec_delta_from(c, j, n) matches Ok(d) ==> {
            &&& forall|k: int|
                0 <= k < d.len() ==> j <= (#[trigger] d[k]).0 as int && (d[k].0 as int) < n
                    && !on_chain_at(c, d[k].0 as int)
            &&& forall|k: int|
                0 <= k < d.len() ==> (c.spec_get((#[trigger] d[k]).0 as i64) matches Some(rec)
                    && d[k].1 == line_of(rec) && rec.name@.len() > 0
                    && rec.metadata_link@.len() > 0)
            &&& forall|k1: int, k2: int| 0 <= k1 < k2 < d.len() ==> d[k1].0 < d[k2].0
            &&& forall|i: int|
                j <= i < n && !on_chain_at(c, i) ==> exists|k: int|
                    0 <= k < d.len() && ((#[trigger] d[k]).0 as int) == i
        },
    decreases n - j,
{
    if j >= n {
    } else {
        lemma_delta_from_entries(c, j + 1, n);
        if on_chain_at(c, j) {
        } else {
            match c.spec_get(j as i64) {
                None => {},
                Some(rec) => {
                    if rec.name@.len() == 0 || rec.metadata_link@.len() == 0 {
                    } else {
                        match spec_delta_from(c, j + 1, n) {
                            Ok(rest) => {
                                let d = spec_delta_from(c, j, n)->Ok_0;
                                assert(d == seq![(j as u32, line_of(rec))] + rest);
                                assert(d[0] == (j as u32, line_of(rec)));
                                assert(forall|k: int|
                                    1 <= k < d.len() ==> #[trigger] d[k] == rest[k - 1]);
                                assert forall|i: int|
                                    j <= i < n && !on_chain_at(c, i) implies exists|k: int|
                                    0 <= k < d.len() && ((#[trigger] d[k]).0 as int) == i by {
                                    if i == j {
                                        assert((d[0].0 as int) == i);
                                    } else {
                                        let k0 = choose|k: int|
                                            0 <= k < rest.len() && ((#[trigger] rest[k]).0 as int)
                                                == i;
                                        assert((d[k0 + 1].0 as int) == i);
                                    }
                                }
                            },
                            Err(_) => {},
                        }
                    }
                },
            }
        }
    }
}

/// Computes the delta between the declared item set and the cache.
///
/// Fails with `CountMismatch` when the number of non-collection entries in
/// the cache disagrees with `num_items`; otherwise scans indices `0
/// .. num_items` ascending, skipping confirmed ones, and fails on the first
/// absent record or empty field. An empty result means everything is already
/// confirmed — the terminal "nothing to do" case, not an error.
pub fn generate_config_lines(num_items: u64, cache: &Cache) -> (r: Result<
    Vec<(u32, ConfigLine)>,
    DeployError,
>)
    requires
        cache.wf(),
        num_items <= u32::MAX,
    ensures
        match r {
            Ok(d) => spec_generate(*cache, num_items) == Ok::<_, DeployError>(d@),
            Err(e) => spec_generate(*cache, num_items) == Err::<Seq<(u32, ConfigLine)>, _>(e),
        },
{
    let count = cache.non_collection_count() as u64;
    if count != num_items {
        return Err(DeployError::CountMismatch(num_items, count));
    }
    let n = num_items;
    let mut out: Vec<(u32, ConfigLine)> = Vec::new();
    let mut i: u64 = 0;
    while i < n
        invariant
            cache.wf(),
            n == num_items <= u32::MAX,
            cache.spec_non_collection_count() == num_items,
            0 <= i <= n,
            match spec_delta_from(*cache, i as int, n as int) {
                Ok(rest) => spec_delta_from(*cache, 0, n as int) == Ok::<_, DeployError>(
                    out@ + rest,
                ),
                Err(e) => spec_delta_from(*cache, 0, n as int) == Err::<
                    Seq<(u32, ConfigLine)>,
                    DeployError,
                >(e),
            },
        decreases n - i,
    {
        let ghost prefix = out@;
        match cache.get(i as i64) {
            Some(rec) => {
                if rec.on_chain {
                    proof {
                        assert(on_chain_at(*cache, i as int));
                    }
                } else {
                    if rec.name.as_str().is_empty() {
                        proof {
                            lemma_prefix_error(
                                *cache,
                                prefix,
                                i as int,
                                n as int,
                                DeployError::MissingName(i as i64),
                            );
                        }
                        return Err(DeployError::MissingName(i as i64));
                    }
                    if rec.metadata_link.as_str().is_empty() {
                        proof {
                            lemma_prefix_error(
                                *cache,
                                prefix,
                                i as int,
                                n as int,
                                DeployError::MissingMetadataLink(i as i64),
                            );
                        }
                        return Err(DeployError::MissingMetadataLink(i as i64));
                    }
                    let line = ConfigLine {
                        name: rec.name.clone(),
                        uri: rec.metadata_link.clone(),
                    };
                    out.push((i as u32, line));
                    proof {
                        match spec_delta_from(*cache, i + 1, n as int) {
                            Ok(rest2) => {
                                assert(spec_delta_from(*cache, i as int, n as int) == Ok::<
                                    _,
                                    DeployError,
                                >(seq![(i as u32, line_of(*rec))] + rest2));
                                assert(out@ + rest2 =~= prefix + (
                                seq![(i as u32, line_of(*rec))] + rest2));
                            },
                            Err(e) => {
                                assert(spec_delta_from(*cache, i as int, n as int) == Err::<
                                    Seq<(u32, ConfigLine)>,
                                    DeployError,
                                >(e));
                            },
                        }
                    }
                }
            },
            None => {
                proof {
                    lemma_prefix_error(
                        *cache,
                        prefix,
                        i as int,
                        n as int,
                        DeployError::MissingItem(i as i64),
                    );
                }
                return Err(DeployError::MissingItem(i as i64));
            },
        }
        i += 1;
    }
    proof {
        assert(out@ + Seq::<(u32, ConfigLine)>::empty() =~= out@);
    }
    Ok(out)
}

/// When the scan at position `i` fails, the whole scan from `0` fails the
/// same way (given the prefix so far was clean).
proof fn lemma_prefix_error(c: Cache, prefix: Seq<(u32, ConfigLine)>, i: int, n: int, e: DeployError)
    requires
        spec_delta_from(c, i, n) == Err::<Seq<(u32, ConfigLine)>, DeployError>(e),
        match spec_delta_from(c, i, n) {
            Ok(rest) => spec_delta_from(c, 0, n) == Ok::<_, DeployError>(prefix + rest),
            Err(e2) => spec_delta_from(c, 0, n) == Err::<Seq<(u32, ConfigLine)>, DeployError>(e2),
        },
    ensures
        spec_delta_from(c, 0, n) == Err::<Seq<(u32, ConfigLine)>, DeployError>(e),
{
}

/// Running the delta generator twice against the same cache, with no upload
/// in between, yields an identical delta.
pub proof fn lemma_delta_idempotent(
    c: Cache,
    num_items: u64,
    r1: Result<Seq<(u32, ConfigLine)>, DeployError>,
    r2: Result<Seq<(u32, ConfigLine)>, DeployError>,
)
    requires
        r1 == spec_generate(c, num_items),
        r2 == spec_generate(c, num_items),
    ensures
        r1 == r2,
{
}

/// An index recorded as confirmed on chain is never part of a delta.
pub proof fn lemma_no_double_write(c: Cache, num_items: u64, i: int, d: Seq<(u32, ConfigLine)>)
    requires
        num_items <= u32::MAX,
        on_chain_at(c, i),
        spec_generate(c, num_items) == Ok::<_, DeployError>(d),
    ensures
        forall|k: int| 0 <= k < d.len() ==> ((#[trigger] d[k]).0 as int) != i,
{
    lemma_delta_from_entries(c, 0, num_items as int);
}

/// An index within range whose confirmation was not persisted is part of the
/// next successful delta: after a crash between remote confirmation and
/// cache persistence, a restarted run resubmits exactly that item.
pub proof fn lemma_unpersisted_write_resubmitted(
    c: Cache,
    num_items: u64,
    i: int,
    d: Seq<(u32, ConfigLine)>,
)
    requires
        num_items <= u32::MAX,
        0 <= i < num_items,
        !on_chain_at(c, i),
        spec_generate(c, num_items) == Ok::<_, DeployError>(d),
    ensures
        exists|k: int| 0 <= k < d.len() && ((#[trigger] d[k]).0 as int) == i,
{
    lemma_delta_from_entries(c, 0, num_items as int);
}

/// The indices of a successful delta are distinct (they are strictly
/// ascending).
pub proof fn lemma_delta_indices_distinct(c: Cache, num_items: u64, d: Seq<(u32, ConfigLine)>)
    requires
        num_items <= u32::MAX,
        spec_generate(c, num_items) == Ok::<_, DeployError>(d),
    ensures
        forall|k1: int, k2: int|
            0 <= k1 < k2 < d.len() ==> (#[trigger] d[k1]).0 != (#[trigger] d[k2]).0,
{
    lemma_delta_from_entries(c, 0, num_items as int);
    assert forall|k1: int, k2: int|
        0 <= k1 < k2 < d.len() implies (#[trigger] d[k1]).0 != (#[trigger] d[k2]).0 by {
        assert(d[k1].0 < d[k2].0);
    }
}

/// A successful delta is empty exactly when every index of the declared set
/// is confirmed on chain: the pipeline's terminal state.
pub proof fn lemma_empty_delta_means_converged(c: Cache, num_items: u64)
    requires
        num_items <= u32::MAX,
        c.spec_non_collection_count() == num_items,
    ensures
        spec_generate(c, num_items) == Ok::<_, DeployError>(Seq::<(u32, ConfigLine)>::empty())
            <==> pending_indices(c, num_items as int).is_empty(),
{
    lemma_delta_from_entries(c, 0, num_items as int);
    if pending_indices(c, num_items as int).is_empty() {
        assert(forall|i: int|
            0 <= i < num_items ==> #[trigger] on_chain_at(c, i) == !pending_indices(
                c,
                num_items as int,
            ).contains(i));
        lemma_all_confirmed_gives_empty(c, 0, num_items as int);
    } else {
        let i = pending_indices(c, num_items as int).choose();
        assert(pending_indices(c, num_items as int).contains(i));
        match spec_generate(c, num_items) {
            Ok(d) => {
                if d.len() == 0 {
                    assert(exists|k: int| 0 <= k < d.len() && ((#[trigger] d[k]).0 as int) == i);
                }
            },
            Err(_) => {},
        }
    }
}

/// When every index of `[j, n)` is confirmed, the scan returns the empty
/// delta.
proof fn lemma_all_confirmed_gives_empty(c: Cache, j: int, n: int)
    requires
        0 <= j <= n,
        forall|i: int| j <= i < n ==> #[trigger] on_chain_at(c, i),
    ensures
        spec_delta_from(c, j, n) == Ok::<_, DeployError>(Seq::<(u32, ConfigLine)>::empty()),
    decreases n - j,
{
    if j < n {
        lemma_all_confirmed_gives_empty(c, j + 1, n);
    }
}

/// Marking one pending index as confirmed removes exactly that index from
/// the pending set: each successful upload run strictly shrinks the work a
/// rerun will find, which is what drives the pipeline to convergence.
pub proof fn lemma_confirmation_shrinks_pending(c: Cache, c2: Cache, num_items: u64, i: int)
    requires
        num_items <= u32::MAX,
        0 <= i < num_items,
        on_chain_at(c2, i),
        forall|k: i64| k != (i as i64) ==> c2.spec_get(k) == c.spec_get(k),
    ensures
        pending_indices(c2, num_items as int) =~= pending_indices(c, num_items as int).remove(i),
{
    assert forall|j: int| 0 <= j < num_items && j != i implies on_chain_at(c2, j) == on_chain_at(
        c,
        j,
    ) by {
        assert((j as i64) != (i as i64));
        assert(c2.spec_get(j as i64) == c.spec_get(j as i64));
    }
}

} // verus!
