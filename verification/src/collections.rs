//! Collection management: the preconditions of the one-shot attach and
//! detach calls, and how each outcome is folded back into the cache.
//!
//! The remote calls themselves are transactions built and sent outside the
//! library; what is verified here is which requests are refused, with which
//! error, and what the cache records afterwards.

use vstd::prelude::*;

use crate::cache::{Cache, COLLECTION_INDEX};
use crate::errors::{CollectionError, CustomTarsError};

verus! {

/// Checks that the signer is the program's authority, naming both keys
/// when it is not.
pub fn assert_correct_authority(payer: &str, authority: &str) -> (r: Result<(), CustomTarsError>)
    ensures
        r is Ok <==> payer@ == authority@,
        r matches Err(e) ==> e matches CustomTarsError::AuthorityMismatch(p, a) && p@ == payer@
            && a@ == authority@,
{
    if str_eq(payer, authority) {
        Ok(())
    } else {
        Err(CustomTarsError::AuthorityMismatch(payer.to_owned(), authority.to_owned()))
    }
}

/// Compares two string slices by contents.
fn str_eq(a: &str, b: &str) -> (r: bool)
    ensures
        r == (a@ == b@),
{
    let a_owned = a.to_owned();
    let b_owned = b.to_owned();
    a_owned == b_owned
}

/// The preconditions of attaching a collection, in the order they are
/// checked: the program must retain authority, the signer must hold the
/// collection metadata's update authority, the collection must be a unique
/// master edition, and nothing may have been redeemed yet.
pub fn check_set_collection(
    retain_authority: bool,
    update_authority: &str,
    payer: &str,
    max_supply: Option<u64>,
    items_redeemed: u64,
) -> (r: Result<(), CollectionError>)
    ensures
        r is Ok <==> (retain_authority && update_authority@ == payer@ && max_supply == Some(0u64)
            && items_redeemed == 0),
        r matches Err(e) ==> if !retain_authority {
            e == CollectionError::RequiresRetainAuthority
        } else if update_authority@ != payer@ {
            e matches CollectionError::AuthorityMismatch(u, p) && u@ == update_authority@ && p@
                == payer@
        } else if max_supply != Some(0u64) {
            e == CollectionError::NotUniqueMasterEdition
        } else {
            e == CollectionError::Locked
        },
{
    if !retain_authority {
        return Err(CollectionError::RequiresRetainAuthority);
    }
    if !str_eq(update_authority, payer) {
        return Err(
            CollectionError::AuthorityMismatch(update_authority.to_owned(), payer.to_owned()),
        );
    }
    let max_supply_is_zero = match max_supply {
        Some(v) => v == 0,
        None => false,
    };
    if !max_supply_is_zero {
        return Err(CollectionError::NotUniqueMasterEdition);
    }
    if items_redeemed > 0 {
        return Err(CollectionError::Locked);
    }
    Ok(())
}

/// The preconditions of detaching the collection: the signer must hold the
/// update authority, and nothing may have been redeemed yet.
pub fn check_remove_collection(update_authority: &str, payer: &str, items_redeemed: u64) -> (r:
    Result<(), CollectionError>)
    ensures
        r is Ok <==> (update_authority@ == payer@ && items_redeemed == 0),
        r matches Err(e) ==> if update_authority@ != payer@ {
            e matches CollectionError::AuthorityMismatch(u, p) && u@ == update_authority@ && p@
                == payer@
        } else {
            e == CollectionError::Locked
        },
{
    if !str_eq(update_authority, payer) {
        return Err(
            CollectionError::AuthorityMismatch(update_authority.to_owned(), payer.to_owned()),
        );
    }
    if items_redeemed > 0 {
        return Err(CollectionError::Locked);
    }
    Ok(())
}

/// Records a successful attach made against the cached deployment: the
/// collection item leaves the item set and the collection mint address is
/// remembered.
pub fn apply_set_collection(cache: &mut Cache, mint: String)
    requires
        old(cache).wf(),
    ensures
        final(cache).wf(),
        final(cache).spec_get(COLLECTION_INDEX) is None,
        forall|k: i64|
            k != COLLECTION_INDEX ==> final(cache).spec_get(k) == old(cache).spec_get(k),
        final(cache).program.tars == old(cache).program.tars,
        final(cache).program.collection_mint == mint,
{
    cache.remove(COLLECTION_INDEX);
    let ghost mid = *cache;
    cache.program.collection_mint = mint;
    proof {
        mid.lemma_same_entries(*cache);
    }
}

/// Records a successful detach made against the cached deployment: the
/// collection item leaves the item set and the remembered collection mint
/// address is cleared.
pub fn apply_remove_collection(cache: &mut Cache)
    requires
        old(cache).wf(),
    ensures
        final(cache).wf(),
        final(cache).spec_get(COLLECTION_INDEX) is None,
        forall|k: i64|
            k != COLLECTION_INDEX ==> final(cache).spec_get(k) == old(cache).spec_get(k),
        final(cache).program.tars == old(cache).program.tars,
        final(cache).program.collection_mint@ == Seq::<char>::empty(),
{
    cache.remove(COLLECTION_INDEX);
    let ghost mid = *cache;
    cache.program.collection_mint = String::new();
    proof {
        mid.lemma_same_entries(*cache);
        assert(cache.program.collection_mint@ =~= Seq::<char>::empty());
    }
}

} // verus!
