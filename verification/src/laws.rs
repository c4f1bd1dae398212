//! What holds of every frame: value is conserved by transfers, a bucket
//! left behind is reported, and supply changes only through an authorized
//! mint or burn.

use crate::bucket::{
    allows, burn_error, burned, may_burn, minted, released, borrow_result, burn_result, drop_result, mint_result, new_result, presented,
    put_result, release_result, take_result,
};
use crate::decimal::Decimal;
use crate::error::{BucketError, RuntimeError};
use crate::frame::{
    lemma_sum_push, lemma_sum_remove, lemma_sum_update, part, sum_of, BucketState, FrameState,
    Reference, ResourceEntry,
};
use crate::resource::{Holding, MAY_MINT, MINTABLE};
use crate::types::{Address, BID, RID};
use vstd::prelude::*;

verus! {

/// A transfer of value between buckets of one frame.
pub ghost enum Transfer {
    /// Merge the bucket `other` into the bucket `into`.
    Put { into: BID, other: BID },
    /// Split `amount` off the bucket `from`.
    Take { from: BID, amount: Decimal },
}

/// The frame after one transfer; a transfer that is refused, or for which
/// no handle is free, changes nothing.
pub open spec fn apply(s: FrameState, op: Transfer) -> FrameState {
    match op {
        Transfer::Put { into, other } => match put_result(s, into, other) {
            Ok(t) => t,
            Err(_) => s,
        },
        Transfer::Take { from, amount } => if s.next_bid < u32::MAX {
            match take_result(s, from, amount) {
                Ok(t) => t,
                Err(_) => s,
            }
        } else {
            s
        },
    }
}

/// The frame after a sequence of transfers.
pub open spec fn apply_all(s: FrameState, ops: Seq<Transfer>) -> FrameState
    decreases ops.len(),
{
    if ops.len() == 0 {
        s
    } else {
        apply(apply_all(s, ops.drop_last()), ops.last())
    }
}

/// In a valid frame the place of a live bucket is the only place that
/// carries its handle.
pub proof fn lemma_bucket_index(s: FrameState, i: int)
    requires
        s.wf(),
        0 <= i < s.buckets.len(),
    ensures
        s.has_bucket(s.buckets[i].id),
        s.bucket_index(s.buckets[i].id) == i,
{
    let id = s.buckets[i].id;
    assert(s.has_bucket(id));
    let j = s.bucket_index(id);
    assert(s.buckets[j].id == id);
}

/// Replacing what a live bucket holds by a valid holding keeps the frame
/// valid and keeps every handle in its place.
pub proof fn lemma_with_holding(s: FrameState, id: BID, h: Holding)
    requires
        s.wf(),
        s.has_bucket(id),
        h.wf(),
    ensures
        s.with_holding(id, h).wf(),
        forall|other: BID| s.with_holding(id, h).has_bucket(other) == s.has_bucket(other),
        forall|other: BID|
            s.has_bucket(other) ==> s.with_holding(id, h).bucket_index(other) == s.bucket_index(
                other,
            ),
{
    let t = s.with_holding(id, h);
    let i = s.bucket_index(id);
    assert(forall|k: int| 0 <= k < s.buckets.len() ==> (#[trigger] t.buckets[k]).id == s.buckets[k].id);
    assert(t.wf());
    assert forall|other: BID| t.has_bucket(other) == s.has_bucket(other) by {
        if s.has_bucket(other) {
            let k = s.bucket_index(other);
            assert(t.buckets[k].id == other);
        }
        if t.has_bucket(other) {
            let k = t.bucket_index(other);
            assert(s.buckets[k].id == other);
        }
    }
    assert forall|other: BID| s.has_bucket(other) implies t.bucket_index(other) == s.bucket_index(
        other,
    ) by {
        let k = s.bucket_index(other);
        assert(t.buckets[k].id == other);
        lemma_bucket_index(t, k);
    }
}

/// Removing a live bucket keeps the frame valid, and the bucket is live no
/// longer.
pub proof fn lemma_without_bucket(s: FrameState, id: BID)
    requires
        s.wf(),
        s.has_bucket(id),
    ensures
        s.without_bucket(id).wf(),
        !s.without_bucket(id).has_bucket(id),
        s.without_bucket(id).next_bid == s.next_bid,
{
    let t = s.without_bucket(id);
    let i = s.bucket_index(id);
    assert forall|k: int| 0 <= k < t.buckets.len() implies (#[trigger] t.buckets[k]) == s.buckets[if k
        < i {
        k
    } else {
        k + 1
    }] by {}
    assert(t.wf());
    if t.has_bucket(id) {
        let k = t.bucket_index(id);
        assert(t.buckets[k].id == id);
        let k2 = if k < i { k } else { k + 1 };
        assert(s.buckets[k2].id == id);
        lemma_bucket_index(s, k2);
        lemma_bucket_index(s, i);
    }
}

/// Adding a bucket under the next free handle keeps the frame valid.
pub proof fn lemma_with_bucket(s: FrameState, h: Holding)
    requires
        s.wf(),
        s.next_bid < u32::MAX,
        h.wf(),
    ensures
        s.with_bucket(h).wf(),
{
    let t = s.with_bucket(h);
    assert forall|k: int| 0 <= k < s.buckets.len() implies (#[trigger] t.buckets[k])
        == s.buckets[k] by {}
    assert(t.wf());
}

/// A merge keeps the frame valid and moves value without making or losing
/// any: the total of every resource is what it was.
pub proof fn lemma_put_conserves(s: FrameState, into: BID, other: BID, resource: Address)
    requires
        s.wf(),
        put_result(s, into, other) is Ok,
    ensures
        put_result(s, into, other)->Ok_0.wf(),
        put_result(s, into, other)->Ok_0.total(resource) == s.total(resource),
        !put_result(s, into, other)->Ok_0.has_bucket(other),
        put_result(s, into, other)->Ok_0.next_bid == s.next_bid,
{
    let i = s.bucket_index(into);
    let j = s.bucket_index(other);
    let h = s.holding(into).merged(s.holding(other))->Ok_0;
    let mid = s.with_holding(into, h);
    assert(s.buckets[i].holding.wf());
    assert(s.buckets[j].holding.wf());
    lemma_with_holding(s, into, h);
    assert(mid.has_bucket(other));
    assert(mid.bucket_index(other) == j);
    lemma_without_bucket(mid, other);
    lemma_sum_update(s.buckets, i, BucketState { id: into, holding: h }, resource);
    lemma_sum_remove(mid.buckets, j, resource);
    assert(mid.buckets[j] == s.buckets[j]);
}

/// A split keeps the frame valid and moves value without making or losing
/// any: the total of every resource is what it was.
pub proof fn lemma_take_conserves(s: FrameState, from: BID, amount: Decimal, resource: Address)
    requires
        s.wf(),
        s.next_bid < u32::MAX,
        take_result(s, from, amount) is Ok,
    ensures
        take_result(s, from, amount)->Ok_0.wf(),
        take_result(s, from, amount)->Ok_0.total(resource) == s.total(resource),
{
    let i = s.bucket_index(from);
    let parts = s.holding(from).split(amount)->Ok_0;
    let mid = s.with_holding(from, parts.0);
    assert(s.buckets[i].holding.wf());
    lemma_with_holding(s, from, parts.0);
    lemma_with_bucket(mid, parts.1);
    lemma_sum_update(s.buckets, i, BucketState { id: from, holding: parts.0 }, resource);
    lemma_sum_push(mid.buckets, BucketState { id: BID(mid.next_bid), holding: parts.1 }, resource);
}

/// What a holding adds to the total of `resource`.
pub open spec fn worth(h: Holding, resource: Address) -> int {
    if h.resource == resource {
        h.amount@
    } else {
        0
    }
}

/// A deposit conserves value: when a bucket is handed out of its frame and
/// put into a vault, what the frame's buckets and the vault hold together
/// of every resource stays what it was.
pub proof fn lemma_deposit_conserves(s: FrameState, id: BID, vault: Holding, resource: Address)
    requires
        s.wf(),
        vault.wf(),
        release_result(s, id) is Ok,
        vault.merged(s.holding(id)) is Ok,
    ensures
        release_result(s, id)->Ok_0.total(resource) + worth(
            vault.merged(s.holding(id))->Ok_0,
            resource,
        ) == s.total(resource) + worth(vault, resource),
{
    let i = s.bucket_index(id);
    assert(s.buckets[i].holding.wf());
    lemma_sum_remove(s.buckets, i, resource);
}

/// A withdrawal conserves value: when an amount is split off a vault and
/// taken into a new bucket of a frame, what the frame's buckets and the
/// vault hold together of every resource stays what it was.
pub proof fn lemma_withdrawal_conserves(
    s: FrameState,
    vault: Holding,
    amount: Decimal,
    resource: Address,
)
    requires
        vault.wf(),
        vault.split(amount) is Ok,
    ensures
        s.with_bucket(vault.split(amount)->Ok_0.1).total(resource) + worth(
            vault.split(amount)->Ok_0.0,
            resource,
        ) == s.total(resource) + worth(vault, resource),
{
    let taken = vault.split(amount)->Ok_0.1;
    lemma_sum_push(s.buckets, BucketState { id: BID(s.next_bid), holding: taken }, resource);
}

/// Conservation: whatever merges and splits are made in a valid frame, in
/// whatever order, and whether each succeeds or is refused, the total
/// amount of every resource that the frame's buckets hold stays what it
/// was.
pub proof fn lemma_transfers_conserve(s: FrameState, ops: Seq<Transfer>, resource: Address)
    requires
        s.wf(),
    ensures
        apply_all(s, ops).wf(),
        apply_all(s, ops).total(resource) == s.total(resource),
    decreases ops.len(),
{
    if ops.len() > 0 {
        lemma_transfers_conserve(s, ops.drop_last(), resource);
        let before = apply_all(s, ops.drop_last());
        match ops.last() {
            Transfer::Put { into, other } => {
                if put_result(before, into, other) is Ok {
                    lemma_put_conserves(before, into, other, resource);
                }
            },
            Transfer::Take { from, amount } => {
                if before.next_bid < u32::MAX && take_result(before, from, amount) is Ok {
                    lemma_take_conserves(before, from, amount, resource);
                }
            },
        }
    }
}

/// A split never rounds: an amount that is negative or finer than the
/// resource's divisibility is refused as invalid, whatever the bucket
/// holds.
pub proof fn lemma_fractional_take_rejected(s: FrameState, from: BID, amount: Decimal)
    requires
        s.has_bucket(from),
        !amount.fits(s.holding(from).resource_type.places()),
    ensures
        take_result(s, from, amount) == Err::<FrameState, RuntimeError>(
            RuntimeError::AccountingError(BucketError::InvalidAmount(amount)),
        ),
{
}

/// A bucket that is live when its frame closes is reported as leaked.
pub proof fn lemma_live_bucket_leaks(s: FrameState, id: BID)
    requires
        s.has_bucket(id),
    ensures
        s.leaks() is Some,
        s.leaks()->Some_0.0.contains(id),
{
    let i = s.bucket_index(id);
    assert(s.bucket_ids()[i] == id);
}

/// A bucket that is not live when its frame closes is never among those
/// reported as leaked.
pub proof fn lemma_absent_bucket_never_leaks(s: FrameState, id: BID)
    requires
        !s.has_bucket(id),
    ensures
        s.leaks() matches Some(l) ==> !l.0.contains(id),
{
    if s.leaks() is Some && s.bucket_ids().contains(id) {
        let i = choose|i: int| 0 <= i < s.bucket_ids().len() && s.bucket_ids()[i] == id;
        assert(s.buckets[i].id == id);
    }
}

/// No-leak: a bucket that was merged into another, handed out of the
/// frame, or burned is not live afterwards, and so is not reported when
/// the frame closes.
pub proof fn lemma_disposed_bucket_never_leaks(
    s: FrameState,
    id: BID,
    into: BID,
    auth: Option<RID>,
)
    requires
        s.wf(),
    ensures
        put_result(s, into, id) matches Ok(t) ==> !t.has_bucket(id) && (t.leaks() matches Some(l)
            ==> !l.0.contains(id)),
        release_result(s, id) matches Ok(t) ==> !t.has_bucket(id) && (t.leaks() matches Some(l)
            ==> !l.0.contains(id)),
        burn_result(s, id, auth) matches Ok(t) ==> !t.has_bucket(id) && (t.leaks() matches Some(l)
            ==> !l.0.contains(id)),
{
    if put_result(s, into, id) is Ok {
        let t = put_result(s, into, id)->Ok_0;
        lemma_put_conserves(s, into, id, arbitrary());
        lemma_absent_bucket_never_leaks(t, id);
    }
    if release_result(s, id) is Ok {
        let t = release_result(s, id)->Ok_0;
        lemma_without_bucket(s, id);
        lemma_absent_bucket_never_leaks(t, id);
    }
    if burn_result(s, id, auth) is Ok {
        let t = burn_result(s, id, auth)->Ok_0;
        lemma_without_bucket(s, id);
        assert(t.buckets == s.without_bucket(id).buckets);
        assert(!t.has_bucket(id)) by {
            if t.has_bucket(id) {
                let k = t.bucket_index(id);
                assert(s.without_bucket(id).buckets[k].id == id);
            }
        }
        lemma_absent_bucket_never_leaks(t, id);
    }
}

/// Mint gating: on a defined resource, minting is refused where the supply
/// is fixed, and where the badge that is presented does not carry the
/// permission to mint; where it succeeds, a badge with that permission was
/// presented and the total supply has grown by exactly the amount.
pub proof fn lemma_mint_gating(s: FrameState, resource: Address, amount: Decimal, auth: Option<RID>)
    requires
        s.wf(),
        s.has_resource(resource),
    ensures
        !s.resource(resource).has_flag(MINTABLE) ==> mint_result(s, resource, amount, auth) == Err::<
            FrameState,
            RuntimeError,
        >(RuntimeError::FixedResourceMintNotAllowed),
        s.resource(resource).has_flag(MINTABLE) && (presented(s, auth) matches Ok(badge) && !allows(
            s.resource(resource),
            badge,
            MAY_MINT,
        )) ==> mint_result(s, resource, amount, auth) == Err::<FrameState, RuntimeError>(
            RuntimeError::UnauthorizedToMint,
        ),
        mint_result(s, resource, amount, auth) matches Ok(t) ==> {
            &&& s.resource(resource).has_flag(MINTABLE)
            &&& presented(s, auth) matches Ok(badge) && allows(s.resource(resource), badge, MAY_MINT)
            &&& t.has_resource(resource)
            &&& t.resource(resource).total_supply@ == s.resource(resource).total_supply@ + amount@
            &&& t.total(resource) == s.total(resource) + amount@
        },
{
    if mint_result(s, resource, amount, auth) is Ok {
        let t = mint_result(s, resource, amount, auth)->Ok_0;
        let k = s.resource_index(resource);
        let def = s.resource(resource);
        let mid = s.with_supply(resource, Decimal((def.total_supply@ + amount@) as i128));
        assert(mid.resources[k].address == resource);
        assert(t.resources[k].address == resource);
        assert(t.has_resource(resource));
        let k2 = t.resource_index(resource);
        assert(t.resources[k2].address == resource);
        assert(forall|x: int|
            0 <= x < s.resources.len() ==> (#[trigger] t.resources[x]).address
                == s.resources[x].address);
        assert(s.resources[k2].address == resource);
        assert(k2 == k);
        lemma_sum_push(
            s.buckets,
            BucketState {
                id: BID(s.next_bid),
                holding: Holding { resource, resource_type: def.resource_type, amount },
            },
            resource,
        );
    }
}

/// Whether no two references of a sequence carry the same handle.
pub open spec fn distinct_references(borrows: Seq<Reference>) -> bool {
    forall|i: int, j: int|
        0 <= i < j < borrows.len() ==> (#[trigger] borrows[i]).id != (#[trigger] borrows[j]).id
}

/// When a presentation ends, the presented reference is live no longer,
/// and no bucket and no resource definition has changed.
pub proof fn lemma_presentation_ends(s: FrameState, rid: RID)
    requires
        distinct_references(s.borrows),
    ensures
        !released(s, Some(rid)).has_reference(rid),
        released(s, Some(rid)).buckets == s.buckets,
        released(s, Some(rid)).resources == s.resources,
        released(s, Some(rid)).next_bid == s.next_bid,
        released(s, Some(rid)).next_rid == s.next_rid,
{
    let t = released(s, Some(rid));
    if s.has_reference(rid) {
        let i = s.reference_index(rid);
        assert(s.borrows[i].id == rid);
        if t.has_reference(rid) {
            let k = t.reference_index(rid);
            assert(t.borrows[k].id == rid);
            let k2 = if k < i { k } else { k + 1 };
            assert(s.borrows[k2].id == rid);
        }
    }
}

/// A badge is lent for one call, never spent: after a mint under a
/// presented badge, whether it succeeded or failed, the reference is live
/// no longer, and the bucket that holds the badge is live and holds what
/// it held.
pub proof fn lemma_mint_keeps_badge(s: FrameState, resource: Address, amount: Decimal, rid: RID)
    requires
        s.wf(),
        s.has_reference(rid),
        s.has_bucket(s.referent(rid)),
    ensures
        mint_result(s, resource, amount, Some(rid)) matches Ok(t) ==> {
            &&& !t.has_reference(rid)
            &&& t.has_bucket(s.referent(rid))
            &&& t.holding(s.referent(rid)) == s.holding(s.referent(rid))
        },
        mint_result(s, resource, amount, Some(rid)) is Err ==> {
            &&& !released(s, Some(rid)).has_reference(rid)
            &&& released(s, Some(rid)).buckets == s.buckets
            &&& released(s, Some(rid)).resources == s.resources
        },
{
    lemma_presentation_ends(s, rid);
    if mint_result(s, resource, amount, Some(rid)) is Ok {
        let u = minted(s, resource, amount);
        let t = mint_result(s, resource, amount, Some(rid))->Ok_0;
        assert(u.borrows == s.borrows);
        lemma_presentation_ends(u, rid);
        let badge = s.referent(rid);
        let i = s.bucket_index(badge);
        assert(s.buckets[i].id == badge);
        assert(t.buckets[i] == s.buckets[i]);
        assert(t.has_bucket(badge));
        let j = t.bucket_index(badge);
        assert(t.buckets[j].id == badge);
        if j != i {
            if j < s.buckets.len() {
                assert(t.buckets[j] == s.buckets[j]);
            } else {
                assert(t.buckets[j].id == BID(s.next_bid));
            }
        }
    }
}

/// A burn ends the presentation too: after a burn under a presented
/// badge, whether it succeeded or failed, the reference is live no longer.
pub proof fn lemma_burn_ends_presentation(s: FrameState, bucket: BID, rid: RID)
    requires
        s.wf(),
    ensures
        burn_result(s, bucket, Some(rid)) matches Ok(t) ==> !t.has_reference(rid),
        burn_result(s, bucket, Some(rid)) is Err ==> !released(s, Some(rid)).has_reference(rid),
{
    lemma_presentation_ends(s, rid);
    if burn_result(s, bucket, Some(rid)) is Ok {
        let u = burned(s, bucket);
        assert(u.borrows == s.borrows);
        lemma_presentation_ends(u, rid);
    }
}

/// Removing one live bucket leaves every other live bucket live.
pub proof fn lemma_others_stay(s: FrameState, gone: BID, id: BID)
    requires
        s.wf(),
        s.has_bucket(gone),
        s.has_bucket(id),
        gone != id,
    ensures
        s.without_bucket(gone).has_bucket(id),
{
    let g = s.bucket_index(gone);
    let i = s.bucket_index(id);
    let t = s.without_bucket(gone);
    if i < g {
        assert(t.buckets[i].id == id);
    } else {
        assert(t.buckets[i - 1].id == id);
    }
}

/// Only disposal ends a bucket: a live bucket is still live after every
/// successful call that does not merge it into another bucket, hand it out
/// of the frame, or burn it. With `lemma_live_bucket_leaks`, a bucket that
/// was never disposed of is reported when its frame closes.
pub proof fn lemma_undisposed_bucket_stays_live(
    s: FrameState,
    id: BID,
    other: BID,
    third: BID,
    resource: Address,
    amount: Decimal,
    rid: RID,
    auth: Option<RID>,
)
    requires
        s.wf(),
        s.has_bucket(id),
        other != id,
        third != id,
    ensures
        new_result(s, resource) matches Ok(t) ==> t.has_bucket(id),
        put_result(s, id, other) matches Ok(t) ==> t.has_bucket(id),
        put_result(s, other, third) matches Ok(t) ==> t.has_bucket(id),
        take_result(s, id, amount) matches Ok(t) ==> t.has_bucket(id),
        take_result(s, other, amount) matches Ok(t) ==> t.has_bucket(id),
        borrow_result(s, other) matches Ok(t) ==> t.has_bucket(id),
        borrow_result(s, id) matches Ok(t) ==> t.has_bucket(id),
        drop_result(s, rid) matches Ok(t) ==> t.has_bucket(id),
        mint_result(s, resource, amount, auth) matches Ok(t) ==> t.has_bucket(id),
        burn_result(s, other, auth) matches Ok(t) ==> t.has_bucket(id),
        release_result(s, other) matches Ok(t) ==> t.has_bucket(id),
{
    let i = s.bucket_index(id);
    assert(s.buckets[i].id == id);
    assert(s.buckets[i].holding.wf());
    if new_result(s, resource) is Ok {
        assert(new_result(s, resource)->Ok_0.buckets[i].id == id);
    }
    if put_result(s, id, other) is Ok {
        let h = s.holding(id).merged(s.holding(other))->Ok_0;
        let j = s.bucket_index(other);
        assert(s.buckets[j].holding.wf());
        lemma_with_holding(s, id, h);
        lemma_others_stay(s.with_holding(id, h), other, id);
    }
    if put_result(s, other, third) is Ok {
        let h = s.holding(other).merged(s.holding(third))->Ok_0;
        let j = s.bucket_index(other);
        let k = s.bucket_index(third);
        assert(s.buckets[j].holding.wf());
        assert(s.buckets[k].holding.wf());
        lemma_with_holding(s, other, h);
        lemma_others_stay(s.with_holding(other, h), third, id);
    }
    if take_result(s, id, amount) is Ok {
        let parts = s.holding(id).split(amount)->Ok_0;
        lemma_with_holding(s, id, parts.0);
        let mid = s.with_holding(id, parts.0);
        let k = mid.bucket_index(id);
        assert(mid.buckets[k].id == id);
        assert(take_result(s, id, amount)->Ok_0.buckets[k].id == id);
    }
    if take_result(s, other, amount) is Ok {
        let j = s.bucket_index(other);
        assert(s.buckets[j].holding.wf());
        let parts = s.holding(other).split(amount)->Ok_0;
        lemma_with_holding(s, other, parts.0);
        let mid = s.with_holding(other, parts.0);
        let k = mid.bucket_index(id);
        assert(mid.buckets[k].id == id);
        assert(take_result(s, other, amount)->Ok_0.buckets[k].id == id);
    }
    if mint_result(s, resource, amount, auth) is Ok {
        assert(mint_result(s, resource, amount, auth)->Ok_0.buckets[i].id == id);
    }
    if burn_result(s, other, auth) is Ok {
        lemma_others_stay(s, other, id);
        let t = burn_result(s, other, auth)->Ok_0;
        let k = s.without_bucket(other).bucket_index(id);
        assert(t.buckets[k].id == id);
    }
    if release_result(s, other) is Ok {
        lemma_others_stay(s, other, id);
    }
}

/// Burn gating: burning a bucket of a defined resource is refused where
/// the resource is not freely burnable and no badge with the permission to
/// burn is presented; where it succeeds, burning was permitted, and the
/// total supply and the frame's total of the resource have both fallen by
/// exactly what the bucket held.
pub proof fn lemma_burn_gating(s: FrameState, id: BID, auth: Option<RID>)
    requires
        s.wf(),
        s.has_bucket(id),
        s.has_resource(s.holding(id).resource),
    ensures
        (presented(s, auth) matches Ok(badge) && !may_burn(
            s.resource(s.holding(id).resource),
            badge,
        )) ==> burn_result(s, id, auth) == Err::<FrameState, RuntimeError>(
            RuntimeError::UnauthorizedToBurn,
        ),
        burn_result(s, id, auth) matches Ok(t) ==> {
            let resource = s.holding(id).resource;
            &&& presented(s, auth) matches Ok(badge) && may_burn(s.resource(resource), badge)
            &&& t.has_resource(resource)
            &&& t.resource(resource).total_supply@ == s.resource(resource).total_supply@
                - s.holding(id).amount@
            &&& t.total(resource) == s.total(resource) - s.holding(id).amount@
        },
{
    if burn_result(s, id, auth) is Ok {
        let t = burn_result(s, id, auth)->Ok_0;
        let resource = s.holding(id).resource;
        let k = s.resource_index(resource);
        let i = s.bucket_index(id);
        assert(s.resources[k].address == resource);
        assert(s.resources[k].def.wf());
        assert(s.buckets[i].holding.wf());
        assert(t.resources[k].address == resource);
        assert(t.has_resource(resource));
        let k2 = t.resource_index(resource);
        assert(t.resources[k2].address == resource);
        assert(forall|x: int|
            0 <= x < s.resources.len() ==> (#[trigger] t.resources[x]).address
                == s.resources[x].address);
        assert(s.resources[k2].address == resource);
        assert(k2 == k);
        lemma_sum_remove(s.buckets, i, resource);
    }
}

/// Supply changes only through mint and burn: no other call touches a
/// resource definition.
pub proof fn lemma_supply_changes_only_by_mint_or_burn(
    s: FrameState,
    a: BID,
    b: BID,
    resource: Address,
    amount: Decimal,
    rid: RID,
)
    ensures
        new_result(s, resource) matches Ok(t) ==> t.resources == s.resources,
        put_result(s, a, b) matches Ok(t) ==> t.resources == s.resources,
        take_result(s, a, amount) matches Ok(t) ==> t.resources == s.resources,
        borrow_result(s, a) matches Ok(t) ==> t.resources == s.resources,
        drop_result(s, rid) matches Ok(t) ==> t.resources == s.resources,
        release_result(s, a) matches Ok(t) ==> t.resources == s.resources,
{
}

/// Where no bucket holds a negative amount, a total is not negative and
/// no bucket holds more than the total of its resource.
pub proof fn lemma_part_within_sum(buckets: Seq<BucketState>, i: int, resource: Address)
    requires
        forall|k: int| 0 <= k < buckets.len() ==> (#[trigger] buckets[k]).holding.amount@ >= 0,
        0 <= i < buckets.len(),
    ensures
        0 <= part(buckets[i], resource) <= sum_of(buckets, resource),
    decreases buckets.len(),
{
    lemma_sum_not_negative(buckets.drop_last(), resource);
    if i < buckets.len() - 1 {
        lemma_part_within_sum(buckets.drop_last(), i, resource);
    }
}

/// Where no bucket holds a negative amount, a total is not negative.
pub proof fn lemma_sum_not_negative(buckets: Seq<BucketState>, resource: Address)
    requires
        forall|k: int| 0 <= k < buckets.len() ==> (#[trigger] buckets[k]).holding.amount@ >= 0,
    ensures
        0 <= sum_of(buckets, resource),
    decreases buckets.len(),
{
    if buckets.len() > 0 {
        lemma_sum_not_negative(buckets.drop_last(), resource);
    }
}

/// In a backed frame a burn is never refused for want of supply: the
/// bucket holds no more than was supplied of its resource.
pub proof fn lemma_backed_burn_has_supply(s: FrameState, id: BID, auth: Option<RID>)
    requires
        s.wf(),
        s.backed(),
    ensures
        burn_error(s, id, auth) != Some(
            RuntimeError::AccountingError(BucketError::InsufficientBalance),
        ),
{
    if s.has_bucket(id) && s.has_resource(s.holding(id).resource) {
        let i = s.bucket_index(id);
        let resource = s.holding(id).resource;
        let k = s.resource_index(resource);
        assert(s.buckets[i].id == id);
        assert(s.resources[k].address == resource);
        lemma_part_within_sum(s.buckets, i, resource);
    }
}

/// A frame that has the resources of a backed frame, and of no resource a
/// greater total, is backed.
pub proof fn lemma_backed_by_less(s: FrameState, t: FrameState)
    requires
        s.backed(),
        t.resources == s.resources,
        forall|r: Address| t.total(r) <= s.total(r),
    ensures
        t.backed(),
{
    assert forall|i: int| 0 <= i < t.resources.len() implies sum_of(
        t.buckets,
        (#[trigger] t.resources[i]).address,
    ) <= t.resources[i].def.total_supply@ by {
        assert(t.total(s.resources[i].address) <= s.total(s.resources[i].address));
    }
}

/// Every call keeps a backed frame backed.
pub proof fn lemma_calls_keep_backing(
    s: FrameState,
    a: BID,
    b: BID,
    resource: Address,
    amount: Decimal,
    rid: RID,
    auth: Option<RID>,
)
    requires
        s.wf(),
        s.backed(),
    ensures
        new_result(s, resource) matches Ok(t) ==> t.backed(),
        put_result(s, a, b) matches Ok(t) ==> t.backed(),
        s.next_bid < u32::MAX ==> (take_result(s, a, amount) matches Ok(t) ==> t.backed()),
        borrow_result(s, a) matches Ok(t) ==> t.backed(),
        drop_result(s, rid) matches Ok(t) ==> t.backed(),
        release_result(s, a) matches Ok(t) ==> t.backed(),
        mint_result(s, resource, amount, auth) matches Ok(t) ==> t.backed(),
        burn_result(s, a, auth) matches Ok(t) ==> t.backed(),
        released(s, auth).backed(),
{
    assert(released(s, auth).buckets == s.buckets && released(s, auth).resources == s.resources);
    if new_result(s, resource) is Ok {
        let t = new_result(s, resource)->Ok_0;
        assert forall|r: Address| t.total(r) <= s.total(r) by {
            lemma_sum_push(s.buckets, t.buckets[s.buckets.len() as int], r);
            assert(t.buckets =~= s.buckets.push(t.buckets[s.buckets.len() as int]));
        }
        lemma_backed_by_less(s, t);
    }
    if put_result(s, a, b) is Ok {
        let t = put_result(s, a, b)->Ok_0;
        assert forall|r: Address| t.total(r) <= s.total(r) by {
            lemma_put_conserves(s, a, b, r);
        }
        lemma_backed_by_less(s, t);
    }
    if s.next_bid < u32::MAX && take_result(s, a, amount) is Ok {
        let t = take_result(s, a, amount)->Ok_0;
        assert forall|r: Address| t.total(r) <= s.total(r) by {
            lemma_take_conserves(s, a, amount, r);
        }
        lemma_backed_by_less(s, t);
    }
    if borrow_result(s, a) is Ok {
        lemma_backed_by_less(s, borrow_result(s, a)->Ok_0);
    }
    if drop_result(s, rid) is Ok {
        lemma_backed_by_less(s, drop_result(s, rid)->Ok_0);
    }
    if release_result(s, a) is Ok {
        let t = release_result(s, a)->Ok_0;
        let i = s.bucket_index(a);
        assert(s.buckets[i].holding.wf());
        assert forall|r: Address| t.total(r) <= s.total(r) by {
            lemma_sum_remove(s.buckets, i, r);
        }
        lemma_backed_by_less(s, t);
    }
    if mint_result(s, resource, amount, auth) is Ok {
        let t = mint_result(s, resource, amount, auth)->Ok_0;
        let u = minted(s, resource, amount);
        let k = s.resource_index(resource);
        let fresh = u.buckets[s.buckets.len() as int];
        assert(s.resources[k].address == resource);
        assert(t.buckets == u.buckets && t.resources == u.resources);
        assert(u.buckets =~= s.buckets.push(fresh));
        assert forall|i: int| 0 <= i < t.resources.len() implies sum_of(
            t.buckets,
            (#[trigger] t.resources[i]).address,
        ) <= t.resources[i].def.total_supply@ by {
            let r = s.resources[i].address;
            assert(t.resources[i].address == r);
            lemma_sum_push(s.buckets, fresh, r);
            if i != k {
                assert(r != resource);
                assert(t.resources[i] == s.resources[i]);
            }
        }
    }
    if burn_result(s, a, auth) is Ok {
        let t = burn_result(s, a, auth)->Ok_0;
        let u = burned(s, a);
        let i = s.bucket_index(a);
        let h = s.holding(a);
        let k = s.resource_index(h.resource);
        assert(s.buckets[i].id == a);
        assert(s.resources[k].address == h.resource);
        assert(t.buckets == u.buckets && t.resources == u.resources);
        let mid = s.without_bucket(a);
        assert(mid.resources == s.resources);
        assert(mid.resource_index(h.resource) == k);
        assert forall|x: int| 0 <= x < t.resources.len() implies sum_of(
            t.buckets,
            (#[trigger] t.resources[x]).address,
        ) <= t.resources[x].def.total_supply@ by {
            let r = s.resources[x].address;
            assert(t.resources[x].address == r);
            lemma_sum_remove(s.buckets, i, r);
            if x != k {
                assert(r != h.resource);
                assert(t.resources[x] == s.resources[x]);
            }
        }
    }
}

/// Taking a holding into a backed frame keeps it backed where the
/// holding's resource is not defined in the frame, or where the total of
/// that resource stays within its supply.
pub proof fn lemma_receive_keeps_backing(s: FrameState, h: Holding)
    requires
        s.wf(),
        s.backed(),
        s.has_resource(h.resource) ==> s.total(h.resource) + h.amount@ <= s.resource(
            h.resource,
        ).total_supply@,
    ensures
        s.with_bucket(h).backed(),
{
    let t = s.with_bucket(h);
    let fresh = BucketState { id: BID(s.next_bid), holding: h };
    assert forall|i: int| 0 <= i < t.resources.len() implies sum_of(
        t.buckets,
        (#[trigger] t.resources[i]).address,
    ) <= t.resources[i].def.total_supply@ by {
        let r = s.resources[i].address;
        lemma_sum_push(s.buckets, fresh, r);
        if r == h.resource {
            assert(s.has_resource(r));
            let k = s.resource_index(r);
            assert(s.resources[k].address == r);
        }
    }
}

/// Defining a resource in a backed frame keeps it backed where the
/// frame's buckets hold no more of the resource than its supply.
pub proof fn lemma_define_keeps_backing(s: FrameState, entry: ResourceEntry)
    requires
        s.backed(),
        s.total(entry.address) <= entry.def.total_supply@,
    ensures
        s.with_resource(entry).backed(),
{
    let t = s.with_resource(entry);
    assert forall|i: int| 0 <= i < t.resources.len() implies sum_of(
        t.buckets,
        (#[trigger] t.resources[i]).address,
    ) <= t.resources[i].def.total_supply@ by {
        if i < s.resources.len() {
            assert(t.resources[i] == s.resources[i]);
        }
    }
}

/// A split makes its bucket under a handle that was not live before and
/// is not the source's; the new bucket holds the amount, the source stays
/// live, and the new bucket is reported if the frame is closed with it,
/// even where it holds nothing.
pub proof fn lemma_take_makes_new_bucket(s: FrameState, from: BID, amount: Decimal)
    requires
        s.wf(),
        s.next_bid < u32::MAX,
        take_result(s, from, amount) is Ok,
    ensures
        ({
            let t = take_result(s, from, amount)->Ok_0;
            let fresh = BID(s.next_bid);
            &&& !s.has_bucket(fresh)
            &&& fresh != from
            &&& t.has_bucket(fresh)
            &&& t.has_bucket(from)
            &&& t.holding(fresh).amount@ == amount@
            &&& t.holding(fresh).resource == s.holding(from).resource
            &&& t.holding(from).amount@ == s.holding(from).amount@ - amount@
            &&& t.leaks() is Some
            &&& t.leaks()->Some_0.0.contains(fresh)
        }),
{
    let t = take_result(s, from, amount)->Ok_0;
    let fresh = BID(s.next_bid);
    let i = s.bucket_index(from);
    let n = s.buckets.len() as int;
    let parts = s.holding(from).split(amount)->Ok_0;
    assert(s.buckets[i].id == from);
    assert(s.buckets[i].holding.wf());
    if s.has_bucket(fresh) {
        let k = s.bucket_index(fresh);
        assert(s.buckets[k].id == fresh);
    }
    lemma_take_conserves(s, from, amount, arbitrary());
    lemma_with_holding(s, from, parts.0);
    assert(t.buckets[n].id == fresh);
    assert(t.buckets[i].id == from);
    lemma_bucket_index(t, n);
    lemma_bucket_index(t, i);
    lemma_live_bucket_leaks(t, fresh);
}

/// A new bucket is live under a handle that was not live before, and is
/// reported if the frame is closed with it.
pub proof fn lemma_new_bucket_is_live(s: FrameState, resource: Address)
    requires
        s.wf(),
        new_result(s, resource) is Ok,
    ensures
        ({
            let t = new_result(s, resource)->Ok_0;
            let fresh = BID(s.next_bid);
            &&& !s.has_bucket(fresh)
            &&& t.has_bucket(fresh)
            &&& t.leaks() is Some
            &&& t.leaks()->Some_0.0.contains(fresh)
        }),
{
    let t = new_result(s, resource)->Ok_0;
    let fresh = BID(s.next_bid);
    if s.has_bucket(fresh) {
        let k = s.bucket_index(fresh);
        assert(s.buckets[k].id == fresh);
    }
    assert(t.buckets[s.buckets.len() as int].id == fresh);
    lemma_live_bucket_leaks(t, fresh);
}

/// A merge undoes a split: when what was split off a bucket is put back,
/// every bucket, reference and resource is as it was before the split.
pub proof fn lemma_put_undoes_take(s: FrameState, from: BID, amount: Decimal)
    requires
        s.wf(),
        s.next_bid < u32::MAX,
        take_result(s, from, amount) is Ok,
    ensures
        ({
            let t = take_result(s, from, amount)->Ok_0;
            &&& put_result(t, from, BID(s.next_bid)) is Ok
            &&& put_result(t, from, BID(s.next_bid))->Ok_0.buckets == s.buckets
            &&& put_result(t, from, BID(s.next_bid))->Ok_0.borrows == s.borrows
            &&& put_result(t, from, BID(s.next_bid))->Ok_0.resources == s.resources
        }),
{
    let t = take_result(s, from, amount)->Ok_0;
    let fresh = BID(s.next_bid);
    let i = s.bucket_index(from);
    let n = s.buckets.len() as int;
    let h = s.holding(from);
    let parts = h.split(amount)->Ok_0;
    lemma_take_makes_new_bucket(s, from, amount);
    lemma_take_conserves(s, from, amount, arbitrary());
    assert(s.buckets[i].id == from);
    assert(s.buckets[i].holding.wf());
    assert(t.buckets[n].id == fresh);
    assert(t.buckets[i].id == from);
    lemma_bucket_index(t, n);
    lemma_bucket_index(t, i);
    assert(t.holding(from) == parts.0);
    assert(t.holding(fresh) == parts.1);
    assert(parts.0.merged(parts.1) == Ok::<Holding, BucketError>(h));
    lemma_with_holding(t, from, h);
    let mid = t.with_holding(from, h);
    assert(mid.bucket_index(fresh) == n);
    let u = put_result(t, from, fresh)->Ok_0;
    assert(u.buckets =~= s.buckets);
}

/// A badge that is lent to one call comes back: when a reference is made
/// and its presentation ends, the frame's references are as they were.
pub proof fn lemma_lend_and_release(s: FrameState, badge: BID, x: FrameState)
    requires
        s.wf(),
        s.next_rid < u32::MAX,
        x.borrows == s.with_reference(badge).borrows,
    ensures
        released(x, Some(RID(s.next_rid))).borrows == s.borrows,
{
    let rid = RID(s.next_rid);
    let n = s.borrows.len() as int;
    assert(x.borrows[n].id == rid);
    assert(x.has_reference(rid));
    let j = x.reference_index(rid);
    assert(x.borrows[j].id == rid);
    if j < n {
        assert(x.borrows[j] == s.borrows[j]);
    }
    assert(x.borrows.remove(n) =~= s.borrows);
}

/// Where no bucket holds a negative amount, two buckets together hold no
/// more than the total of a resource.
pub proof fn lemma_two_parts_within_sum(
    buckets: Seq<BucketState>,
    i: int,
    j: int,
    resource: Address,
)
    requires
        forall|k: int| 0 <= k < buckets.len() ==> (#[trigger] buckets[k]).holding.amount@ >= 0,
        0 <= i < j < buckets.len(),
    ensures
        part(buckets[i], resource) + part(buckets[j], resource) <= sum_of(buckets, resource),
    decreases buckets.len(),
{
    if j == buckets.len() - 1 {
        lemma_part_within_sum(buckets.drop_last(), i, resource);
    } else {
        lemma_two_parts_within_sum(buckets.drop_last(), i, j, resource);
    }
}

/// In a backed frame a merge of two live buckets of one defined resource
/// is never refused: what the two hold together is within the supply, so
/// the merged balance can be held.
pub proof fn lemma_backed_put_succeeds(s: FrameState, into: BID, other: BID)
    requires
        s.wf(),
        s.backed(),
        s.has_bucket(into),
        s.has_bucket(other),
        into != other,
        s.holding(into).resource == s.holding(other).resource,
        s.has_resource(s.holding(into).resource),
    ensures
        put_result(s, into, other) is Ok,
        put_result(s, into, other)->Ok_0.holding(into).amount@ == s.holding(into).amount@
            + s.holding(other).amount@,
{
    let i = s.bucket_index(into);
    let j = s.bucket_index(other);
    let r = s.holding(into).resource;
    let k = s.resource_index(r);
    assert(s.buckets[i].id == into);
    assert(s.buckets[j].id == other);
    assert(s.resources[k].address == r);
    assert(s.buckets[i].holding.wf());
    assert(s.buckets[j].holding.wf());
    if i < j {
        lemma_two_parts_within_sum(s.buckets, i, j, r);
    } else {
        lemma_two_parts_within_sum(s.buckets, j, i, r);
    }
    let h = s.holding(into).merged(s.holding(other))->Ok_0;
    lemma_with_holding(s, into, h);
    let mid = s.with_holding(into, h);
    let t = put_result(s, into, other)->Ok_0;
    lemma_others_stay(mid, other, into);
    let x = mid.bucket_index(into);
    assert(mid.buckets[x].id == into);
    assert(x == i);
    let y = t.bucket_index(into);
    assert(t.buckets[y].id == into);
    lemma_put_conserves(s, into, other, r);
    let y2 = if y < j { y } else { y + 1 };
    assert(mid.buckets[y2].id == into);
    lemma_bucket_index(mid, y2);
}

} // verus!
