//! Buckets: transient containers of value, addressed by handle, and the
//! calls by which a frame's buckets are made, merged, split, lent, minted
//! and burned.

use crate::decimal::Decimal;
use crate::describe::{Describe, Shape, Type};
use crate::error::RuntimeError;
use crate::frame::{Frame, FrameState};
use crate::resource::{Holding, ResourceDef, BURNABLE, FREELY_BURNABLE, MAY_BURN, MAY_MINT, MINTABLE};
use crate::types::{Address, BID, RID};
use vstd::prelude::*;
use vstd::std_specs::convert::FromSpecImpl;

verus! {

/// A handle on a quantity of one resource, live in one frame.
#[derive(Debug)]
pub struct Bucket {
    pub bid: BID,
}

/// A handle on a borrowed view of a bucket, which shows what the bucket
/// holds without owning it.
#[derive(Debug)]
pub struct BucketRef {
    pub rid: RID,
}

/// What `Bucket::new` does to a frame.
pub open spec fn new_result(s: FrameState, resource: Address) -> Result<FrameState, RuntimeError> {
    if !s.has_resource(resource) {
        Err(RuntimeError::ResourceNotFound(resource))
    } else {
        Ok(
            s.with_bucket(
                Holding {
                    resource,
                    resource_type: s.resource(resource).resource_type,
                    amount: Decimal(0),
                },
            ),
        )
    }
}

/// What `Bucket::put` does to a frame: the bucket `other` is merged into the
/// bucket `into` and ceases to exist.
pub open spec fn put_result(s: FrameState, into: BID, other: BID) -> Result<
    FrameState,
    RuntimeError,
> {
    if !s.has_bucket(into) || !s.has_bucket(other) || into == other {
        Err(RuntimeError::BucketNotFound)
    } else {
        match s.holding(into).merged(s.holding(other)) {
            Err(e) => Err(RuntimeError::AccountingError(e)),
            Ok(h) => Ok(s.with_holding(into, h).without_bucket(other)),
        }
    }
}

/// What `Bucket::take` does to a frame: `amount` leaves the bucket `from`
/// for a new bucket under the next free handle.
pub open spec fn take_result(s: FrameState, from: BID, amount: Decimal) -> Result<
    FrameState,
    RuntimeError,
> {
    if !s.has_bucket(from) {
        Err(RuntimeError::BucketNotFound)
    } else {
        match s.holding(from).split(amount) {
            Err(e) => Err(RuntimeError::AccountingError(e)),
            Ok(parts) => Ok(s.with_holding(from, parts.0).with_bucket(parts.1)),
        }
    }
}

/// What `Bucket::borrow` does to a frame.
pub open spec fn borrow_result(s: FrameState, bucket: BID) -> Result<FrameState, RuntimeError> {
    if !s.has_bucket(bucket) {
        Err(RuntimeError::BucketNotFound)
    } else {
        Ok(s.with_reference(bucket))
    }
}

/// What `BucketRef::drop` does to a frame.
pub open spec fn drop_result(s: FrameState, reference: RID) -> Result<FrameState, RuntimeError> {
    if !s.has_reference(reference) {
        Err(RuntimeError::ReferenceNotFound)
    } else {
        Ok(s.without_reference(reference))
    }
}

/// What `Bucket::release` does to a frame: the bucket leaves it.
pub open spec fn release_result(s: FrameState, bucket: BID) -> Result<FrameState, RuntimeError> {
    if !s.has_bucket(bucket) {
        Err(RuntimeError::BucketNotFound)
    } else {
        Ok(s.without_bucket(bucket))
    }
}

/// The holding that a presented badge shows: none where no badge is
/// presented, an error where the reference or its bucket is not live.
pub open spec fn presented(s: FrameState, auth: Option<RID>) -> Result<
    Option<Holding>,
    RuntimeError,
> {
    match auth {
        None => Ok(None),
        Some(rid) => if !s.has_reference(rid) {
            Err(RuntimeError::ReferenceNotFound)
        } else if !s.has_bucket(s.referent(rid)) {
            Err(RuntimeError::BucketNotFound)
        } else {
            Ok(Some(s.holding(s.referent(rid))))
        },
    }
}

/// Whether a presented badge carries `permission` on a resource: it must
/// hold a positive amount of a badge resource that the definition lists
/// with that permission.
pub open spec fn allows(def: ResourceDef, badge: Option<Holding>, permission: u16) -> bool {
    match badge {
        None => false,
        Some(h) => h.amount@ > 0 && def.permits(h.resource, permission),
    }
}

/// The frame once a presentation has ended: the presented reference, if
/// there was one and it was live, is live no longer; nothing else changes.
pub open spec fn released(s: FrameState, auth: Option<RID>) -> FrameState {
    match auth {
        Some(rid) => if s.has_reference(rid) {
            s.without_reference(rid)
        } else {
            s
        },
        None => s,
    }
}

/// Why a mint is refused, if it is.
pub open spec fn mint_error(s: FrameState, resource: Address, amount: Decimal, auth: Option<RID>)
    -> Option<RuntimeError> {
    if !s.has_resource(resource) {
        Some(RuntimeError::ResourceNotFound(resource))
    } else if !s.resource(resource).has_flag(MINTABLE) {
        Some(RuntimeError::FixedResourceMintNotAllowed)
    } else {
        let def = s.resource(resource);
        match presented(s, auth) {
            Err(e) => Some(e),
            Ok(badge) => if !allows(def, badge, MAY_MINT) {
                Some(RuntimeError::UnauthorizedToMint)
            } else if !amount.fits(def.resource_type.places()) {
                Some(
                    RuntimeError::AccountingError(crate::error::BucketError::InvalidAmount(amount)),
                )
            } else if def.total_supply@ + amount@ > i128::MAX {
                Some(RuntimeError::AccountingError(crate::error::BucketError::BalanceOverflow))
            } else {
                None
            },
        }
    }
}

/// The frame with `amount` more of a resource supplied, in a new bucket
/// under the next free handle.
pub open spec fn minted(s: FrameState, resource: Address, amount: Decimal) -> FrameState {
    let def = s.resource(resource);
    s.with_supply(resource, Decimal((def.total_supply@ + amount@) as i128)).with_bucket(
        Holding { resource, resource_type: def.resource_type, amount },
    )
}

/// What `mint` does to a frame where it succeeds: the supply grows, the
/// new bucket appears, and the presentation of the badge ends.
pub open spec fn mint_result(
    s: FrameState,
    resource: Address,
    amount: Decimal,
    auth: Option<RID>,
) -> Result<FrameState, RuntimeError> {
    match mint_error(s, resource, amount, auth) {
        Some(e) => Err(e),
        None => Ok(released(minted(s, resource, amount), auth)),
    }
}

/// Whether burning under a definition is permitted to someone who
/// presents `badge`.
pub open spec fn may_burn(def: ResourceDef, badge: Option<Holding>) -> bool {
    def.has_flag(FREELY_BURNABLE) || (def.has_flag(BURNABLE) && allows(def, badge, MAY_BURN))
}

/// Why a burn is refused, if it is.
pub open spec fn burn_error(s: FrameState, bucket: BID, auth: Option<RID>) -> Option<RuntimeError> {
    if !s.has_bucket(bucket) {
        Some(RuntimeError::BucketNotFound)
    } else if !s.has_resource(s.holding(bucket).resource) {
        Some(RuntimeError::ResourceNotFound(s.holding(bucket).resource))
    } else {
        let h = s.holding(bucket);
        let def = s.resource(h.resource);
        match presented(s, auth) {
            Err(e) => Some(e),
            Ok(badge) => if !may_burn(def, badge) {
                Some(RuntimeError::UnauthorizedToBurn)
            } else if h.amount@ > def.total_supply@ {
                Some(RuntimeError::AccountingError(crate::error::BucketError::InsufficientBalance))
            } else {
                None
            },
        }
    }
}

/// The frame without a bucket, and with the supply of its resource
/// lowered by what the bucket held.
pub open spec fn burned(s: FrameState, bucket: BID) -> FrameState {
    let h = s.holding(bucket);
    let def = s.resource(h.resource);
    s.without_bucket(bucket).with_supply(
        h.resource,
        Decimal((def.total_supply@ - h.amount@) as i128),
    )
}

/// What `Bucket::burn` does to a frame where it succeeds: the bucket is
/// gone, the supply has fallen, and the presentation of the badge ends.
pub open spec fn burn_result(s: FrameState, bucket: BID, auth: Option<RID>) -> Result<
    FrameState,
    RuntimeError,
> {
    match burn_error(s, bucket, auth) {
        Some(e) => Err(e),
        None => Ok(released(burned(s, bucket), auth)),
    }
}

/// Reads what a presented badge shows.
pub fn present(frame: &Frame, auth: &Option<BucketRef>) -> (r: Result<
    Option<Holding>,
    RuntimeError,
>)
    requires
        frame@.wf(),
    ensures
        r == presented(frame@, ref_id(*auth)),
        r matches Ok(Some(h)) ==> h.wf(),
{
    match auth {
        None => Ok(None),
        Some(reference) => match reference.inspect(frame) {
            Err(e) => Err(e),
            Ok(h) => Ok(Some(h)),
        },
    }
}

/// The handle inside an optional reference.
pub open spec fn ref_id(auth: Option<BucketRef>) -> Option<RID> {
    match auth {
        None => None,
        Some(r) => Some(r.id()),
    }
}

/// Whether a presented badge carries `permission` on a resource.
pub fn check_badge(def: &ResourceDef, badge: &Option<Holding>, permission: u16) -> (r: bool)
    ensures
        r == allows(*def, *badge, permission),
{
    match badge {
        None => false,
        Some(h) => h.amount.0 > 0 && def.check_permission(h.resource, permission),
    }
}

/// Ends the presentation of a badge: the reference, if one was presented
/// and is live, is taken out of the frame.
fn end_presentation(frame: &mut Frame, auth: Option<BucketRef>)
    requires
        old(frame)@.wf(),
    ensures
        final(frame)@.wf(),
        final(frame)@ == released(old(frame)@, ref_id(auth)),
{
    match auth {
        None => {},
        Some(reference) => match frame.find_reference(reference.rid) {
            None => {},
            Some(k) => {
                frame.remove_reference(k);
            },
        },
    }
}

/// Mints `amount` of a resource into a new bucket.
///
/// The presentation of the badge lasts for this one call: whatever the
/// outcome, the presented reference is live no longer afterwards, and the
/// badge itself stays in its bucket.
///
/// Fails where the resource is not defined (`ResourceNotFound`), has a
/// fixed supply (`FixedResourceMintNotAllowed`), the presented reference or
/// its bucket is not live (`ReferenceNotFound`, `BucketNotFound`), no badge
/// with the permission to mint is presented (`UnauthorizedToMint`), or the
/// amount is not one the resource can hold (`AccountingError`). On failure
/// nothing changes but that the presentation has ended.
pub fn mint(frame: &mut Frame, resource: Address, amount: Decimal, auth: Option<BucketRef>) -> (r:
    Result<Bucket, RuntimeError>)
    requires
        old(frame)@.wf(),
        old(frame)@.next_bid < u32::MAX,
    ensures
        final(frame)@.wf(),
        old(frame)@.backed() ==> final(frame)@.backed(),
        match r {
            Ok(b) => mint_result(old(frame)@, resource, amount, ref_id(auth)) == Ok::<
                FrameState,
                RuntimeError,
            >(final(frame)@) && b.id() == BID(old(frame)@.next_bid),
            Err(e) => mint_result(old(frame)@, resource, amount, ref_id(auth)) == Err::<
                FrameState,
                RuntimeError,
            >(e) && final(frame)@ == released(old(frame)@, ref_id(auth)),
        },
{
    proof {
        if old(frame)@.backed() {
            crate::laws::lemma_calls_keep_backing(
                old(frame)@,
                arbitrary(),
                arbitrary(),
                resource,
                amount,
                arbitrary(),
                ref_id(auth),
            );
        }
    }
    let r = mint_unreleased(frame, resource, amount, &auth);
    end_presentation(frame, auth);
    r
}

/// Mints while the presentation of the badge lasts.
fn mint_unreleased(
    frame: &mut Frame,
    resource: Address,
    amount: Decimal,
    auth: &Option<BucketRef>,
) -> (r: Result<Bucket, RuntimeError>)
    requires
        old(frame)@.wf(),
        old(frame)@.next_bid < u32::MAX,
    ensures
        final(frame)@.wf(),
        match r {
            Ok(b) => mint_error(old(frame)@, resource, amount, ref_id(*auth)) is None && final(frame)@ == minted(old(frame)@, resource, amount) && b.id() == BID(old(frame)@.next_bid),
            Err(e) => mint_error(old(frame)@, resource, amount, ref_id(*auth)) == Some(e) && final(frame)@ == old(frame)@,
        },
{
    let k = match frame.find_resource(resource) {
        None => { return Err(RuntimeError::ResourceNotFound(resource)); },
        Some(k) => k,
    };
    let def = frame.resource_at(k);
    if !def.is_flag_on(MINTABLE) {
        return Err(RuntimeError::FixedResourceMintNotAllowed);
    }
    let badge = match present(frame, auth) {
        Err(e) => { return Err(e); },
        Ok(badge) => badge,
    };
    if !check_badge(def, &badge, MAY_MINT) {
        return Err(RuntimeError::UnauthorizedToMint);
    }
    let resource_type = def.resource_type;
    if !amount.is_multiple_of_step(resource_type.divisibility()) {
        return Err(
            RuntimeError::AccountingError(crate::error::BucketError::InvalidAmount(amount)),
        );
    }
    let supply = match def.total_supply.checked_add(amount) {
        None => {
            return Err(
                RuntimeError::AccountingError(crate::error::BucketError::BalanceOverflow),
            );
        },
        Some(supply) => supply,
    };
    frame.set_supply(k, supply);
    let bid = frame.add_bucket(Holding { resource, resource_type, amount });
    Ok(Bucket { bid })
}

/// Mints under a badge that is lent for this one call: the bucket that
/// holds the badge is borrowed, the reference is presented to the mint, and
/// the presentation ends with the call, whatever its outcome. The frame's
/// references are afterwards as they were before.
///
/// Fails with `BucketNotFound`, and changes nothing, where the badge bucket
/// is not live; otherwise as `mint` does under the new reference.
pub fn mint_with_badge(badge: &Bucket, frame: &mut Frame, resource: Address, amount: Decimal) -> (r:
    Result<Bucket, RuntimeError>)
    requires
        old(frame)@.wf(),
        old(frame)@.next_bid < u32::MAX,
        old(frame)@.next_rid < u32::MAX,
    ensures
        final(frame)@.wf(),
        old(frame)@.backed() ==> final(frame)@.backed(),
        final(frame)@.borrows == old(frame)@.borrows,
        !old(frame)@.has_bucket(badge.id()) ==> r is Err && r->Err_0 == RuntimeError::BucketNotFound
            && final(frame)@ == old(frame)@,
        old(frame)@.has_bucket(badge.id()) ==> (match r {
            Ok(b) => mint_result(
                old(frame)@.with_reference(badge.id()),
                resource,
                amount,
                Some(RID(old(frame)@.next_rid)),
            ) == Ok::<FrameState, RuntimeError>(final(frame)@) && b.id() == BID(
                old(frame)@.next_bid,
            ),
            Err(e) => mint_result(
                old(frame)@.with_reference(badge.id()),
                resource,
                amount,
                Some(RID(old(frame)@.next_rid)),
            ) == Err::<FrameState, RuntimeError>(e) && final(frame)@ == released(
                old(frame)@.with_reference(badge.id()),
                Some(RID(old(frame)@.next_rid)),
            ),
        }),
{
    match badge.borrow(frame) {
        Err(e) => Err(e),
        Ok(reference) => {
            proof {
                let lent = old(frame)@.with_reference(badge.id());
                crate::laws::lemma_lend_and_release(old(frame)@, badge.id(), lent);
                crate::laws::lemma_lend_and_release(
                    old(frame)@,
                    badge.id(),
                    minted(lent, resource, amount),
                );
            }
            mint(frame, resource, amount, Some(reference))
        },
    }
}

impl BucketRef {
    /// The handle of the reference.
    pub open spec fn id(self) -> RID {
        self.rid
    }

    /// The handle of the reference.
    pub fn rid(&self) -> (rid: RID)
        ensures
            rid == self.id(),
    {
        self.rid
    }

    /// What the borrowed bucket holds.
    ///
    /// Fails with `ReferenceNotFound` where the reference is not live in
    /// the frame, and with `BucketNotFound` where its bucket is not.
    pub fn inspect(&self, frame: &Frame) -> (r: Result<Holding, RuntimeError>)
        requires
            frame@.wf(),
        ensures
            match r {
                Ok(h) => presented(frame@, Some(self.id())) == Ok::<Option<Holding>, RuntimeError>(
                    Some(h),
                ) && h.wf(),
                Err(e) => presented(frame@, Some(self.id())) == Err::<
                    Option<Holding>,
                    RuntimeError,
                >(e),
            },
    {
        match frame.find_reference(self.rid) {
            None => Err(RuntimeError::ReferenceNotFound),
            Some(k) => {
                let target = frame.reference_at(k).bucket;
                match frame.find_bucket(target) {
                    None => Err(RuntimeError::BucketNotFound),
                    Some(i) => Ok(frame.bucket_at(i).holding),
                }
            },
        }
    }

    /// Ends the borrow.
    ///
    /// Fails with `ReferenceNotFound`, and changes nothing, where the
    /// reference is not live in the frame.
    pub fn drop(self, frame: &mut Frame) -> (r: Result<(), RuntimeError>)
        requires
            old(frame)@.wf(),
        ensures
            final(frame)@.wf(),
            old(frame)@.backed() ==> final(frame)@.backed(),
            match r {
                Ok(()) => drop_result(old(frame)@, self.id()) == Ok::<FrameState, RuntimeError>(
                    final(frame)@,
                ),
                Err(e) => drop_result(old(frame)@, self.id()) == Err::<FrameState, RuntimeError>(e)
                    && final(frame)@ == old(frame)@,
            },
    {
        proof {
            if old(frame)@.backed() {
                crate::laws::lemma_calls_keep_backing(
                    old(frame)@,
                    arbitrary(),
                    arbitrary(),
                    arbitrary(),
                    arbitrary(),
                    self.id(),
                    arbitrary(),
                );
            }
        }
        match frame.find_reference(self.rid) {
            None => Err(RuntimeError::ReferenceNotFound),
            Some(k) => {
                frame.remove_reference(k);
                Ok(())
            },
        }
    }
}

impl Bucket {
    /// The handle of the bucket.
    pub open spec fn id(self) -> BID {
        self.bid
    }

    /// The handle of the bucket.
    pub fn bid(&self) -> (bid: BID)
        ensures
            bid == self.id(),
    {
        self.bid
    }

    /// Creates an empty bucket of a defined resource.
    ///
    /// Fails with `ResourceNotFound`, and changes nothing, where the resource
    /// is not defined.
    pub fn new(frame: &mut Frame, resource: Address) -> (r: Result<Bucket, RuntimeError>)
        requires
            old(frame)@.wf(),
            old(frame)@.next_bid < u32::MAX,
        ensures
            final(frame)@.wf(),
            old(frame)@.backed() ==> final(frame)@.backed(),
            match r {
                Ok(b) => new_result(old(frame)@, resource) == Ok::<FrameState, RuntimeError>(
                    final(frame)@,
                ) && b.id() == BID(old(frame)@.next_bid),
                Err(e) => new_result(old(frame)@, resource) == Err::<FrameState, RuntimeError>(e)
                    && final(frame)@ == old(frame)@,
            },
    {
        proof {
            if old(frame)@.backed() {
                crate::laws::lemma_calls_keep_backing(
                    old(frame)@,
                    arbitrary(),
                    arbitrary(),
                    resource,
                    arbitrary(),
                    arbitrary(),
                    arbitrary(),
                );
            }
        }
        match frame.find_resource(resource) {
            None => Err(RuntimeError::ResourceNotFound(resource)),
            Some(k) => {
                let resource_type = frame.resource_at(k).resource_type;
                let bid = frame.add_bucket(Holding::empty(resource, resource_type));
                Ok(Bucket { bid })
            },
        }
    }

    /// Merges `other` into this bucket; `other` ceases to exist.
    ///
    /// Fails, and changes nothing, where either bucket is not live in the
    /// frame (`BucketNotFound`), the two hold different resources or the
    /// merged balance cannot be held (`AccountingError`).
    pub fn put(&self, frame: &mut Frame, other: Bucket) -> (r: Result<(), RuntimeError>)
        requires
            old(frame)@.wf(),
        ensures
            final(frame)@.wf(),
            old(frame)@.backed() ==> final(frame)@.backed(),
            match r {
                Ok(()) => put_result(old(frame)@, self.id(), other.id()) == Ok::<
                    FrameState,
                    RuntimeError,
                >(final(frame)@),
                Err(e) => put_result(old(frame)@, self.id(), other.id()) == Err::<
                    FrameState,
                    RuntimeError,
                >(e) && final(frame)@ == old(frame)@,
            },
    {
        proof {
            if old(frame)@.backed() {
                crate::laws::lemma_calls_keep_backing(
                    old(frame)@,
                    self.id(),
                    other.id(),
                    arbitrary(),
                    arbitrary(),
                    arbitrary(),
                    arbitrary(),
                );
            }
        }
        let i = match frame.find_bucket(self.bid) {
            None => { return Err(RuntimeError::BucketNotFound); },
            Some(i) => i,
        };
        let j = match frame.find_bucket(other.bid) {
            None => { return Err(RuntimeError::BucketNotFound); },
            Some(j) => j,
        };
        if i == j {
            return Err(RuntimeError::BucketNotFound);
        }
        let mut target = frame.bucket_at(i).holding;
        let source = frame.bucket_at(j).holding;
        match target.put(source) {
            Err(e) => Err(RuntimeError::AccountingError(e)),
            Ok(()) => {
                frame.set_holding(i, target);
                assert(frame@.buckets[j as int].id == other.bid);
                match frame.find_bucket(other.bid) {
                    None => Err(RuntimeError::BucketNotFound),
                    Some(j2) => {
                        frame.remove_bucket(j2);
                        Ok(())
                    },
                }
            },
        }
    }

    /// Splits `amount` off this bucket into a new one.
    ///
    /// Fails, and changes nothing, where the bucket is not live in the frame
    /// (`BucketNotFound`), or the amount is negative, finer than the
    /// resource's divisibility, or more than the bucket holds
    /// (`AccountingError`).
    pub fn take(&self, frame: &mut Frame, amount: Decimal) -> (r: Result<Bucket, RuntimeError>)
        requires
            old(frame)@.wf(),
            old(frame)@.next_bid < u32::MAX,
        ensures
            final(frame)@.wf(),
            old(frame)@.backed() ==> final(frame)@.backed(),
            match r {
                Ok(b) => take_result(old(frame)@, self.id(), amount) == Ok::<
                    FrameState,
                    RuntimeError,
                >(final(frame)@) && b.id() == BID(old(frame)@.next_bid),
                Err(e) => take_result(old(frame)@, self.id(), amount) == Err::<
                    FrameState,
                    RuntimeError,
                >(e) && final(frame)@ == old(frame)@,
            },
    {
        proof {
            if old(frame)@.backed() {
                crate::laws::lemma_calls_keep_backing(
                    old(frame)@,
                    self.id(),
                    arbitrary(),
                    arbitrary(),
                    amount,
                    arbitrary(),
                    arbitrary(),
                );
            }
        }
        let i = match frame.find_bucket(self.bid) {
            None => { return Err(RuntimeError::BucketNotFound); },
            Some(i) => i,
        };
        let mut rest = frame.bucket_at(i).holding;
        match rest.take(amount) {
            Err(e) => Err(RuntimeError::AccountingError(e)),
            Ok(taken) => {
                frame.set_holding(i, rest);
                let bid = frame.add_bucket(taken);
                Ok(Bucket { bid })
            },
        }
    }

    /// Lends the bucket: makes a reference through which it can be
    /// inspected, and leaves the bucket where it is.
    ///
    /// Fails with `BucketNotFound`, and changes nothing, where the bucket is
    /// not live in the frame.
    pub fn borrow(&self, frame: &mut Frame) -> (r: Result<BucketRef, RuntimeError>)
        requires
            old(frame)@.wf(),
            old(frame)@.next_rid < u32::MAX,
        ensures
            final(frame)@.wf(),
            old(frame)@.backed() ==> final(frame)@.backed(),
            match r {
                Ok(reference) => borrow_result(old(frame)@, self.id()) == Ok::<
                    FrameState,
                    RuntimeError,
                >(final(frame)@) && reference.id() == RID(old(frame)@.next_rid),
                Err(e) => borrow_result(old(frame)@, self.id()) == Err::<FrameState, RuntimeError>(
                    e,
                ) && final(frame)@ == old(frame)@,
            },
    {
        proof {
            if old(frame)@.backed() {
                crate::laws::lemma_calls_keep_backing(
                    old(frame)@,
                    self.id(),
                    arbitrary(),
                    arbitrary(),
                    arbitrary(),
                    arbitrary(),
                    arbitrary(),
                );
            }
        }
        match frame.find_bucket(self.bid) {
            None => Err(RuntimeError::BucketNotFound),
            Some(_) => {
                let rid = frame.add_reference(self.bid);
                Ok(BucketRef { rid })
            },
        }
    }

    /// The amount that the bucket holds.
    pub fn amount(&self, frame: &Frame) -> (r: Result<Decimal, RuntimeError>)
        requires
            frame@.wf(),
        ensures
            match r {
                Ok(a) => frame@.has_bucket(self.id()) && a == frame@.holding(self.id()).amount,
                Err(e) => !frame@.has_bucket(self.id()) && e == RuntimeError::BucketNotFound,
            },
    {
        match frame.find_bucket(self.bid) {
            None => Err(RuntimeError::BucketNotFound),
            Some(i) => Ok(frame.bucket_at(i).holding.amount),
        }
    }

    /// The address of the resource that the bucket holds.
    pub fn resource(&self, frame: &Frame) -> (r: Result<Address, RuntimeError>)
        requires
            frame@.wf(),
        ensures
            match r {
                Ok(a) => frame@.has_bucket(self.id()) && a == frame@.holding(self.id()).resource,
                Err(e) => !frame@.has_bucket(self.id()) && e == RuntimeError::BucketNotFound,
            },
    {
        match frame.find_bucket(self.bid) {
            None => Err(RuntimeError::BucketNotFound),
            Some(i) => Ok(frame.bucket_at(i).holding.resource),
        }
    }

    /// Whether the bucket holds nothing.
    pub fn is_empty(&self, frame: &Frame) -> (r: Result<bool, RuntimeError>)
        requires
            frame@.wf(),
        ensures
            match r {
                Ok(e) => frame@.has_bucket(self.id()) && e == (frame@.holding(self.id()).amount@
                    == 0),
                Err(e) => !frame@.has_bucket(self.id()) && e == RuntimeError::BucketNotFound,
            },
    {
        match self.amount(frame) {
            Ok(a) => Ok(a.is_zero()),
            Err(e) => Err(e),
        }
    }

    /// Destroys the bucket and what it holds, and lowers the total supply
    /// of its resource by that amount.
    ///
    /// The presentation of the badge lasts for this one call: whatever the
    /// outcome, the presented reference is live no longer afterwards.
    ///
    /// Fails where the bucket, the presented reference or its bucket is not
    /// live (`BucketNotFound`, `ReferenceNotFound`), the resource is not
    /// defined (`ResourceNotFound`), the resource is not freely burnable and
    /// no badge with the permission to burn is presented
    /// (`UnauthorizedToBurn`), or more would be burned than was ever supplied
    /// (`AccountingError`). On failure nothing changes but that the
    /// presentation has ended.
    pub fn burn(self, frame: &mut Frame, auth: Option<BucketRef>) -> (r: Result<(), RuntimeError>)
        requires
            old(frame)@.wf(),
        ensures
            final(frame)@.wf(),
            old(frame)@.backed() ==> final(frame)@.backed(),
            match r {
                Ok(()) => burn_result(old(frame)@, self.id(), ref_id(auth)) == Ok::<
                    FrameState,
                    RuntimeError,
                >(final(frame)@),
                Err(e) => burn_result(old(frame)@, self.id(), ref_id(auth)) == Err::<
                    FrameState,
                    RuntimeError,
                >(e) && final(frame)@ == released(old(frame)@, ref_id(auth)),
            },
    {
        proof {
            if old(frame)@.backed() {
                crate::laws::lemma_calls_keep_backing(
                    old(frame)@,
                    self.id(),
                    arbitrary(),
                    arbitrary(),
                    arbitrary(),
                    arbitrary(),
                    ref_id(auth),
                );
            }
        }
        let r = self.burn_unreleased(frame, &auth);
        end_presentation(frame, auth);
        r
    }

    /// Burns while the presentation of the badge lasts.
    fn burn_unreleased(&self, frame: &mut Frame, auth: &Option<BucketRef>) -> (r: Result<
        (),
        RuntimeError,
    >)
        requires
            old(frame)@.wf(),
        ensures
            final(frame)@.wf(),
            match r {
                Ok(()) => burn_error(old(frame)@, self.id(), ref_id(*auth)) is None && final(frame)@ == burned(old(frame)@, self.id()),
                Err(e) => burn_error(old(frame)@, self.id(), ref_id(*auth)) == Some(e) && final(frame)@ == old(frame)@,
            },
    {
        let i = match frame.find_bucket(self.bid) {
            None => { return Err(RuntimeError::BucketNotFound); },
            Some(i) => i,
        };
        let h = frame.bucket_at(i).holding;
        let k = match frame.find_resource(h.resource) {
            None => { return Err(RuntimeError::ResourceNotFound(h.resource)); },
            Some(k) => k,
        };
        let def = frame.resource_at(k);
        let badge = match present(frame, auth) {
            Err(e) => { return Err(e); },
            Ok(badge) => badge,
        };
        let permitted = def.is_flag_on(FREELY_BURNABLE) || (def.is_flag_on(BURNABLE)
            && check_badge(def, &badge, MAY_BURN));
        if !permitted {
            return Err(RuntimeError::UnauthorizedToBurn);
        }
        if h.amount.0 > def.total_supply.0 {
            return Err(
                RuntimeError::AccountingError(crate::error::BucketError::InsufficientBalance),
            );
        }
        let supply = Decimal(def.total_supply.0 - h.amount.0);
        frame.remove_bucket(i);
        frame.set_supply(k, supply);
        Ok(())
    }

    /// Burns the bucket under a badge that is lent for this one call: the
    /// bucket that holds the badge is borrowed, the reference is presented
    /// to the burn, and the presentation ends with the call, whatever its
    /// outcome. The frame's references are afterwards as they were before.
    ///
    /// Fails with `BucketNotFound`, and changes nothing, where the badge
    /// bucket is not live; otherwise as `burn` does under the new reference.
    pub fn burn_with_badge(self, badge: &Bucket, frame: &mut Frame) -> (r: Result<
        (),
        RuntimeError,
    >)
        requires
            old(frame)@.wf(),
            old(frame)@.next_rid < u32::MAX,
        ensures
            final(frame)@.wf(),
            old(frame)@.backed() ==> final(frame)@.backed(),
            final(frame)@.borrows == old(frame)@.borrows,
            !old(frame)@.has_bucket(badge.id()) ==> r is Err && r->Err_0
                == RuntimeError::BucketNotFound && final(frame)@ == old(frame)@,
            old(frame)@.has_bucket(badge.id()) ==> (match r {
                Ok(()) => burn_result(
                    old(frame)@.with_reference(badge.id()),
                    self.id(),
                    Some(RID(old(frame)@.next_rid)),
                ) == Ok::<FrameState, RuntimeError>(final(frame)@),
                Err(e) => burn_result(
                    old(frame)@.with_reference(badge.id()),
                    self.id(),
                    Some(RID(old(frame)@.next_rid)),
                ) == Err::<FrameState, RuntimeError>(e) && final(frame)@ == released(
                    old(frame)@.with_reference(badge.id()),
                    Some(RID(old(frame)@.next_rid)),
                ),
            }),
    {
        match badge.borrow(frame) {
            Err(e) => Err(e),
            Ok(reference) => {
                proof {
                    let lent = old(frame)@.with_reference(badge.id());
                    crate::laws::lemma_lend_and_release(old(frame)@, badge.id(), lent);
                    crate::laws::lemma_lend_and_release(
                        old(frame)@,
                        badge.id(),
                        burned(lent, self.id()),
                    );
                }
                self.burn(frame, Some(reference))
            },
        }
    }

    /// Hands the bucket out of the frame: it ceases to be live there, and
    /// what it held is returned to the caller.
    ///
    /// Fails with `BucketNotFound`, and changes nothing, where the bucket is
    /// not live in the frame.
    pub fn release(self, frame: &mut Frame) -> (r: Result<Holding, RuntimeError>)
        requires
            old(frame)@.wf(),
        ensures
            final(frame)@.wf(),
            old(frame)@.backed() ==> final(frame)@.backed(),
            match r {
                Ok(h) => release_result(old(frame)@, self.id()) == Ok::<FrameState, RuntimeError>(
                    final(frame)@,
                ) && h == old(frame)@.holding(self.id()) && h.wf(),
                Err(e) => release_result(old(frame)@, self.id()) == Err::<
                    FrameState,
                    RuntimeError,
                >(e) && final(frame)@ == old(frame)@,
            },
    {
        proof {
            if old(frame)@.backed() {
                crate::laws::lemma_calls_keep_backing(
                    old(frame)@,
                    self.id(),
                    arbitrary(),
                    arbitrary(),
                    arbitrary(),
                    arbitrary(),
                    arbitrary(),
                );
            }
        }
        match frame.find_bucket(self.bid) {
            None => Err(RuntimeError::BucketNotFound),
            Some(i) => {
                let b = frame.remove_bucket(i);
                Ok(b.holding)
            },
        }
    }

    /// Takes a holding that was handed in from outside the frame into a new
    /// bucket.
    pub fn receive(frame: &mut Frame, holding: Holding) -> (b: Bucket)
        requires
            old(frame)@.wf(),
            old(frame)@.next_bid < u32::MAX,
            holding.wf(),
        ensures
            final(frame)@.wf(),
            final(frame)@ == old(frame)@.with_bucket(holding),
            b.id() == BID(old(frame)@.next_bid),
            old(frame)@.backed() && (old(frame)@.has_resource(holding.resource) ==> old(frame)@.total(holding.resource) + holding.amount@ <= old(frame)@.resource(
                holding.resource,
            ).total_supply@) ==> final(frame)@.backed(),
    {
        proof {
            if old(frame)@.backed() && (old(frame)@.has_resource(holding.resource) ==> old(frame)@.total(holding.resource) + holding.amount@ <= old(frame)@.resource(
                holding.resource,
            ).total_supply@) {
                crate::laws::lemma_receive_keeps_backing(old(frame)@, holding);
            }
        }
        let bid = frame.add_bucket(holding);
        Bucket { bid }
    }
}

impl From<BID> for Bucket {
    fn from(bid: BID) -> (b: Bucket) {
        Bucket { bid }
    }
}

impl FromSpecImpl<BID> for Bucket {
    open spec fn obeys_from_spec() -> bool {
        true
    }

    open spec fn from_spec(bid: BID) -> Bucket {
        Bucket { bid }
    }
}

impl From<Bucket> for BID {
    fn from(a: Bucket) -> (bid: BID) {
        a.bid
    }
}

impl FromSpecImpl<Bucket> for BID {
    open spec fn obeys_from_spec() -> bool {
        true
    }

    open spec fn from_spec(a: Bucket) -> BID {
        a.bid
    }
}

impl From<RID> for BucketRef {
    fn from(rid: RID) -> (r: BucketRef) {
        BucketRef { rid }
    }
}

impl FromSpecImpl<RID> for BucketRef {
    open spec fn obeys_from_spec() -> bool {
        true
    }

    open spec fn from_spec(rid: RID) -> BucketRef {
        BucketRef { rid }
    }
}

impl Describe for Bucket {
    open spec fn schema() -> Shape {
        Shape::Custom { name: "Bucket"@ }
    }

    fn describe() -> (ty: Type) {
        Type::Custom { name: "Bucket".to_owned() }
    }
}

} // verus!
