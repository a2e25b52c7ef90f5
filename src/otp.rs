//! One-time passwords kept per user as a bucket of recent codes; a code is
//! good for five minutes after it was issued.

use vstd::prelude::*;
use crate::primitives::utc_timestamp;

verus! {

/// How long an issued code stays good, in seconds.
pub const OTP_LIFETIME_SECONDS: i64 = 300;

/// One issued code and the Unix second at which it was issued.
#[derive(Debug, Clone, Copy, PartialEq, Eq, Structural)]
pub struct OtpBucketItem {
    pub otp: u32,
    pub expiry_at: i64,
}

/// The item was issued less than five minutes before `now`.
pub open spec fn is_fresh(item: OtpBucketItem, now: i64) -> bool {
    item.expiry_at > now - OTP_LIFETIME_SECONDS
}

/// The items of `items` that are fresh at `now`, in order.
pub open spec fn fresh_items(items: Seq<OtpBucketItem>, now: i64) -> Seq<OtpBucketItem>
    decreases items.len(),
{
    if items.len() == 0 {
        Seq::empty()
    } else if is_fresh(items.last(), now) {
        fresh_items(items.drop_last(), now).push(items.last())
    } else {
        fresh_items(items.drop_last(), now)
    }
}

impl OtpBucketItem {
    /// A code issued now.
    pub fn new(otp: u32) -> (r: Self)
        ensures
            r.otp == otp,
    {
        Self::issued_at(otp, utc_timestamp())
    }

    /// A code issued at Unix second `at`.
    pub fn issued_at(otp: u32, at: i64) -> (r: Self)
        ensures
            r.otp == otp,
            r.expiry_at == at,
    {
        Self { otp, expiry_at: at }
    }

    /// Whether the code is still good at `now`.
    pub fn is_fresh_at(&self, now: i64) -> (r: bool)
        ensures
            r == is_fresh(*self, now),
    {
        now < i64::MIN + OTP_LIFETIME_SECONDS || self.expiry_at > now - OTP_LIFETIME_SECONDS
    }
}

/// The codes issued to one user, oldest first.
#[derive(Debug, Clone, PartialEq, Eq)]
pub struct OtpBucket(pub Vec<OtpBucketItem>);

impl OtpBucket {
    /// Adds a code at the end.
    pub fn append(self, value: OtpBucketItem) -> (r: Self)
        ensures
            r.0@ == self.0@.push(value),
    {
        let mut items = self.0;
        items.push(value);
        Self(items)
    }

    /// Drops the codes that are no longer good by the clock now.
    pub fn filter_old(self) -> (r: Self)
        ensures
            exists|now: i64| r.0@ == fresh_items(self.0@, now),
    {
        let now = utc_timestamp();
        self.filter_old_at(now)
    }

    /// Drops the codes that are no longer good at `now`, keeping the order.
    pub fn filter_old_at(self, now: i64) -> (r: Self)
        ensures
            r.0@ == fresh_items(self.0@, now),
    {
        let mut kept: Vec<OtpBucketItem> = Vec::new();
        let mut i: usize = 0;
        while i < self.0.len()
            invariant
                i <= self.0@.len(),
                kept@ == fresh_items(self.0@.subrange(0, i as int), now),
            decreases self.0@.len() - i,
        {
            let item = self.0[i];
            let ghost before = self.0@.subrange(0, i as int);
            if item.is_fresh_at(now) {
                kept.push(item);
            }
            i = i + 1;
            assert(self.0@.subrange(0, i as int).drop_last() =~= before);
        }
        assert(self.0@.subrange(0, i as int) =~= self.0@);
        Self(kept)
    }

    /// Whether `otp` is among the codes still good by the clock now.
    pub fn verify_otp(&self, otp: u32) -> (r: bool)
        ensures
            r ==> exists|i: int| 0 <= i < self.0@.len() && (#[trigger] self.0@[i]).otp == otp,
    {
        self.verify_otp_at(otp, utc_timestamp())
    }

    /// Whether `otp` is among the codes still good at `now`.
    pub fn verify_otp_at(&self, otp: u32, now: i64) -> (r: bool)
        ensures
            r == exists|i: int|
                0 <= i < self.0@.len() && (#[trigger] self.0@[i]).otp == otp && is_fresh(
                    self.0@[i],
                    now,
                ),
    {
        let mut i: usize = 0;
        while i < self.0.len()
            invariant
                i <= self.0@.len(),
                forall|j: int|
                    0 <= j < i ==> !((#[trigger] self.0@[j]).otp == otp && is_fresh(self.0@[j], now)),
            decreases self.0@.len() - i,
        {
            if self.0[i].otp == otp && self.0[i].is_fresh_at(now) {
                return true;
            }
            i = i + 1;
        }
        false
    }

    /// A bucket with no codes.
    pub fn empty(self) -> (r: Self)
        ensures
            r.0@.len() == 0,
    {
        Self(Vec::new())
    }
}

/// A request for a code to be sent.
#[derive(Debug, Clone, PartialEq, Eq)]
pub struct SendOtpReq {
    pub email: String,
    pub phone: Option<String>,
}

/// The answer to a request for a code.
#[derive(Debug, Clone, PartialEq, Eq)]
pub struct SendOtpRes {
    pub email: String,
    pub message: String,
}

/// A code offered for verification.
#[derive(Debug, Clone, PartialEq, Eq)]
pub struct VerifyOtpReq {
    pub email: String,
    pub phone: Option<String>,
    pub otp: u32,
}

/// The answer to a verified code: the user's token.
#[derive(Debug, Clone, PartialEq, Eq)]
pub struct VerifyOtpRes {
    pub user_token: String,
}

} // verus!
