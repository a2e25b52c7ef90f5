use oidc::host::sanitize_port;
use oidc::otp::{OtpBucket, OtpBucketItem};
use oidc::profile::get_user_profile;

#[test]
fn codes_are_good_for_five_minutes() {
    let item = OtpBucketItem::issued_at(123456, 1000);
    assert!(item.is_fresh_at(1000));
    assert!(item.is_fresh_at(1299));
    assert!(!item.is_fresh_at(1300));
    assert!(OtpBucketItem::issued_at(1, i64::MIN).is_fresh_at(i64::MIN + 10));
}

#[test]
fn filter_old_keeps_fresh_codes_in_order() {
    let bucket = OtpBucket(vec![
        OtpBucketItem::issued_at(1, 100),
        OtpBucketItem::issued_at(2, 900),
        OtpBucketItem::issued_at(3, 500),
        OtpBucketItem::issued_at(4, 1000),
    ]);
    let kept = bucket.filter_old_at(1000);
    assert_eq!(kept.0, vec![OtpBucketItem::issued_at(2, 900), OtpBucketItem::issued_at(4, 1000)]);
}

#[test]
fn verify_accepts_only_fresh_matching_codes() {
    let bucket = OtpBucket(vec![OtpBucketItem::issued_at(111111, 100), OtpBucketItem::issued_at(222222, 900)]);
    assert!(bucket.verify_otp_at(222222, 1000));
    assert!(!bucket.verify_otp_at(111111, 1000));
    assert!(!bucket.verify_otp_at(333333, 1000));
    let fresh = OtpBucket(vec![OtpBucketItem::new(444444)]);
    assert!(fresh.verify_otp(444444));
    assert!(!fresh.verify_otp(444445));
}

#[test]
fn append_filter_and_empty() {
    let bucket = OtpBucket(vec![]).append(OtpBucketItem::new(7)).append(OtpBucketItem::issued_at(8, 0));
    assert_eq!(bucket.0.len(), 2);
    assert_eq!(bucket.0[1], OtpBucketItem::issued_at(8, 0));
    let bucket = bucket.filter_old();
    assert_eq!(bucket.0.len(), 1);
    assert_eq!(bucket.0[0].otp, 7);
    assert!(bucket.empty().0.is_empty());
}

#[test]
fn profile_is_empty() {
    assert!(get_user_profile().is_ok());
}

#[test]
fn sanitize_port_drops_the_port() {
    assert_eq!(sanitize_port("example.com:8080"), "example.com");
    assert_eq!(sanitize_port("example.com"), "example.com");
    assert_eq!(sanitize_port(":80"), "");
    assert_eq!(sanitize_port("a:b:c"), "a");
}
