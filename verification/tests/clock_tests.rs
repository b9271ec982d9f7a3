use openusage::clock::{now_rfc3339, rfc3339_or_unknown, stale_cutoff, stale_cutoff_now};

#[test]
fn formats_the_epoch() {
    assert_eq!(rfc3339_or_unknown(0), "1970-01-01T00:00:00Z");
}

#[test]
fn formats_a_known_instant() {
    assert_eq!(rfc3339_or_unknown(1_546_300_800_000_000_000), "2019-01-01T00:00:00Z");
}

#[test]
fn formats_fractional_seconds() {
    assert_eq!(rfc3339_or_unknown(1_500_000_000), "1970-01-01T00:00:01.5Z");
}

#[test]
fn unformattable_instant_is_unknown() {
    // Before year 0, which RFC 3339 cannot write.
    assert_eq!(rfc3339_or_unknown(-70_000_000_000_000_000_000), "unknown");
}

#[test]
fn cutoff_is_one_day_earlier() {
    assert_eq!(stale_cutoff(86_400_000_000_000), "1970-01-01T00:00:00Z");
    assert_eq!(stale_cutoff(1_776_470_400_000_000_000), "2026-04-17T00:00:00Z");
}

#[test]
fn cutoff_without_text_is_empty() {
    assert_eq!(stale_cutoff(-63_000_000_000_000_000_000), "");
}

#[test]
fn now_is_rfc3339() {
    let now = now_rfc3339();
    assert!(now.ends_with('Z'));
    assert_eq!(&now[4..5], "-");
    assert_eq!(&now[10..11], "T");
    let cutoff = stale_cutoff_now();
    assert!(cutoff < now);
}
