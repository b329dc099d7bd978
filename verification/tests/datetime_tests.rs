use solforge::datetime::{block_timestamp, choose_block_timestamp, BlockTimestamp};

#[test]
fn block_time_used_when_present() {
    assert_eq!(block_timestamp(Some(1431648000)), BlockTimestamp::Block(1431648000));
    assert_eq!(block_timestamp(Some(0)), BlockTimestamp::Block(0));
    assert_eq!(block_timestamp(Some(-86400)), BlockTimestamp::Block(-86400));
}

#[test]
fn missing_block_time_uses_now() {
    assert_eq!(block_timestamp(None), BlockTimestamp::Now);
}

#[test]
fn unrepresentable_block_time_uses_now() {
    assert_eq!(block_timestamp(Some(i64::MAX)), BlockTimestamp::Now);
    assert_eq!(block_timestamp(Some(i64::MIN)), BlockTimestamp::Now);
}

#[test]
fn choose_follows_representability() {
    assert_eq!(choose_block_timestamp(Some(5), true), BlockTimestamp::Block(5));
    assert_eq!(choose_block_timestamp(Some(5), false), BlockTimestamp::Now);
    assert_eq!(choose_block_timestamp(None, true), BlockTimestamp::Now);
}

#[test]
fn representable_range_bounds() {
    assert_eq!(block_timestamp(Some(-8_334_601_228_800)), BlockTimestamp::Block(-8_334_601_228_800));
    assert_eq!(block_timestamp(Some(-8_334_601_228_801)), BlockTimestamp::Now);
    assert_eq!(block_timestamp(Some(8_210_266_876_799)), BlockTimestamp::Block(8_210_266_876_799));
    assert_eq!(block_timestamp(Some(8_210_266_876_800)), BlockTimestamp::Now);
    assert_eq!(
        chrono::DateTime::<chrono::Utc>::MIN_UTC.timestamp(),
        -8_334_601_228_800
    );
    assert_eq!(
        chrono::DateTime::<chrono::Utc>::MAX_UTC.timestamp(),
        8_210_266_876_799
    );
}
