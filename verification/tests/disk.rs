use klinit::disk::df_usage;

#[test]
fn df_report_gives_used_and_total_bytes() {
    let out = "Filesystem 1024-blocks Used Available Capacity Mounted on\n/dev/disk1 1000 250 750 25% /\n";
    assert_eq!(df_usage(out), Some((256000, 1024000)));
}

#[test]
fn df_columns_may_be_padded() {
    let out = "Filesystem   1024-blocks      Used Available Capacity  Mounted on\n/dev/disk3s1   488245288 201234567 287010721    42%    /System/Volumes/Data\n";
    assert_eq!(df_usage(out), Some((201234567 * 1024, 488245288 * 1024)));
}

#[test]
fn df_without_a_second_line_gives_nothing() {
    assert_eq!(df_usage("Filesystem 1024-blocks Used Available Capacity Mounted on"), None);
    assert_eq!(df_usage(""), None);
}

#[test]
fn df_with_words_that_are_not_numbers_gives_nothing() {
    assert_eq!(df_usage("head\n/dev/x abc 10 1 1% /\n"), None);
    assert_eq!(df_usage("head\n/dev/x 10 -1 1 1% /\n"), None);
    assert_eq!(df_usage("head\n/dev/x 10\n"), None);
}

#[test]
fn df_block_counts_past_u64_saturate() {
    let out = "head\n/dev/x 18446744073709551615 18014398509481984 0 100% /\n";
    assert_eq!(df_usage(out), Some((u64::MAX, u64::MAX)));
    assert_eq!(df_usage("head\n/dev/x 1 18446744073709551616 0 0% /\n"), None);
}
