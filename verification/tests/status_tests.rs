use dockge_backend::status::{
    status_convert, CREATED_FILE, CREATED_STACK, EXITED, RUNNING, RUNNING_AND_EXITED, UNHEALTHY,
    UNKNOWN,
};

#[test]
fn status_codes_are_the_protocol_s() {
    assert_eq!(
        [UNKNOWN, CREATED_FILE, CREATED_STACK, RUNNING, EXITED, RUNNING_AND_EXITED, UNHEALTHY],
        [0, 1, 2, 3, 4, 5, 6]
    );
}

#[test]
fn counts_decide_the_status() {
    assert_eq!(status_convert("running(2)"), RUNNING);
    assert_eq!(status_convert("exited(1)"), EXITED);
    assert_eq!(status_convert("running(1), exited(2)"), RUNNING_AND_EXITED);
    assert_eq!(status_convert("exited(3), running(1)"), RUNNING_AND_EXITED);
    assert_eq!(status_convert("running(3), exited(0)"), RUNNING);
    assert_eq!(status_convert("running(0), exited(4)"), EXITED);
    assert_eq!(status_convert("running(12), exited(0)"), RUNNING);
}

#[test]
fn counts_in_the_listing_s_notation() {
    for n in [0u128, 1, 2, 10, 2147483647, 2147483648, 18446744073709551616, u128::MAX] {
        for m in [0u128, 1, 7, 2147483647, 4294967296, u128::MAX] {
            let text = format!("running({}), exited({})", n, m);
            let want = if n > 0 && m > 0 {
                RUNNING_AND_EXITED
            } else if n > 0 {
                RUNNING
            } else if m > 0 {
                EXITED
            } else {
                UNKNOWN
            };
            assert_eq!(status_convert(&text), want, "{}", text);
        }
    }
}

#[test]
fn created_wins_over_everything() {
    assert_eq!(status_convert("created(1)"), CREATED_STACK);
    assert_eq!(status_convert("created"), CREATED_STACK);
    assert_eq!(status_convert("created(1), running(2)"), CREATED_STACK);
    assert_eq!(status_convert(" created(1)"), UNKNOWN);
}

#[test]
fn words_decide_where_counts_are_missing() {
    assert_eq!(status_convert("running"), RUNNING);
    assert_eq!(status_convert("exited"), EXITED);
    assert_eq!(status_convert("exited and running"), RUNNING);
    assert_eq!(status_convert("running, exited(0)"), RUNNING);
    assert_eq!(status_convert("running(0), exited"), EXITED);
    assert_eq!(status_convert(""), UNKNOWN);
    assert_eq!(status_convert("paused(1)"), UNKNOWN);
    assert_eq!(status_convert("restarting(1)"), UNKNOWN);
}

#[test]
fn a_count_of_nothing_is_no_word() {
    assert_eq!(status_convert("running(0), exited(0)"), UNKNOWN);
    assert_eq!(status_convert("exited(0)"), UNKNOWN);
    assert_eq!(status_convert("running(0)"), UNKNOWN);
    assert_eq!(status_convert("running(000), exited(00)"), UNKNOWN);
    assert_eq!(status_convert("running(0), running(3)"), UNKNOWN);
}

#[test]
fn a_count_needs_digits_and_a_closing_parenthesis() {
    assert_eq!(status_convert("running()"), RUNNING);
    assert_eq!(status_convert("exited(x), running(1"), RUNNING);
    assert_eq!(status_convert("exited(), exited(2)"), EXITED);
    assert_eq!(status_convert("exited(1x), exited(3)"), EXITED);
    assert_eq!(status_convert("xrunning(5)"), RUNNING);
    assert_eq!(status_convert("exited(007)"), EXITED);
}

#[test]
fn digits_of_other_scripts_end_the_search_and_count_for_nothing() {
    assert_eq!(status_convert("running(\u{661})"), UNKNOWN);
    assert_eq!(status_convert("running(\u{661}), exited(1), running(2)"), EXITED);
    assert_eq!(status_convert("exited(1\u{ff12}), running(2), exited(3)"), RUNNING);
    assert_eq!(status_convert("running(\u{b2}), exited(1), running(2)"), RUNNING_AND_EXITED);
}

#[test]
fn a_count_of_any_size_counts() {
    assert_eq!(status_convert("exited(2147483648)"), EXITED);
    assert_eq!(status_convert("running(2147483648), exited(1)"), RUNNING_AND_EXITED);
    assert_eq!(status_convert("running(2147483648), exited(0)"), RUNNING);
    assert_eq!(status_convert("running(99999999999999999999), exited(0)"), RUNNING);
    assert_eq!(status_convert("running(0), exited(99999999999999999999)"), EXITED);
    assert_eq!(
        status_convert("running(00000000000000000000000000000000000000001), exited(0)"),
        RUNNING
    );
}
