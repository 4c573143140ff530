//! The status of a stack, derived from the status text of the container
//! engine's project listing.

use crate::decimal::{all_digits, decimal, is_ascii_digit, is_digit, lemma_decimal, value_of};
use crate::text::{
    chars_of, contains, contains_in, find_from, find_in_from, lemma_find_from, occurs_at, slice,
    starts_with,
};
use vstd::prelude::*;

verus! {

pub const UNKNOWN: i32 = 0;

pub const CREATED_FILE: i32 = 1;

pub const CREATED_STACK: i32 = 2;

pub const RUNNING: i32 = 3;

pub const EXITED: i32 = 4;

pub const RUNNING_AND_EXITED: i32 = 5;

pub const UNHEALTHY: i32 = 6;

/// A stack counts as started when something of it runs.
pub open spec fn started(status: int) -> bool {
    status == RUNNING || status == RUNNING_AND_EXITED || status == UNHEALTHY
}

/// Whether a regular expression matches somewhere in a text, as the crate
/// `regex` tells; false where it cannot read the expression.
pub uninterp spec fn regex_matches(pattern: Seq<char>, text: Seq<char>) -> bool;

/// `Regex::new` and `Regex::is_match`: claims only that the outcome is the
/// one named `regex_matches` for this expression and this text.
#[verifier::external_body]
fn regex_is_match(pattern: &str, text: &str) -> (r: bool)
    ensures
        r == regex_matches(pattern@, text@),
{
    regex::Regex::new(pattern).map(|p| p.is_match(text)).unwrap_or(false)
}

/// The expression that a text matches when it is one decimal digit, of
/// whatever script.
pub open spec fn one_digit() -> Seq<char> {
    "^\\d$"@
}

/// A digit as a count is written with: among the ASCII characters the ten
/// digits; beyond them whatever the expression for a digit matches.
pub open spec fn count_digit(c: char) -> bool {
    if (c as u32) < 128 {
        is_digit(c)
    } else {
        regex_matches(one_digit(), seq![c])
    }
}

fn is_count_digit(c: char) -> (r: bool)
    ensures
        r == count_digit(c),
{
    if (c as u32) < 128 {
        is_ascii_digit(c)
    } else {
        let mut one: Vec<char> = Vec::new();
        one.push(c);
        let text = crate::text::string_of(&one);
        regex_is_match("^\\d$", text.as_str())
    }
}

/// The number of digits that stand in `s` from index `from` on, up to the
/// first character that is no digit.
pub open spec fn digit_run(s: Seq<char>, from: int) -> nat
    decreases s.len() - from,
{
    if 0 <= from < s.len() && count_digit(s[from]) {
        1 + digit_run(s, from + 1)
    } else {
        0
    }
}

/// The digits of the first `key` in `s`, at or after `from`, that is
/// followed by one or more digits and a closing parenthesis.
pub open spec fn counted_from(s: Seq<char>, key: Seq<char>, from: int) -> Option<Seq<char>>
    decreases s.len() - from,
{
    match find_from(s, key, from) {
        Some(i) => {
            let d = i + key.len();
            let n = digit_run(s, d);
            if n >= 1 && d + n < s.len() && s[d + n] == ')' {
                Some(s.subrange(d, d + n))
            } else if from <= i < s.len() {
                counted_from(s, key, i + 1)
            } else {
                None
            }
        },
        None => None,
    }
}

/// The count that the status text gives behind `key`: the number written
/// between the parentheses of the first `key(digits)`, however large; 0
/// where digits of other scripts are among them; none where there is no
/// such group.
pub open spec fn count_of(s: Seq<char>, key: Seq<char>) -> Option<nat> {
    match counted_from(s, key, 0) {
        Some(digits) => if all_digits(digits) {
            Some(value_of(digits))
        } else {
            Some(0)
        },
        None => None,
    }
}

/// A count that is there and above 0.
pub open spec fn positive(count: Option<nat>) -> bool {
    count matches Some(n) && n > 0
}

/// The status that a status text of the project listing stands for.
///
/// A text that begins with `created` is a created stack. Otherwise the
/// counts behind `running(` and `exited(` decide: both above 0 is running
/// and exited, one above 0 is that one. A word without a count behind it
/// decides where no count does, `running` before `exited`. A count of 0
/// says that nothing of that kind is there: with counts of 0 only, the
/// status is unknown.
pub open spec fn status_of(s: Seq<char>) -> int {
    if "created"@.is_prefix_of(s) {
        CREATED_STACK as int
    } else {
        let running = count_of(s, "running("@);
        let exited = count_of(s, "exited("@);
        if positive(running) && positive(exited) {
            RUNNING_AND_EXITED as int
        } else if positive(running) {
            RUNNING as int
        } else if positive(exited) {
            EXITED as int
        } else if running is None && contains(s, "running"@) {
            RUNNING as int
        } else if exited is None && contains(s, "exited"@) {
            EXITED as int
        } else {
            UNKNOWN as int
        }
    }
}

fn run_of_digits(s: &Vec<char>, from: usize) -> (n: usize)
    requires
        from <= s.len(),
    ensures
        n == digit_run(s@, from as int),
        from + n <= s.len(),
{
    let mut i: usize = from;
    while i < s.len() && is_count_digit(s[i])
        invariant
            from <= i <= s.len(),
            digit_run(s@, from as int) == (i - from) + digit_run(s@, i as int),
        decreases s.len() - i,
    {
        i = i + 1;
    }
    i - from
}

/// What stands behind a key in a status text.
#[derive(Clone, Copy, PartialEq, Eq, Structural)]
enum Count {
    /// No count.
    Absent,
    /// The count 0.
    Zero,
    /// A count above 0.
    Positive,
}

/// Whether the characters are ASCII digits that denote a number above 0.
fn is_positive_number(digits: &Vec<char>) -> (r: bool)
    ensures
        r == (all_digits(digits@) && value_of(digits@) > 0),
{
    let mut any = false;
    let mut i: usize = 0;
    assert(digits@.take(0).len() == 0);
    while i < digits.len()
        invariant
            i <= digits.len(),
            all_digits(digits@.take(i as int)),
            any == (value_of(digits@.take(i as int)) > 0),
        decreases digits.len() - i,
    {
        let c = digits[i];
        if !is_ascii_digit(c) {
            assert(!is_digit(digits@[i as int]));
            return false;
        }
        proof {
            let longer = digits@.take(i + 1);
            assert(longer.drop_last() == digits@.take(i as int));
            assert(longer.last() == c);
            assert forall|k: int| 0 <= k < longer.len() implies is_digit(#[trigger] longer[k]) by {
                if k < i {
                    assert(longer[k] == digits@.take(i as int)[k]);
                }
            }
        }
        if c != '0' {
            any = true;
        }
        i = i + 1;
    }
    assert(digits@.take(digits.len() as int) == digits@);
    any
}

fn count_behind(s: &Vec<char>, key: &Vec<char>) -> (r: Count)
    ensures
        r is Absent <==> count_of(s@, key@) is None,
        r is Positive <==> positive(count_of(s@, key@)),
{
    let mut from: usize = 0;
    loop
        invariant
            from <= s.len(),
            counted_from(s@, key@, 0) == counted_from(s@, key@, from as int),
        decreases s.len() - from,
    {
        match find_in_from(s, key, from) {
            Some(i) => {
                let d = i + key.len();
                let n = run_of_digits(s, d);
                if n >= 1 && d + n < s.len() && s[d + n] == ')' {
                    let digits = slice(s, d, d + n);
                    return if is_positive_number(&digits) {
                        Count::Positive
                    } else {
                        Count::Zero
                    };
                }
                if i >= s.len() {
                    return Count::Absent;
                }
                from = i + 1;
            },
            None => {
                return Count::Absent;
            },
        }
    }
}

/// The status that a status text of the project listing stands for.
pub fn status_convert(status: &str) -> (r: i32)
    ensures
        r == status_of(status@),
{
    let s = chars_of(status);
    let created = chars_of("created");
    if starts_with(&s, &created) {
        return CREATED_STACK;
    }
    let running_key = chars_of("running(");
    let exited_key = chars_of("exited(");
    let running_count = count_behind(&s, &running_key);
    let exited_count = count_behind(&s, &exited_key);
    if running_count == Count::Positive && exited_count == Count::Positive {
        RUNNING_AND_EXITED
    } else if running_count == Count::Positive {
        RUNNING
    } else if exited_count == Count::Positive {
        EXITED
    } else {
        let running = chars_of("running");
        let exited = chars_of("exited");
        if running_count == Count::Absent && contains_in(&s, &running) {
            RUNNING
        } else if exited_count == Count::Absent && contains_in(&s, &exited) {
            EXITED
        } else {
            UNKNOWN
        }
    }
}

// ---------------------------------------------------------------------------
// The listing's own notation
// ---------------------------------------------------------------------------

/// The status text `running(n), exited(m)`.
pub open spec fn counts_text(n: nat, m: nat) -> Seq<char> {
    "running("@ + decimal(n) + "), exited("@ + decimal(m) + ")"@
}

proof fn lemma_digit_run(s: Seq<char>, from: int, k: nat)
    requires
        0 <= from,
        from + k <= s.len(),
        forall|i: int| from <= i < from + k ==> is_digit(s[i]),
        from + k < s.len() ==> (s[from + k] as u32) < 128 && !is_digit(s[from + k]),
    ensures
        digit_run(s, from) == k,
    decreases k,
{
    if k > 0 {
        lemma_digit_run(s, from + 1, (k - 1) as nat);
    }
}

proof fn lemma_count_at(s: Seq<char>, key: Seq<char>, at: int, n: nat)
    requires
        occurs_at(s, key, at),
        forall|j: int| 0 <= j < at ==> !occurs_at(s, key, j),
        at + key.len() + decimal(n).len() < s.len(),
        s.subrange(at + key.len(), at + key.len() + decimal(n).len()) == decimal(n),
        s[at + key.len() + decimal(n).len()] == ')',
    ensures
        count_of(s, key) == Some(n),
{
    lemma_decimal(n);
    lemma_find_from(s, key, 0);
    let d = at + key.len();
    let digits = decimal(n);
    assert forall|i: int| d <= i < d + digits.len() implies is_digit(s[i]) by {
        assert(s[i] == s.subrange(d, d + digits.len())[i - d]);
        assert(is_digit(digits[i - d]));
    }
    lemma_digit_run(s, d, digits.len());
    assert(find_from(s, key, 0) == Some(at));
}

/// In the listing's own notation `running(n), exited(m)` the counts
/// decide, whatever their size: the status is running and exited exactly
/// when both are above 0, running exactly when only the first is, exited
/// exactly when only the second is, and unknown when both are 0.
pub proof fn lemma_status_of_counts(n: nat, m: nat)
    ensures
        status_of(counts_text(n, m)) == RUNNING_AND_EXITED <==> n > 0 && m > 0,
        status_of(counts_text(n, m)) == RUNNING <==> n > 0 && m == 0,
        status_of(counts_text(n, m)) == EXITED <==> n == 0 && m > 0,
        status_of(counts_text(n, m)) == UNKNOWN <==> n == 0 && m == 0,
{
    reveal_strlit("running(");
    reveal_strlit("), exited(");
    reveal_strlit(")");
    reveal_strlit("exited(");
    reveal_strlit("created");
    reveal_strlit("running");
    lemma_decimal(n);
    lemma_decimal(m);
    let a = "running("@;
    let b = "), exited("@;
    let c = ")"@;
    let e = "exited("@;
    let dn = decimal(n);
    let dm = decimal(m);
    let s = counts_text(n, m);
    let p1: int = (8 + dn.len()) as int;
    let q: int = p1 + 3;
    let p2: int = p1 + 10 + dm.len() as int;
    assert(a.len() == 8 && b.len() == 10 && c.len() == 1 && e.len() == 7);
    assert(s.len() == p2 + 1);
    assert forall|i: int| 0 <= i < 8 implies s[i] == a[i] by {}
    assert forall|i: int| 8 <= i < p1 implies s[i] == dn[i - 8] by {}
    assert forall|i: int| p1 <= i < p1 + 10 implies s[i] == b[i - p1] by {}
    assert forall|i: int| p1 + 10 <= i < p2 implies s[i] == dm[i - p1 - 10] by {}
    assert(s[p2] == ')');
    assert(s[0] == 'r');
    assert(!"created"@.is_prefix_of(s)) by {
        if "created"@.is_prefix_of(s) {
            assert("created"@[0] == s[0]);
        }
    }
    // the running count
    assert(s.subrange(0, 8) == a);
    assert(s.subrange(8, p1) == dn);
    assert(s[p1] == ')');
    lemma_count_at(s, a, 0, n);
    // the exited count
    assert(s.subrange(q, q + 7) == e);
    assert forall|j: int| 0 <= j < q implies !occurs_at(s, e, j) by {
        if occurs_at(s, e, j) {
            assert(s.subrange(j, j + 7)[0] == 'e');
            assert(s[j] == 'e');
            if j < 8 {
            } else if j < p1 {
                assert(is_digit(dn[j - 8]));
            } else {
            }
        }
    }
    assert(s.subrange(q + 7, p2) == dm);
    lemma_count_at(s, e, q, m);
}

} // verus!
