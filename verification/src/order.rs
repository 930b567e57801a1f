//! Debian's ordering of version numbers: the epoch counts first, then the
//! upstream version, then the revision, the two texts taken apart into
//! runs of digits, which count as numbers, and what stands between them.

use vstd::prelude::*;
use debian::Version;
use crate::text::{chars_of, is_digit, is_digit_char};
use crate::version::{parts_outside, version_parts, VersionParts};

verus! {

/// How one value stands to another.
#[derive(Clone, Copy, Debug, PartialEq, Eq, Structural)]
pub enum Order {
    Less,
    Equal,
    Greater,
}

/// The order seen from the other side.
pub open spec fn flip(order: Order) -> Order {
    match order {
        Order::Less => Order::Greater,
        Order::Equal => Order::Equal,
        Order::Greater => Order::Less,
    }
}

/// `c` is a letter of the English alphabet.
pub open spec fn is_letter(c: char) -> bool {
    ('a' <= c && c <= 'z') || ('A' <= c && c <= 'Z')
}

/// The weight of a character that is no digit: a tilde weighs less than
/// the end of the text, which weighs nothing; letters come next, by their
/// code; then every other character, by its code.
pub open spec fn rank(c: char) -> int {
    if is_digit(c) {
        0
    } else if is_letter(c) {
        c as int
    } else if c == '~' {
        -1
    } else {
        c as int + 256
    }
}

/// The weight of what `s` starts with: nothing at the end of the text and
/// at a digit.
pub open spec fn head_rank(s: Seq<char>) -> int {
    if s.len() == 0 {
        0
    } else {
        rank(s[0])
    }
}

/// The number of digits that `s` starts with.
pub open spec fn leading_digits(s: Seq<char>) -> nat
    decreases s.len(),
{
    if s.len() == 0 || !is_digit(s[0]) {
        0
    } else {
        1 + leading_digits(s.drop_first())
    }
}

/// The number that the digits `s` write; no digit writes zero.
pub open spec fn digits_value(s: Seq<char>) -> nat
    decreases s.len(),
{
    if s.len() == 0 {
        0
    } else {
        digits_value(s.drop_last()) * 10 + (s.last() as int - '0' as int) as nat
    }
}

/// How the numbers `x` and `y` stand to each other.
pub open spec fn number_order(x: nat, y: nat) -> Order {
    if x < y {
        Order::Less
    } else if x > y {
        Order::Greater
    } else {
        Order::Equal
    }
}

/// How the upstream versions, or the revisions, `a` and `b` stand to each
/// other. Where one of the two stands at a character that is no digit, the
/// weights of what the two start with decide, and where these are equal
/// the rest decides. Where both stand at a digit or at their end, the
/// numbers that their leading digits write decide, and where these are
/// equal what follows the digits decides.
pub open spec fn compare_parts(a: Seq<char>, b: Seq<char>) -> Order
    decreases a.len() + b.len(),
    via compare_parts_terminates
{
    if a.len() == 0 && b.len() == 0 {
        Order::Equal
    } else if head_rank(a) != 0 || head_rank(b) != 0 {
        if head_rank(a) < head_rank(b) {
            Order::Less
        } else if head_rank(a) > head_rank(b) {
            Order::Greater
        } else {
            compare_parts(a.drop_first(), b.drop_first())
        }
    } else {
        let na = leading_digits(a);
        let nb = leading_digits(b);
        match number_order(digits_value(a.take(na as int)), digits_value(b.take(nb as int))) {
            Order::Equal => compare_parts(a.skip(na as int), b.skip(nb as int)),
            decided => decided,
        }
    }
}

/// How the versions with the parts `a` and `b` stand to each other: the
/// epochs decide, as numbers; where they are equal the upstream versions
/// decide; where these are equal too the revisions decide.
pub open spec fn compare_version_parts(a: VersionParts, b: VersionParts) -> Order {
    match number_order(a.epoch, b.epoch) {
        Order::Equal => match compare_parts(a.upstream, b.upstream) {
            Order::Equal => compare_parts(a.revision, b.revision),
            decided => decided,
        },
        decided => decided,
    }
}

/// The digits that `s` starts with are at most all of `s`, and at least
/// one where `s` starts with a digit.
pub proof fn lemma_leading_digits_bounds(s: Seq<char>)
    ensures
        leading_digits(s) <= s.len(),
        s.len() > 0 && is_digit(s[0]) ==> leading_digits(s) >= 1,
    decreases s.len(),
{
    if s.len() > 0 && is_digit(s[0]) {
        lemma_leading_digits_bounds(s.drop_first());
    }
}

/// Only a digit weighs nothing.
pub proof fn lemma_rank_of_digit(c: char)
    ensures
        rank(c) == 0 <==> is_digit(c),
{
    assert(c as int >= 0);
    if is_letter(c) {
        assert(c as int >= 'A' as int);
        assert('A' as int == 65);
    }
}

#[via_fn]
proof fn compare_parts_terminates(a: Seq<char>, b: Seq<char>) {
    lemma_leading_digits_bounds(a);
    lemma_leading_digits_bounds(b);
    if !(a.len() == 0 && b.len() == 0) && head_rank(a) == 0 && head_rank(b) == 0 {
        if a.len() > 0 {
            lemma_rank_of_digit(a[0]);
        }
        if b.len() > 0 {
            lemma_rank_of_digit(b[0]);
        }
    }
}

/// Ten to the power of `n`.
pub open spec fn pow10(n: nat) -> nat
    decreases n,
{
    if n == 0 {
        1
    } else {
        10 * pow10((n - 1) as nat)
    }
}

/// Every character of `s` is a digit.
pub open spec fn all_digits(s: Seq<char>) -> bool {
    forall|i: int| 0 <= i < s.len() ==> is_digit(#[trigger] s[i])
}

/// A greater power of ten is a greater number.
pub proof fn lemma_pow10_grows(m: nat, n: nat)
    requires
        m <= n,
    ensures
        pow10(m) <= pow10(n),
        pow10(m) >= 1,
    decreases n,
{
    if n > 0 {
        if m < n {
            lemma_pow10_grows(m, (n - 1) as nat);
        } else {
            lemma_pow10_grows((m - 1) as nat, (n - 1) as nat);
        }
    }
}

/// A number of `n` digits is below ten to the `n`, and where its first
/// digit is no zero it is at least ten to the `n - 1`.
pub proof fn lemma_value_bounds(s: Seq<char>)
    requires
        all_digits(s),
    ensures
        digits_value(s) < pow10(s.len()),
        s.len() > 0 && s[0] != '0' ==> digits_value(s) >= pow10((s.len() - 1) as nat),
    decreases s.len(),
{
    if s.len() > 0 {
        let front = s.drop_last();
        assert(all_digits(front)) by {
            assert forall|i: int| 0 <= i < front.len() implies is_digit(#[trigger] front[i]) by {
                assert(front[i] == s[i]);
            }
        }
        lemma_value_bounds(front);
        assert(is_digit(s.last()));
        if s.len() > 1 {
            assert(front[0] == s[0]);
        }
    }
}

/// Zeros in front of a number do not change it.
pub proof fn lemma_leading_zeros(s: Seq<char>, k: int)
    requires
        0 <= k <= s.len(),
        forall|i: int| 0 <= i < k ==> #[trigger] s[i] == '0',
    ensures
        digits_value(s) == digits_value(s.skip(k)),
    decreases s.len(),
{
    if k == 0 {
        assert(s.skip(0) =~= s);
    } else if k == s.len() {
        let front = s.drop_last();
        assert forall|i: int| 0 <= i < k - 1 implies #[trigger] front[i] == '0' by {
            assert(front[i] == s[i]);
        }
        lemma_leading_zeros(front, k - 1);
        assert(front.skip(k - 1) =~= Seq::<char>::empty());
        assert(s.skip(k) =~= Seq::<char>::empty());
        assert(s.last() == s[k - 1]);
    } else {
        let front = s.drop_last();
        assert forall|i: int| 0 <= i < k implies #[trigger] front[i] == '0' by {
            assert(front[i] == s[i]);
        }
        lemma_leading_zeros(front, k);
        assert(s.skip(k).drop_last() =~= front.skip(k));
        assert(s.skip(k).last() == s.last());
    }
}

/// Of two numbers with as many digits, the one that is smaller up to some
/// digit is the smaller.
pub proof fn lemma_front_decides(a: Seq<char>, b: Seq<char>, k: int)
    requires
        a.len() == b.len(),
        all_digits(a),
        all_digits(b),
        0 <= k <= a.len(),
        digits_value(a.take(k)) < digits_value(b.take(k)),
    ensures
        digits_value(a) < digits_value(b),
    decreases a.len() - k,
{
    if k == a.len() {
        assert(a.take(k) =~= a);
        assert(b.take(k) =~= b);
    } else {
        assert(a.take(k + 1).drop_last() =~= a.take(k));
        assert(b.take(k + 1).drop_last() =~= b.take(k));
        assert(is_digit(a[k]) && is_digit(b[k]));
        assert(a.take(k + 1).last() == a[k] && b.take(k + 1).last() == b[k]);
        lemma_front_decides(a, b, k + 1);
    }
}

/// The weight of a character.
pub fn rank_of(c: char) -> (r: i64)
    ensures
        r == rank(c),
{
    if is_digit_char(c) {
        0
    } else if ('a' <= c && c <= 'z') || ('A' <= c && c <= 'Z') {
        c as i64
    } else if c == '~' {
        -1
    } else {
        c as i64 + 256
    }
}

/// Where the digits end that start at `start`.
fn digit_run_end(v: &Vec<char>, start: usize) -> (end: usize)
    requires
        start <= v.len(),
    ensures
        start <= end <= v.len(),
        end - start == leading_digits(v@.skip(start as int)),
        all_digits(v@.subrange(start as int, end as int)),
{
    let mut end = start;
    while end < v.len() && is_digit_char(v[end])
        invariant
            start <= end <= v.len(),
            leading_digits(v@.skip(start as int)) == (end - start) + leading_digits(
                v@.skip(end as int),
            ),
            all_digits(v@.subrange(start as int, end as int)),
        decreases v.len() - end,
    {
        proof {
            assert(v@.skip(end as int).drop_first() =~= v@.skip(end + 1));
            assert(v@.skip(end as int)[0] == v@[end as int]);
            assert forall|i: int| 0 <= i < end + 1 - start implies is_digit(
                #[trigger] v@.subrange(start as int, end + 1)[i],
            ) by {
                if i < end - start {
                    assert(v@.subrange(start as int, end as int)[i] == v@[start + i]);
                }
            }
        }
        end += 1;
    }
    proof {
        if end < v.len() {
            assert(v@.skip(end as int)[0] == v@[end as int]);
        }
    }
    end
}

/// Where the zeros end that start at `start`, at `end` at the latest.
fn zero_run_end(v: &Vec<char>, start: usize, end: usize) -> (first: usize)
    requires
        start <= end <= v.len(),
    ensures
        start <= first <= end,
        forall|i: int| start <= i < first ==> v@[i] == '0',
        first < end ==> v@[first as int] != '0',
{
    let mut first = start;
    while first < end && v[first] == '0'
        invariant
            start <= first <= end <= v.len(),
            forall|i: int| start <= i < first ==> v@[i] == '0',
        decreases end - first,
    {
        first += 1;
    }
    first
}

/// How the number written at `x[i..x_end]` stands to the number written at
/// `y[j..y_end]`. Zeros in front are passed over; then the longer number
/// is the greater, and of two numbers of one length the first digit in
/// which they differ decides.
fn compare_numbers(x: &Vec<char>, i: usize, x_end: usize, y: &Vec<char>, j: usize, y_end: usize) -> (r:
    Order)
    requires
        i <= x_end <= x.len(),
        j <= y_end <= y.len(),
        all_digits(x@.subrange(i as int, x_end as int)),
        all_digits(y@.subrange(j as int, y_end as int)),
    ensures
        r == number_order(
            digits_value(x@.subrange(i as int, x_end as int)),
            digits_value(y@.subrange(j as int, y_end as int)),
        ),
{
    let x_first = zero_run_end(x, i, x_end);
    let y_first = zero_run_end(y, j, y_end);
    let ghost a = x@.subrange(x_first as int, x_end as int);
    let ghost b = y@.subrange(y_first as int, y_end as int);
    proof {
        let whole_a = x@.subrange(i as int, x_end as int);
        let whole_b = y@.subrange(j as int, y_end as int);
        assert forall|k: int| 0 <= k < x_first - i implies #[trigger] whole_a[k] == '0' by {
            assert(whole_a[k] == x@[i + k]);
        }
        assert forall|k: int| 0 <= k < y_first - j implies #[trigger] whole_b[k] == '0' by {
            assert(whole_b[k] == y@[j + k]);
        }
        lemma_leading_zeros(whole_a, x_first - i);
        lemma_leading_zeros(whole_b, y_first - j);
        assert(whole_a.skip(x_first - i) =~= a);
        assert(whole_b.skip(y_first - j) =~= b);
        assert forall|k: int| 0 <= k < a.len() implies is_digit(#[trigger] a[k]) by {
            assert(a[k] == whole_a[k + x_first - i]);
        }
        assert forall|k: int| 0 <= k < b.len() implies is_digit(#[trigger] b[k]) by {
            assert(b[k] == whole_b[k + y_first - j]);
        }
        lemma_value_bounds(a);
        lemma_value_bounds(b);
    }
    let x_len = x_end - x_first;
    let y_len = y_end - y_first;
    if x_len < y_len {
        proof {
            lemma_pow10_grows(a.len(), (b.len() - 1) as nat);
        }
        return Order::Less;
    }
    if x_len > y_len {
        proof {
            lemma_pow10_grows(b.len(), (a.len() - 1) as nat);
        }
        return Order::Greater;
    }
    let mut k: usize = 0;
    while k < x_len
        invariant
            k <= x_len,
            x_len == y_len,
            x_len == a.len(),
            y_len == b.len(),
            x_first + x_len == x_end,
            y_first + y_len == y_end,
            x_end <= x.len(),
            y_end <= y.len(),
            a == x@.subrange(x_first as int, x_end as int),
            b == y@.subrange(y_first as int, y_end as int),
            all_digits(a),
            all_digits(b),
            a.take(k as int) == b.take(k as int),
            i <= x_end,
            j <= y_end,
            digits_value(x@.subrange(i as int, x_end as int)) == digits_value(a),
            digits_value(y@.subrange(j as int, y_end as int)) == digits_value(b),
        decreases x_len - k,
    {
        let p = x[x_first + k];
        let q = y[y_first + k];
        proof {
            assert(a[k as int] == p && b[k as int] == q);
            assert(a.take(k + 1).drop_last() =~= a.take(k as int));
            assert(b.take(k + 1).drop_last() =~= b.take(k as int));
            assert(a.take(k + 1).last() == p && b.take(k + 1).last() == q);
            assert(is_digit(p) && is_digit(q));
        }
        if p < q {
            proof {
                lemma_front_decides(a, b, k + 1);
            }
            return Order::Less;
        }
        if p > q {
            proof {
                lemma_front_decides(b, a, k + 1);
            }
            return Order::Greater;
        }
        assert(a.take(k + 1) =~= b.take(k + 1));
        k += 1;
    }
    proof {
        assert(a.take(x_len as int) =~= a);
        assert(b.take(x_len as int) =~= b);
    }
    Order::Equal
}

/// How the upstream versions, or the revisions, `a` and `b` stand to each
/// other in Debian's ordering.
pub fn compare_part_texts(a: &str, b: &str) -> (r: Order)
    ensures
        r == compare_parts(a@, b@),
{
    let x = chars_of(a);
    let y = chars_of(b);
    let mut i: usize = 0;
    let mut j: usize = 0;
    assert(x@.skip(0) =~= x@ && y@.skip(0) =~= y@);
    loop
        invariant
            i <= x.len(),
            j <= y.len(),
            x@ == a@,
            y@ == b@,
            compare_parts(a@, b@) == compare_parts(x@.skip(i as int), y@.skip(j as int)),
        decreases (x.len() - i) + (y.len() - j),
    {
        let ghost rest_a = x@.skip(i as int);
        let ghost rest_b = y@.skip(j as int);
        if i == x.len() && j == y.len() {
            return Order::Equal;
        }
        let weight_a: i64 = if i < x.len() {
            rank_of(x[i])
        } else {
            0
        };
        let weight_b: i64 = if j < y.len() {
            rank_of(y[j])
        } else {
            0
        };
        assert(weight_a == head_rank(rest_a) && weight_b == head_rank(rest_b));
        if weight_a != 0 || weight_b != 0 {
            if weight_a < weight_b {
                return Order::Less;
            }
            if weight_a > weight_b {
                return Order::Greater;
            }
            assert(rest_a.drop_first() =~= x@.skip(i + 1));
            assert(rest_b.drop_first() =~= y@.skip(j + 1));
            i += 1;
            j += 1;
        } else {
            let x_end = digit_run_end(&x, i);
            let y_end = digit_run_end(&y, j);
            proof {
                assert(rest_a.take(x_end - i) =~= x@.subrange(i as int, x_end as int));
                assert(rest_b.take(y_end - j) =~= y@.subrange(j as int, y_end as int));
                assert(rest_a.skip(x_end - i) =~= x@.skip(x_end as int));
                assert(rest_b.skip(y_end - j) =~= y@.skip(y_end as int));
                if i < x.len() {
                    lemma_rank_of_digit(x@[i as int]);
                    lemma_leading_digits_bounds(rest_a);
                }
                if j < y.len() {
                    lemma_rank_of_digit(y@[j as int]);
                    lemma_leading_digits_bounds(rest_b);
                }
            }
            match compare_numbers(&x, i, x_end, &y, j, y_end) {
                Order::Equal => {
                    i = x_end;
                    j = y_end;
                },
                decided => {
                    return decided;
                },
            }
        }
    }
}

/// How the versions `a` and `b` stand to each other in Debian's ordering.
pub fn compare_versions(a: &Version, b: &Version) -> (r: Order)
    ensures
        r == compare_version_parts(version_parts(*a), version_parts(*b)),
{
    let (epoch_a, upstream_a, revision_a) = parts_outside(a);
    let (epoch_b, upstream_b, revision_b) = parts_outside(b);
    if epoch_a < epoch_b {
        return Order::Less;
    }
    if epoch_a > epoch_b {
        return Order::Greater;
    }
    match compare_part_texts(upstream_a.as_str(), upstream_b.as_str()) {
        Order::Equal => compare_part_texts(revision_a.as_str(), revision_b.as_str()),
        decided => decided,
    }
}

/// Every text stands equal to itself.
pub proof fn lemma_compare_parts_reflexive(a: Seq<char>)
    ensures
        compare_parts(a, a) == Order::Equal,
    decreases a.len(),
{
    if a.len() > 0 {
        if head_rank(a) != 0 {
            lemma_compare_parts_reflexive(a.drop_first());
        } else {
            lemma_rank_of_digit(a[0]);
            lemma_leading_digits_bounds(a);
            lemma_compare_parts_reflexive(a.skip(leading_digits(a) as int));
        }
    }
}

/// Seen from the other side the order is the other way round.
pub proof fn lemma_compare_parts_antisymmetric(a: Seq<char>, b: Seq<char>)
    ensures
        compare_parts(b, a) == flip(compare_parts(a, b)),
    decreases a.len() + b.len(),
{
    if a.len() == 0 && b.len() == 0 {
    } else if head_rank(a) != 0 || head_rank(b) != 0 {
        if head_rank(a) == head_rank(b) {
            lemma_compare_parts_antisymmetric(a.drop_first(), b.drop_first());
        }
    } else {
        if a.len() > 0 {
            lemma_rank_of_digit(a[0]);
        }
        if b.len() > 0 {
            lemma_rank_of_digit(b[0]);
        }
        lemma_leading_digits_bounds(a);
        lemma_leading_digits_bounds(b);
        lemma_compare_parts_antisymmetric(
            a.skip(leading_digits(a) as int),
            b.skip(leading_digits(b) as int),
        );
    }
}

/// The order is transitive: where `a` stands no higher than `b` and `b` no
/// higher than `c`, `a` stands no higher than `c`, and lower where one of
/// the two steps goes lower.
pub proof fn lemma_compare_parts_transitive(a: Seq<char>, b: Seq<char>, c: Seq<char>)
    requires
        compare_parts(a, b) != Order::Greater,
        compare_parts(b, c) != Order::Greater,
    ensures
        compare_parts(a, c) != Order::Greater,
        compare_parts(a, b) == Order::Less || compare_parts(b, c) == Order::Less ==> compare_parts(
            a,
            c,
        ) == Order::Less,
    decreases a.len() + b.len() + c.len(),
{
    if a.len() > 0 {
        lemma_rank_of_digit(a[0]);
    }
    if b.len() > 0 {
        lemma_rank_of_digit(b[0]);
    }
    if c.len() > 0 {
        lemma_rank_of_digit(c[0]);
    }
    lemma_leading_digits_bounds(a);
    lemma_leading_digits_bounds(b);
    lemma_leading_digits_bounds(c);
    let ra = head_rank(a);
    let rb = head_rank(b);
    let rc = head_rank(c);
    if a.len() == 0 && b.len() == 0 && c.len() == 0 {
    } else if ra == 0 && rb == 0 && rc == 0 {
        let na = leading_digits(a) as int;
        let nb = leading_digits(b) as int;
        let nc = leading_digits(c) as int;
        assert(a.take(0) =~= Seq::<char>::empty() && a.skip(0) =~= a);
        assert(b.take(0) =~= Seq::<char>::empty() && b.skip(0) =~= b);
        assert(c.take(0) =~= Seq::<char>::empty() && c.skip(0) =~= c);
        let va = digits_value(a.take(na));
        let vb = digits_value(b.take(nb));
        let vc = digits_value(c.take(nc));
        if va == vb && vb == vc {
            lemma_compare_parts_transitive(a.skip(na), b.skip(nb), c.skip(nc));
        }
    } else if ra == rb && rb == rc {
        lemma_compare_parts_transitive(a.drop_first(), b.drop_first(), c.drop_first());
    } else {
    }
}

/// What stands equal to the same text stands equal to each other.
pub proof fn lemma_compare_parts_equal_transitive(a: Seq<char>, b: Seq<char>, c: Seq<char>)
    requires
        compare_parts(a, b) == Order::Equal,
        compare_parts(b, c) == Order::Equal,
    ensures
        compare_parts(a, c) == Order::Equal,
{
    lemma_compare_parts_transitive(a, b, c);
    lemma_compare_parts_antisymmetric(a, b);
    lemma_compare_parts_antisymmetric(b, c);
    lemma_compare_parts_transitive(c, b, a);
    lemma_compare_parts_antisymmetric(a, c);
}

/// Debian's ordering of versions is a total preorder: every version stands
/// equal to itself, the order of two versions seen from the other side is
/// the other way round, and the order is transitive.
pub proof fn lemma_version_order_is_total(a: VersionParts, b: VersionParts, c: VersionParts)
    ensures
        compare_version_parts(a, a) == Order::Equal,
        compare_version_parts(b, a) == flip(compare_version_parts(a, b)),
        compare_version_parts(a, b) != Order::Greater && compare_version_parts(b, c)
            != Order::Greater ==> compare_version_parts(a, c) != Order::Greater,
        compare_version_parts(a, b) == Order::Equal && compare_version_parts(b, c)
            == Order::Equal ==> compare_version_parts(a, c) == Order::Equal,
{
    lemma_compare_parts_reflexive(a.upstream);
    lemma_compare_parts_reflexive(a.revision);
    lemma_compare_parts_antisymmetric(a.upstream, b.upstream);
    lemma_compare_parts_antisymmetric(a.revision, b.revision);
    if compare_version_parts(a, b) != Order::Greater && compare_version_parts(b, c)
        != Order::Greater {
        if a.epoch == b.epoch && b.epoch == c.epoch {
            lemma_compare_parts_transitive(a.upstream, b.upstream, c.upstream);
            if compare_parts(a.upstream, b.upstream) == Order::Equal && compare_parts(
                b.upstream,
                c.upstream,
            ) == Order::Equal {
                lemma_compare_parts_equal_transitive(a.upstream, b.upstream, c.upstream);
                lemma_compare_parts_transitive(a.revision, b.revision, c.revision);
                if compare_parts(a.revision, b.revision) == Order::Equal && compare_parts(
                    b.revision,
                    c.revision,
                ) == Order::Equal {
                    lemma_compare_parts_equal_transitive(a.revision, b.revision, c.revision);
                }
            }
        }
    }
}

} // verus!
