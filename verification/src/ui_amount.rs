//! Amounts as people write them: a decimal number whose fraction has as many
//! places as the mint has decimals.

use vstd::prelude::*;

verus! {

/// The byte `0`.
pub const ZERO: u8 = 48;

/// The byte `.`.
pub const POINT: u8 = 46;

/// Whether a byte is one of `0` to `9`.
pub open spec fn is_digit(byte: u8) -> bool {
    48 <= byte <= 57
}

/// Whether every byte is a digit.
pub open spec fn all_digits(text: Seq<u8>) -> bool {
    forall|i: int| 0 <= i < text.len() ==> is_digit(#[trigger] text[i])
}

/// What a digit stands for; nothing, where the byte is no digit.
pub open spec fn digit_value(byte: u8) -> nat {
    if is_digit(byte) {
        (byte - 48) as nat
    } else {
        0
    }
}

/// The number that a string of digits spells, most significant digit first.
pub open spec fn digits_value(text: Seq<u8>) -> nat
    decreases text.len(),
{
    if text.len() == 0 {
        0
    } else {
        digits_value(text.drop_last()) * 10 + digit_value(text.last())
    }
}

/// The digits of a number, most significant first and without leading zeros.
pub open spec fn digits(n: nat) -> Seq<u8>
    decreases n,
{
    if n < 10 {
        seq![(48 + n) as u8]
    } else {
        digits(n / 10).push((48 + n % 10) as u8)
    }
}

/// `k` times the digit `0`.
pub open spec fn zeros(k: nat) -> Seq<u8> {
    Seq::new(k, |i: int| 48u8)
}

/// The digits of a number, with zeros in front where there are fewer than `width`.
pub open spec fn padded(n: nat, width: nat) -> Seq<u8> {
    if digits(n).len() >= width {
        digits(n)
    } else {
        zeros((width - digits(n).len()) as nat) + digits(n)
    }
}

/// A text without the zeros at its end.
pub open spec fn trim_zeros(text: Seq<u8>) -> Seq<u8>
    decreases text.len(),
{
    if text.len() > 0 && text.last() == 48 {
        trim_zeros(text.drop_last())
    } else {
        text
    }
}

/// An amount of a mint with `decimals` decimals, written out: the whole
/// units, then, where the rest is not zero, a point and the rest without the
/// zeros at its end.
pub open spec fn ui_amount(amount: u64, decimals: u8) -> Seq<u8> {
    let all = padded(amount as nat, decimals as nat + 1);
    let whole = all.subrange(0, all.len() - decimals);
    let rest = trim_zeros(all.subrange(all.len() - decimals, all.len() as int));
    if rest.len() == 0 {
        whole
    } else {
        whole + seq![46u8] + rest
    }
}

/// Whether `i` is where the first point of a text stands, or its length where it has none.
pub open spec fn is_point_position(text: Seq<u8>, i: int) -> bool {
    &&& 0 <= i <= text.len()
    &&& i < text.len() ==> text[i] == 46
    &&& forall|j: int| 0 <= j < i ==> text[j] != 46
}

/// Where the first point of a text stands, or its length where it has none.
pub open spec fn point_position(text: Seq<u8>) -> int {
    choose|i: int| is_point_position(text, i)
}

/// What follows the first point of a text, without the zeros at its end.
pub open spec fn fraction(text: Seq<u8>) -> Seq<u8> {
    let point = point_position(text);
    if point < text.len() {
        trim_zeros(text.subrange(point + 1, text.len() as int))
    } else {
        Seq::empty()
    }
}

/// The amount that a text states of a mint with `decimals` decimals.
///
/// The text is digits, a point at most once, and digits; at least one digit
/// must stand before the point or, other than a zero at the end, after it.
/// The fraction may have up to `decimals` places, not counting zeros at its
/// end. There is no amount where the text is not of this form, or the amount
/// does not fit in 64 bits.
pub open spec fn ui_amount_value(text: Seq<u8>, decimals: u8) -> Option<u64> {
    let whole = text.subrange(0, point_position(text));
    let rest = fraction(text);
    let units = whole + rest + zeros((decimals - rest.len()) as nat);
    if !all_digits(whole) || !all_digits(rest) || (whole.len() == 0 && rest.len() == 0)
        || rest.len() > decimals || digits_value(units) > u64::MAX {
        None
    } else {
        Some(digits_value(units) as u64)
    }
}

/// A text has one place where its first point stands.
pub proof fn lemma_point_position(text: Seq<u8>, i: int)
    requires
        is_point_position(text, i),
    ensures
        point_position(text) == i,
{
    let chosen = point_position(text);
    assert(is_point_position(text, chosen));
    if chosen < i {
        assert(text[chosen] == 46);
    }
    if i < chosen {
        assert(text[i] == 46);
    }
}

/// The first digits of a string spell no more than the whole string.
pub proof fn lemma_digits_value_prefix(text: Seq<u8>, k: int)
    requires
        0 <= k <= text.len(),
    ensures
        digits_value(text.take(k)) <= digits_value(text),
    decreases text.len() - k,
{
    if k == text.len() {
        assert(text.take(k) =~= text);
    } else {
        lemma_digits_value_prefix(text.drop_last(), k);
        assert(text.drop_last().take(k) =~= text.take(k));
    }
}

/// One more digit: ten times what stood before, and the digit.
pub proof fn lemma_digits_value_step(text: Seq<u8>, k: int)
    requires
        0 <= k < text.len(),
    ensures
        digits_value(text.take(k + 1)) == digits_value(text.take(k)) * 10 + digit_value(text[k]),
{
    assert(text.take(k + 1).drop_last() =~= text.take(k));
}

/// Appends the digits of `n` to `out`.
fn push_digits(n: u64, out: &mut Vec<u8>)
    ensures
        final(out)@ == old(out)@ + digits(n as nat),
    decreases n,
{
    if n >= 10 {
        push_digits(n / 10, out);
    }
    out.push(48 + (n % 10) as u8);
    assert(out@ =~= old(out)@ + digits(n as nat));
}

/// Writes out an amount of a mint with `decimals` decimals.
#[verifier::rlimit(40)]
pub fn amount_to_ui_amount(amount: u64, decimals: u8) -> (text: Vec<u8>)
    ensures
        text@ == ui_amount(amount, decimals),
{
    let mut number: Vec<u8> = Vec::new();
    push_digits(amount, &mut number);
    assert(number@ =~= digits(amount as nat));
    let places = decimals as usize;
    let mut all: Vec<u8> = Vec::new();
    let mut k: usize = number.len();
    while k <= places
        invariant
            number@.len() <= k,
            k <= places + 1 || k == number@.len(),
            places <= 255,
            all@ == zeros((k - number@.len()) as nat),
        decreases places + 1 - k,
    {
        all.push(ZERO);
        k += 1;
        assert(all@ =~= zeros((k - number@.len()) as nat));
    }
    let mut i: usize = 0;
    while i < number.len()
        invariant
            i <= number@.len(),
            all@ == zeros((k - number@.len()) as nat) + number@.take(i as int),
        decreases number@.len() - i,
    {
        all.push(number[i]);
        i += 1;
        assert(all@ =~= zeros((k - number@.len()) as nat) + number@.take(i as int));
    }
    assert(all@ =~= padded(amount as nat, decimals as nat + 1)) by {
        assert(number@.take(number@.len() as int) =~= number@);
        assert(zeros(0) + number@ =~= number@);
    }
    let split = all.len() - places;
    let ghost rest = all@.subrange(split as int, all@.len() as int);
    let mut end: usize = all.len();
    while end > split && all[end - 1] == ZERO
        invariant
            split <= end <= all@.len(),
            rest == all@.subrange(split as int, all@.len() as int),
            trim_zeros(rest) == trim_zeros(all@.subrange(split as int, end as int)),
        decreases end,
    {
        assert(all@.subrange(split as int, end as int).drop_last() =~= all@.subrange(
            split as int,
            end - 1,
        ));
        end -= 1;
    }
    assert(trim_zeros(rest) == all@.subrange(split as int, end as int));
    let mut text: Vec<u8> = Vec::new();
    let mut j: usize = 0;
    while j < split
        invariant
            j <= split <= end <= all@.len(),
            text@ == all@.subrange(0, j as int),
        decreases split - j,
    {
        text.push(all[j]);
        j += 1;
        assert(text@ =~= all@.subrange(0, j as int));
    }
    if end > split {
        text.push(POINT);
        let ghost head = text@;
        while j < end
            invariant
                split <= j <= end <= all@.len(),
                head == all@.subrange(0, split as int) + seq![46u8],
                text@ == head + all@.subrange(split as int, j as int),
            decreases end - j,
        {
            text.push(all[j]);
            j += 1;
            assert(text@ =~= head + all@.subrange(split as int, j as int));
        }
    }
    text
}

/// Finds where the first point of a text stands.
fn find_point(text: &[u8]) -> (point: usize)
    ensures
        point <= text@.len(),
        point == point_position(text@),
{
    let len = text.len();
    let mut point: usize = 0;
    while point < len && text[point] != POINT
        invariant
            point <= len == text@.len(),
            forall|j: int| 0 <= j < point ==> text@[j] != 46,
        decreases len - point,
    {
        point += 1;
    }
    proof {
        lemma_point_position(text@, point as int);
    }
    point
}

/// Finds where the text from `start` on ends, not counting the zeros at its end.
fn find_trimmed_end(text: &[u8], start: usize) -> (end: usize)
    requires
        start <= text@.len(),
    ensures
        start <= end <= text@.len(),
        trim_zeros(text@.subrange(start as int, text@.len() as int)) == text@.subrange(
            start as int,
            end as int,
        ),
{
    let len = text.len();
    let mut end: usize = len;
    while end > start && text[end - 1] == ZERO
        invariant
            start <= end <= len == text@.len(),
            trim_zeros(text@.subrange(start as int, len as int)) == trim_zeros(
                text@.subrange(start as int, end as int),
            ),
        decreases end,
    {
        assert(text@.subrange(start as int, end as int).drop_last() =~= text@.subrange(
            start as int,
            end - 1,
        ));
        end -= 1;
    }
    end
}

/// Reads the digits of `text` between `from` and `to` on to `value`. They
/// stand in `units` from position `at` on, and `value` is what `units` spells
/// up to there.
fn read_digits(
    text: &[u8],
    from: usize,
    to: usize,
    value: u64,
    Ghost(units): Ghost<Seq<u8>>,
    Ghost(at): Ghost<int>,
) -> (read: Option<u64>)
    requires
        from <= to <= text@.len(),
        0 <= at,
        at + (to - from) <= units.len(),
        units.subrange(at, at + (to - from)) == text@.subrange(from as int, to as int),
        value == digits_value(units.take(at)),
    ensures
        match read {
            Some(v) => all_digits(text@.subrange(from as int, to as int)) && v == digits_value(
                units.take(at + (to - from)),
            ),
            None => !all_digits(text@.subrange(from as int, to as int)) || digits_value(units)
                > u64::MAX,
        },
{
    let ghost part = text@.subrange(from as int, to as int);
    let mut value = value;
    let mut i: usize = from;
    while i < to
        invariant
            from <= i <= to <= text@.len(),
            0 <= at,
            at + (to - from) <= units.len(),
            part == text@.subrange(from as int, to as int),
            units.subrange(at, at + (to - from)) == part,
            forall|j: int| 0 <= j < i - from ==> is_digit(#[trigger] part[j]),
            value == digits_value(units.take(at + (i - from))),
        decreases to - i,
    {
        let byte = text[i];
        assert(part[i - from] == byte);
        assert(units.subrange(at, at + (to - from))[i - from] == byte);
        if byte < 48 || byte > 57 {
            return None;
        }
        proof {
            lemma_digits_value_step(units, at + (i - from));
            lemma_digits_value_prefix(units, at + (i - from) + 1);
        }
        if value > (u64::MAX - (byte - 48) as u64) / 10 {
            return None;
        }
        value = value * 10 + (byte - 48) as u64;
        i += 1;
    }
    Some(value)
}

/// Reads `fill` zeros on to `value`. They stand at the end of `units`, and
/// `value` is what `units` spells before them.
fn read_zeros(value: u64, fill: usize, Ghost(units): Ghost<Seq<u8>>) -> (read: Option<u64>)
    requires
        fill <= units.len(),
        units.subrange(units.len() - fill, units.len() as int) == zeros(fill as nat),
        value == digits_value(units.take(units.len() - fill)),
    ensures
        match read {
            Some(v) => v == digits_value(units),
            None => digits_value(units) > u64::MAX,
        },
{
    let ghost at = units.len() - fill;
    let mut value = value;
    let mut k: usize = 0;
    while k < fill
        invariant
            k <= fill <= units.len(),
            at == units.len() - fill,
            units.subrange(at, units.len() as int) == zeros(fill as nat),
            value == digits_value(units.take(at + k)),
        decreases fill - k,
    {
        proof {
            assert(units.subrange(at, units.len() as int)[k as int] == 48u8);
            lemma_digits_value_step(units, at + k);
            lemma_digits_value_prefix(units, at + k + 1);
        }
        if value > u64::MAX / 10 {
            return None;
        }
        value = value * 10;
        k += 1;
    }
    assert(units.take(at + fill) =~= units);
    Some(value)
}

/// Reads the amount that a text states of a mint with `decimals` decimals.
pub fn ui_amount_to_amount(text: &[u8], decimals: u8) -> (amount: Option<u64>)
    ensures
        amount == ui_amount_value(text@, decimals),
{
    let len = text.len();
    let point = find_point(text);
    let start: usize = if point < len {
        point + 1
    } else {
        len
    };
    let end = find_trimmed_end(text, start);
    let ghost whole = text@.subrange(0, point as int);
    let ghost rest = text@.subrange(start as int, end as int);
    assert(fraction(text@) == rest) by {
        if point == len {
            assert(rest =~= Seq::<u8>::empty());
        }
    }
    if (point == 0 && end == start) || end - start > decimals as usize {
        return None;
    }
    let fill: usize = decimals as usize - (end - start);
    let ghost units = whole + rest + zeros(fill as nat);
    assert(units.subrange(0, point as int) =~= whole);
    assert(units.subrange(point as int, point + (end - start)) =~= rest);
    assert(units.subrange(units.len() - fill, units.len() as int) =~= zeros(fill as nat));
    assert(units.take(0) =~= Seq::<u8>::empty());
    let value = match read_digits(text, 0, point, 0, Ghost(units), Ghost(0)) {
        Some(value) => value,
        None => {
            return None;
        },
    };
    let value = match read_digits(text, start, end, value, Ghost(units), Ghost(point as int)) {
        Some(value) => value,
        None => {
            return None;
        },
    };
    read_zeros(value, fill, Ghost(units))
}

} // verus!
