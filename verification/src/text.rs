//! Text: ordering, pieces, and numbers written out.
//!
//! The model of a piece of text is its sequence of characters. Text is ordered
//! by its encoded bytes.

use vstd::prelude::*;
use vstd::string::{StrSliceExecFns, StringExecFns};
use vstd::utf8::{encode_utf8, encode_utf8_decode_utf8};

use crate::ordered::{each, KeyOrder, OrderedKey};

verus! {

/// `String::push`: the character is added at the end and nothing else changes.
pub assume_specification[ String::push ](text: &mut String, c: char)
    ensures
        final(text)@ == old(text)@.push(c),
;

/// Whether the bytes `a` come before the bytes `b` in dictionary order.
pub open spec fn bytes_before(a: Seq<u8>, b: Seq<u8>) -> bool
    decreases a.len(),
{
    if b.len() == 0 {
        false
    } else if a.len() == 0 {
        true
    } else if a[0] != b[0] {
        a[0] < b[0]
    } else {
        bytes_before(a.drop_first(), b.drop_first())
    }
}

/// Whether the text `a` comes before the text `b`.
pub open spec fn text_before(a: Seq<char>, b: Seq<char>) -> bool {
    bytes_before(encode_utf8(a), encode_utf8(b))
}

proof fn lemma_bytes_irreflexive(a: Seq<u8>)
    ensures
        !bytes_before(a, a),
    decreases a.len(),
{
    if a.len() > 0 {
        lemma_bytes_irreflexive(a.drop_first());
    }
}

proof fn lemma_bytes_transitive(a: Seq<u8>, b: Seq<u8>, c: Seq<u8>)
    requires
        bytes_before(a, b),
        bytes_before(b, c),
    ensures
        bytes_before(a, c),
    decreases a.len(),
{
    if a.len() > 0 && a[0] == b[0] && b[0] == c[0] {
        lemma_bytes_transitive(a.drop_first(), b.drop_first(), c.drop_first());
    }
}

proof fn lemma_bytes_total(a: Seq<u8>, b: Seq<u8>)
    ensures
        a == b || bytes_before(a, b) || bytes_before(b, a),
    decreases a.len(),
{
    if a.len() == 0 && b.len() == 0 {
        assert(a =~= b);
    } else if a.len() > 0 && b.len() > 0 && a[0] == b[0] {
        lemma_bytes_total(a.drop_first(), b.drop_first());
        if a.drop_first() == b.drop_first() {
            assert(a =~= seq![a[0]] + a.drop_first());
            assert(b =~= seq![b[0]] + b.drop_first());
        }
    }
}

/// Compare two texts by their encoded bytes.
fn order_of(a: &str, b: &str) -> (order: KeyOrder)
    ensures
        match order {
            KeyOrder::Before => text_before(a@, b@),
            KeyOrder::Same => a@ == b@,
            KeyOrder::After => text_before(b@, a@),
        },
{
    let left = a.as_bytes();
    let right = b.as_bytes();
    let mut i: usize = 0;
    assert(left@.skip(0) =~= left@);
    assert(right@.skip(0) =~= right@);
    while i < left.len() && i < right.len()
        invariant
            left@ == encode_utf8(a@),
            right@ == encode_utf8(b@),
            i <= left@.len(),
            i <= right@.len(),
            bytes_before(left@, right@) == bytes_before(
                left@.skip(i as int),
                right@.skip(i as int),
            ),
            bytes_before(right@, left@) == bytes_before(
                right@.skip(i as int),
                left@.skip(i as int),
            ),
            left@.take(i as int) == right@.take(i as int),
        decreases left@.len() - i,
    {
        if left[i] < right[i] {
            return KeyOrder::Before;
        }
        if left[i] > right[i] {
            return KeyOrder::After;
        }
        assert(left@.skip(i as int).drop_first() =~= left@.skip(i + 1));
        assert(right@.skip(i as int).drop_first() =~= right@.skip(i + 1));
        assert(left@.take(i + 1) =~= left@.take(i as int).push(left@[i as int]));
        assert(right@.take(i + 1) =~= right@.take(i as int).push(right@[i as int]));
        i += 1;
    }
    if i < right.len() {
        KeyOrder::Before
    } else if i < left.len() {
        KeyOrder::After
    } else {
        proof {
            assert(left@.take(i as int) =~= left@);
            assert(right@.take(i as int) =~= right@);
            encode_utf8_decode_utf8(a@);
            encode_utf8_decode_utf8(b@);
        }
        KeyOrder::Same
    }
}

impl OrderedKey for String {
    type Probe = str;

    open spec fn before(a: Seq<char>, b: Seq<char>) -> bool {
        text_before(a, b)
    }

    proof fn before_irreflexive(a: Seq<char>) {
        lemma_bytes_irreflexive(encode_utf8(a));
        assert(!<String as OrderedKey>::before(a, a));
    }

    proof fn before_transitive(a: Seq<char>, b: Seq<char>, c: Seq<char>) {
        lemma_bytes_transitive(encode_utf8(a), encode_utf8(b), encode_utf8(c));
    }

    proof fn before_total(a: Seq<char>, b: Seq<char>) {
        lemma_bytes_total(encode_utf8(a), encode_utf8(b));
        encode_utf8_decode_utf8(a);
        encode_utf8_decode_utf8(b);
    }

    fn order_against(&self, probe: &str) -> (order: KeyOrder) {
        order_of(self.as_str(), probe)
    }

    fn as_probe(&self) -> (probe: &str) {
        self.as_str()
    }
}

/// Whether two texts are the same.
pub fn same_text(a: &str, b: &str) -> (same: bool)
    ensures
        same == (a@ == b@),
{
    match order_of(a, b) {
        KeyOrder::Same => true,
        KeyOrder::Before => {
            proof {
                <String as OrderedKey>::before_irreflexive(a@);
            }
            false
        },
        KeyOrder::After => {
            proof {
                <String as OrderedKey>::before_irreflexive(a@);
            }
            false
        },
    }
}

/// What follows `prefix` in `text`, where `text` begins with it.
pub open spec fn after_prefix(text: Seq<char>, prefix: Seq<char>) -> Option<Seq<char>> {
    if prefix.is_prefix_of(text) {
        Some(text.skip(prefix.len() as int))
    } else {
        None
    }
}

/// What follows the `n`th occurrence of `separator` in `text`.
pub open spec fn after_nth(text: Seq<char>, separator: char, n: nat) -> Option<Seq<char>>
    decreases n, text.len(),
{
    if n == 0 {
        Some(text)
    } else if text.len() == 0 {
        None
    } else if text[0] == separator {
        after_nth(text.skip(1), separator, (n - 1) as nat)
    } else {
        after_nth(text.skip(1), separator, n)
    }
}

/// What follows the `n`th separator is a tail of the text, reached just behind
/// a separator.
pub proof fn lemma_after_nth_is_tail(text: Seq<char>, separator: char, n: nat)
    requires
        after_nth(text, separator, n) is Some,
    ensures
        ({
            let tail = after_nth(text, separator, n).unwrap();
            &&& tail.len() + n <= text.len()
            &&& tail == text.skip(text.len() - tail.len())
            &&& n > 0 ==> text[text.len() - tail.len() - 1] == separator
        }),
    decreases n, text.len(),
{
    if n == 0 {
        assert(text.skip(0) =~= text);
    } else {
        let rest = text.skip(1);
        let fewer: nat = if text[0] == separator { (n - 1) as nat } else { n };
        lemma_after_nth_is_tail(rest, separator, fewer);
        let tail = after_nth(text, separator, n).unwrap();
        assert(rest.skip(rest.len() - tail.len()) =~= text.skip(text.len() - tail.len()));
    }
}

/// What follows the first separator, where it is known what stands before it.
pub proof fn lemma_first_separator(head: Seq<char>, separator: char, rest: Seq<char>)
    requires
        !head.contains(separator),
    ensures
        after_nth(head.push(separator) + rest, separator, 1) == Some(rest),
    decreases head.len(),
{
    let text = head.push(separator) + rest;
    if head.len() == 0 {
        assert(text.skip(1) =~= rest);
        assert(after_nth(rest, separator, 0) == Some(rest));
    } else {
        let fewer = head.skip(1);
        assert(head.contains(head[0]));
        assert(!fewer.contains(separator)) by {
            if fewer.contains(separator) {
                assert(head[fewer.index_of(separator) + 1] == separator);
            }
        }
        lemma_first_separator(fewer, separator, rest);
        assert(text.skip(1) =~= fewer.push(separator) + rest);
    }
}

/// Nothing follows a separator where there is none.
pub proof fn lemma_no_separator(text: Seq<char>, separator: char)
    requires
        !text.contains(separator),
    ensures
        after_nth(text, separator, 1) is None,
    decreases text.len(),
{
    if text.len() > 0 {
        assert(text.contains(text[0]));
        assert(!text.skip(1).contains(separator)) by {
            if text.skip(1).contains(separator) {
                assert(text[text.skip(1).index_of(separator) + 1] == separator);
            }
        }
        lemma_no_separator(text.skip(1), separator);
    }
}

/// What follows `prefix` in `text`.
pub fn strip_prefix<'a>(text: &'a str, prefix: &str) -> (rest: Option<&'a str>)
    ensures
        match rest {
            Some(r) => after_prefix(text@, prefix@) == Some(r@),
            None => after_prefix(text@, prefix@) is None,
        },
{
    let n: usize = prefix.unicode_len();
    let len: usize = text.unicode_len();
    if len < n {
        return None;
    }
    let head = text.substring_char(0, n);
    if same_text(head, prefix) {
        assert(prefix@.is_prefix_of(text@));
        assert(text@.skip(n as int) =~= text@.subrange(n as int, len as int));
        Some(text.substring_char(n, len))
    } else {
        assert(prefix@.is_prefix_of(text@) ==> head@ =~= prefix@);
        None
    }
}

/// What follows the `n`th occurrence of `separator` in `text`.
pub fn strip_to_nth<'a>(text: &'a str, separator: char, n: usize) -> (rest: Option<&'a str>)
    ensures
        match rest {
            Some(r) => after_nth(text@, separator, n as nat) == Some(r@),
            None => after_nth(text@, separator, n as nat) is None,
        },
{
    let len: usize = text.unicode_len();
    let mut i: usize = 0;
    let mut left: usize = n;
    assert(text@.skip(0) =~= text@);
    while left > 0 && i < len
        invariant
            len == text@.len(),
            i <= len,
            after_nth(text@, separator, n as nat) == after_nth(
                text@.skip(i as int),
                separator,
                left as nat,
            ),
        decreases len - i,
    {
        assert(text@.skip(i as int).skip(1) =~= text@.skip(i + 1));
        if text.get_char(i) == separator {
            left -= 1;
        }
        i += 1;
    }
    if left > 0 {
        return None;
    }
    assert(text@.skip(i as int) =~= text@.subrange(i as int, len as int));
    Some(text.substring_char(i, len))
}

/// The text `a` followed by the text `b`.
pub fn joined(a: &str, b: &str) -> (text: String)
    ensures
        text@ == a@ + b@,
{
    let mut text = a.to_owned();
    text.append(b);
    text
}

/// The digit that stands for `value`, below sixteen.
pub open spec fn digit(value: nat) -> char {
    if value < 10 {
        (48 + value) as char
    } else {
        (87 + value) as char
    }
}

/// `value` written in decimal.
pub open spec fn decimal(value: nat) -> Seq<char>
    decreases value,
{
    if value < 10 {
        seq![digit(value)]
    } else {
        decimal(value / 10).push(digit(value % 10))
    }
}

/// The last `width` hexadecimal digits of `value`, in lower case.
pub open spec fn hexadecimal(value: nat, width: nat) -> Seq<char>
    decreases width,
{
    if width == 0 {
        Seq::empty()
    } else {
        hexadecimal(value / 16, (width - 1) as nat).push(digit(value % 16))
    }
}

fn digit_char(value: u8) -> (c: char)
    requires
        value < 16,
    ensures
        c == digit(value as nat),
{
    if value < 10 {
        (48 + value) as char
    } else {
        (87 + value) as char
    }
}

/// Write `value` in decimal at the end of `out`.
pub fn push_decimal(out: &mut String, value: u64)
    ensures
        final(out)@ == old(out)@ + decimal(value as nat),
    decreases value,
{
    let ghost start = out@;
    if value >= 10 {
        push_decimal(out, value / 10);
    }
    out.push(digit_char((value % 10) as u8));
    assert(out@ =~= start + decimal(value as nat));
}

/// Write the last `width` hexadecimal digits of `value` at the end of `out`.
pub fn push_hexadecimal(out: &mut String, value: u32, width: usize)
    ensures
        final(out)@ == old(out)@ + hexadecimal(value as nat, width as nat),
    decreases width,
{
    let ghost start = out@;
    if width > 0 {
        push_hexadecimal(out, value / 16, width - 1);
        out.push(digit_char((value % 16) as u8));
    }
    assert(out@ =~= start + hexadecimal(value as nat, width as nat));
}

/// An ASCII capital made small; every other character as it is.
pub open spec fn small_letter(c: char) -> char {
    if 'A' <= c <= 'Z' {
        ((c as u32) + 32) as char
    } else {
        c
    }
}

/// `text` with its ASCII capitals made small.
pub open spec fn small_letters(text: Seq<char>) -> Seq<char> {
    text.map_values(|c: char| small_letter(c))
}

fn small_char(c: char) -> (small: char)
    ensures
        small == small_letter(c),
{
    if 'A' <= c && c <= 'Z' {
        ((c as u8) + 32) as char
    } else {
        c
    }
}

/// `text` with its ASCII capitals made small.
pub fn to_small_letters(text: &str) -> (small: String)
    ensures
        small@ == small_letters(text@),
{
    let mut small = String::new();
    for c in it: text.chars()
        invariant
            it.seq() == text@,
            small@ == small_letters(it.seq().take(it.index() as int)),
    {
        small.push(small_char(c));
        assert(small@ =~= small_letters(it.seq().take(it.index() + 1)));
    }
    assert(text@.take(text@.len() as int) =~= text@);
    small
}

/// The texts `parts`, with `separator` between each two.
pub open spec fn separated(parts: Seq<Seq<char>>, separator: Seq<char>) -> Seq<char>
    decreases parts.len(),
{
    if parts.len() == 0 {
        Seq::empty()
    } else if parts.len() == 1 {
        parts[0]
    } else {
        separated(parts.drop_last(), separator) + separator + parts.last()
    }
}

/// The texts `parts`, with `separator` between each two.
pub fn joined_with(parts: &Vec<String>, separator: &str) -> (text: String)
    ensures
        text@ == separated(each(parts@), separator@),
{
    let ghost all = each(parts@);
    if parts.len() == 0 {
        proof {
            reveal_strlit("");
        }
        return "".to_owned();
    }
    let mut text = parts[0].clone();
    let mut i: usize = 1;
    assert(all.take(1)[0] == all[0]);
    while i < parts.len()
        invariant
            all == each(parts@),
            1 <= i <= parts@.len(),
            text@ == separated(all.take(i as int), separator@),
        decreases parts@.len() - i,
    {
        text.append(separator);
        text.append(parts[i].as_str());
        proof {
            assert(all.take(i + 1).drop_last() =~= all.take(i as int));
            assert(all.take(i + 1).last() == all[i as int]);
        }
        i += 1;
    }
    assert(all.take(i as int) =~= all);
    text
}

/// The value of a digit, in decimal or hexadecimal.
pub open spec fn digit_worth(c: char) -> int {
    if '0' <= c <= '9' {
        c as int - '0' as int
    } else {
        c as int - 'a' as int + 10
    }
}

/// The number that digits stand for.
pub open spec fn number(digits: Seq<char>, base: int) -> int
    decreases digits.len(),
{
    if digits.len() == 0 {
        0
    } else {
        number(digits.drop_last(), base) * base + digit_worth(digits.last())
    }
}

/// A number written in decimal reads as itself, in decimal digits alone, and
/// with no zero before it.
pub proof fn law_a_decimal_reads_as_its_number(value: nat)
    ensures
        number(decimal(value), 10) == value,
        decimal(value).len() > 0,
        value > 0 ==> decimal(value)[0] != '0',
        forall|i: int|
            0 <= i < decimal(value).len() ==> '0' <= #[trigger] decimal(value)[i] <= '9',
    decreases value,
{
    reveal_with_fuel(number, 2);
    if value < 10 {
        let one = decimal(value);
        assert(one.drop_last() =~= Seq::empty());
        assert(one.last() == digit(value));
    } else {
        law_a_decimal_reads_as_its_number(value / 10);
        let all = decimal(value);
        let rest = decimal(value / 10);
        assert(all.drop_last() =~= rest);
        assert(all.last() == digit(value % 10));
        assert(all[0] == rest[0]);
        assert forall|i: int| 0 <= i < all.len() implies '0' <= #[trigger] all[i] <= '9' by {
            if i < rest.len() {
                assert(all[i] == rest[i]);
            }
        }
    }
}

/// How many numbers can be written with so many hexadecimal digits.
pub open spec fn sixteens(width: nat) -> nat
    decreases width,
{
    if width == 0 {
        1
    } else {
        16 * sixteens((width - 1) as nat)
    }
}

/// A number written in hexadecimal has as many digits as were asked for, small
/// letters among them, and reads as itself where it fits.
pub proof fn law_a_hexadecimal_reads_as_its_number(value: nat, width: nat)
    ensures
        hexadecimal(value, width).len() == width,
        value < sixteens(width) ==> number(hexadecimal(value, width), 16) == value,
        forall|i: int|
            0 <= i < width ==> '0' <= #[trigger] hexadecimal(value, width)[i] <= '9' || 'a'
                <= hexadecimal(value, width)[i] <= 'f',
    decreases width,
{
    if width > 0 {
        let less = (width - 1) as nat;
        law_a_hexadecimal_reads_as_its_number(value / 16, less);
        let all = hexadecimal(value, width);
        let rest = hexadecimal(value / 16, less);
        assert(all.drop_last() =~= rest);
        assert(all.last() == digit(value % 16));
        assert forall|i: int| 0 <= i < width implies '0' <= #[trigger] all[i] <= '9' || 'a'
            <= all[i] <= 'f' by {
            if i < less {
                assert(all[i] == rest[i]);
            }
        }
    }
}

/// Made small, a text has no capital letter, and nothing but capital letters is
/// changed, each to its own small letter.
pub proof fn law_small_letters_are_the_same_letters(text: Seq<char>, i: int)
    requires
        0 <= i < text.len(),
    ensures
        small_letters(text).len() == text.len(),
        !('A' <= small_letters(text)[i] <= 'Z'),
        'A' <= text[i] <= 'Z' ==> small_letters(text)[i] as int - 'a' as int == text[i] as int
            - 'A' as int,
        !('A' <= text[i] <= 'Z') ==> small_letters(text)[i] == text[i],
        small_letters(small_letters(text)) == small_letters(text),
{
    assert(small_letters(small_letters(text)) =~= small_letters(text));
}

}
