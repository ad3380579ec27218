//! Characters and strings: order, search, decimal numbers.
use crate::table::TableKey;
use vstd::prelude::*;
use vstd::std_specs::iter::IteratorSpec;
use vstd::utf8::{decode_utf8, valid_utf8};

verus! {

/// Whether `a` stands before `b` in the lexicographic order of the
/// characters' code points. This is the order of `str`.
pub open spec fn lex_lt(a: Seq<char>, b: Seq<char>) -> bool
    decreases a.len(),
{
    if b.len() == 0 {
        false
    } else if a.len() == 0 {
        true
    } else if a[0] != b[0] {
        (a[0] as int) < (b[0] as int)
    } else {
        lex_lt(a.drop_first(), b.drop_first())
    }
}

/// `lex_lt` is a strict total order: irreflexive, transitive, and of two
/// different texts one stands before the other.
pub proof fn lemma_lex_order(a: Seq<char>, b: Seq<char>, c: Seq<char>)
    ensures
        !lex_lt(a, a),
        lex_lt(a, b) && lex_lt(b, c) ==> lex_lt(a, c),
        a == b || lex_lt(a, b) || lex_lt(b, a),
    decreases a.len(),
{
    if a.len() > 0 {
        lemma_lex_order(a.drop_first(), a.drop_first(), a.drop_first());
        if b.len() > 0 {
            if c.len() > 0 {
                lemma_lex_order(a.drop_first(), b.drop_first(), c.drop_first());
            }
            lemma_lex_order(a.drop_first(), b.drop_first(), b.drop_first());
            if a[0] == b[0] {
                assert(lex_lt(a, b) == lex_lt(a.drop_first(), b.drop_first()));
                assert(lex_lt(b, a) == lex_lt(b.drop_first(), a.drop_first()));
                if a.drop_first() == b.drop_first() {
                    assert(a =~= seq![a[0]] + a.drop_first());
                    assert(b =~= seq![b[0]] + b.drop_first());
                }
            }
        } else {
            assert(lex_lt(b, a));
        }
    } else {
        if b.len() == 0 {
            assert(a =~= b);
        } else {
            assert(lex_lt(a, b));
        }
    }
}

/// Decides `lex_lt`.
pub fn str_lt(a: &str, b: &str) -> (r: bool)
    ensures
        r == lex_lt(a@, b@),
{
    let mut x = a.chars();
    let mut y = b.chars();
    loop
        invariant
            x.obeys_prophetic_iter_laws(),
            y.obeys_prophetic_iter_laws(),
            x.decrease() is Some,
            lex_lt(a@, b@) == lex_lt(x.remaining(), y.remaining()),
        decreases x.decrease()->0,
    {
        match y.next() {
            None => {
                return false;
            },
            Some(cb) => {
                match x.next() {
                    None => {
                        return true;
                    },
                    Some(ca) => {
                        if ca != cb {
                            return ca < cb;
                        }
                    },
                }
            },
        }
    }
}

/// Whether two strings hold the same characters.
pub fn str_eq(a: &str, b: &str) -> (r: bool)
    ensures
        r == (a@ == b@),
{
    let mut x = a.chars();
    let mut y = b.chars();
    let ghost mut seen: Seq<char> = Seq::empty();
    loop
        invariant
            x.obeys_prophetic_iter_laws(),
            y.obeys_prophetic_iter_laws(),
            x.decrease() is Some,
            a@ == seen + x.remaining(),
            b@ == seen + y.remaining(),
        decreases x.decrease()->0,
    {
        let ghost xs = x.remaining();
        let ghost ys = y.remaining();
        match x.next() {
            None => {
                let more = y.next();
                proof {
                    if more is Some {
                        assert(b@.len() > a@.len());
                    } else {
                        assert(a@ =~= b@);
                    }
                }
                return more.is_none();
            },
            Some(ca) => {
                match y.next() {
                    None => {
                        assert(a@.len() > b@.len());
                        return false;
                    },
                    Some(cb) => {
                        if ca != cb {
                            assert(a@[seen.len() as int] == ca);
                            assert(b@[seen.len() as int] == cb);
                            return false;
                        }
                        proof {
                            assert(xs =~= seq![ca] + xs.drop_first());
                            assert(ys =~= seq![cb] + ys.drop_first());
                            assert(a@ =~= seen.push(ca) + x.remaining());
                            assert(b@ =~= seen.push(ca) + y.remaining());
                            seen = seen.push(ca);
                        }
                    },
                }
            },
        }
    }
}

impl TableKey for String {
    open spec fn precedes(a: Seq<char>, b: Seq<char>) -> bool {
        lex_lt(a, b)
    }

    proof fn order_laws(a: Seq<char>, b: Seq<char>, c: Seq<char>) {
        lemma_lex_order(a, b, c);
    }

    fn before(&self, other: &Self) -> (r: bool) {
        str_lt(self.as_str(), other.as_str())
    }
}

/// The characters of `text`, one by one.
pub fn chars_of(text: &str) -> (chars: Vec<char>)
    ensures
        chars@ == text@,
{
    let mut chars: Vec<char> = Vec::new();
    let mut rest = text.chars();
    loop
        invariant
            rest.obeys_prophetic_iter_laws(),
            rest.decrease() is Some,
            chars@ + rest.remaining() == text@,
        ensures
            chars@ == text@,
        decreases rest.decrease()->0,
    {
        let ghost before = rest.remaining();
        match rest.next() {
            Some(c) => {
                chars.push(c);
                assert(chars@ + rest.remaining() =~= text@) by {
                    assert(before =~= seq![c] + before.drop_first());
                }
            },
            None => {
                assert(chars@ =~= text@);
                break ;
            },
        }
    }
    chars
}

/// Calls `String::push`, which appends one character to the end of the
/// string.
#[verifier::external_body]
fn push_char(out: &mut String, c: char)
    ensures
        final(out)@ == old(out)@.push(c),
{
    out.push(c);
}

/// Calls `String::from_utf8`, which turns bytes that are UTF-8 into the
/// string they encode and refuses all others.
#[verifier::external_body]
pub(crate) fn text_from_utf8(bytes: Vec<u8>) -> (r: Option<String>)
    ensures
        match r {
            Some(text) => valid_utf8(bytes@) && text@ == decode_utf8(bytes@),
            None => !valid_utf8(bytes@),
        },
{
    String::from_utf8(bytes).ok()
}

/// The string of the characters `chars[from..to]`.
pub fn text_of(chars: &Vec<char>, from: usize, to: usize) -> (text: String)
    requires
        from <= to <= chars.len(),
    ensures
        text@ == chars@.subrange(from as int, to as int),
{
    let mut text = String::new();
    let mut i: usize = from;
    while i < to
        invariant
            from <= i <= to <= chars.len(),
            text@ == chars@.subrange(from as int, i as int),
        decreases to - i,
    {
        push_char(&mut text, chars[i]);
        i += 1;
        assert(chars@.subrange(from as int, i as int) =~= chars@.subrange(from as int, i - 1).push(
            chars@[i - 1],
        ));
    }
    text
}

/// Position of the first `c` in `text`, or the length of `text` where it
/// holds none.
pub open spec fn find(text: Seq<char>, c: char) -> int
    decreases text.len(),
{
    if text.len() == 0 || text[0] == c {
        0
    } else {
        1 + find(text.drop_first(), c)
    }
}

/// `find` gives the one position before which no `c` stands and at which
/// either `c` stands or the text ends.
pub proof fn lemma_find(text: Seq<char>, c: char, at: int)
    requires
        0 <= at <= text.len(),
        forall|i: int| 0 <= i < at ==> text[i] != c,
        at < text.len() ==> text[at] == c,
    ensures
        find(text, c) == at,
    decreases text.len(),
{
    if at > 0 {
        lemma_find(text.drop_first(), c, at - 1);
    }
}

/// What `find` returns lies within the text, no `c` stands before it, and
/// `c` stands at it unless the text ends there.
pub proof fn lemma_find_is_first(text: Seq<char>, c: char)
    ensures
        0 <= find(text, c) <= text.len(),
        forall|i: int| 0 <= i < find(text, c) ==> text[i] != c,
        find(text, c) < text.len() ==> text[find(text, c)] == c,
    decreases text.len(),
{
    if text.len() > 0 && text[0] != c {
        let rest = text.drop_first();
        lemma_find_is_first(rest, c);
        assert forall|i: int| 0 <= i < find(text, c) implies text[i] != c by {
            if i > 0 {
                assert(rest[i - 1] == text[i]);
            }
        }
    }
}

/// Position of the first `c` in `chars[from..to]`, counted from the start
/// of `chars`, or `to` where that range holds none.
pub fn find_in(chars: &Vec<char>, from: usize, to: usize, c: char) -> (at: usize)
    requires
        from <= to <= chars.len(),
    ensures
        from <= at <= to,
        at == from + find(chars@.subrange(from as int, to as int), c),
{
    let mut at: usize = from;
    while at < to && chars[at] != c
        invariant
            from <= at <= to <= chars.len(),
            forall|i: int| from <= i < at ==> chars@[i] != c,
        decreases to - at,
    {
        at += 1;
    }
    proof {
        lemma_find(chars@.subrange(from as int, to as int), c, at - from);
    }
    at
}

/// Whether `c` is a decimal digit.
pub open spec fn is_digit(c: char) -> bool {
    '0' <= c <= '9'
}

/// The number that the digit `c` stands for.
pub open spec fn digit_value(c: char) -> nat
    recommends
        is_digit(c),
{
    (c as int - '0' as int) as nat
}

/// The number that the decimal digits `digits` write.
pub open spec fn decimal_value(digits: Seq<char>) -> nat
    decreases digits.len(),
{
    if digits.len() == 0 {
        0
    } else {
        decimal_value(digits.drop_last()) * 10 + digit_value(digits.last())
    }
}

/// Whether `text` consists of one or more decimal digits.
pub open spec fn is_decimal(text: Seq<char>) -> bool {
    text.len() > 0 && forall|i: int| 0 <= i < text.len() ==> is_digit(#[trigger] text[i])
}

/// The number that `text` writes, where it is at most `max`: `text` is an
/// optional `+` followed by one or more decimal digits and nothing else.
pub open spec fn spec_parse_unsigned(text: Seq<char>, max: nat) -> Option<nat> {
    let digits = if text.len() > 0 && text[0] == '+' {
        text.drop_first()
    } else {
        text
    };
    if is_decimal(digits) && decimal_value(digits) <= max {
        Some(decimal_value(digits))
    } else {
        None
    }
}

/// A number never gets smaller when digits are written behind it.
proof fn lemma_decimal_value_grows(digits: Seq<char>, upto: int)
    requires
        0 <= upto <= digits.len(),
    ensures
        decimal_value(digits.take(upto)) <= decimal_value(digits),
    decreases digits.len() - upto,
{
    if upto < digits.len() {
        lemma_decimal_value_grows(digits, upto + 1);
        assert(digits.take(upto + 1).drop_last() =~= digits.take(upto));
        assert(decimal_value(digits.take(upto)) * 10 >= decimal_value(digits.take(upto))) by (nonlinear_arith);
    } else {
        assert(digits.take(upto) =~= digits);
    }
}

/// Reads `text` as an unsigned decimal number of at most `max`.
pub fn parse_unsigned(text: &str, max: u64) -> (r: Option<u64>)
    ensures
        r is Some <==> spec_parse_unsigned(text@, max as nat) is Some,
        r matches Some(n) ==> spec_parse_unsigned(text@, max as nat) == Some(n as nat),
{
    let chars = chars_of(text);
    let start: usize = if chars.len() > 0 && chars[0] == '+' {
        1
    } else {
        0
    };
    let ghost digits = chars@.skip(start as int);
    assert(digits =~= if text@.len() > 0 && text@[0] == '+' {
        text@.drop_first()
    } else {
        text@
    });
    if start == chars.len() {
        return None;
    }
    let mut value: u64 = 0;
    let mut i: usize = start;
    while i < chars.len()
        invariant
            start <= i <= chars.len(),
            digits == chars@.skip(start as int),
            spec_parse_unsigned(text@, max as nat) == (if is_decimal(digits) && decimal_value(digits) <= max {
                Some(decimal_value(digits))
            } else {
                None
            }),
            forall|j: int| 0 <= j < i - start ==> is_digit(#[trigger] digits[j]),
            value == decimal_value(digits.take(i - start)),
            value <= max,
        decreases chars.len() - i,
    {
        let c = chars[i];
        assert(c == digits[i - start]);
        if !(c >= '0' && c <= '9') {
            assert(!is_digit(digits[i - start]));
            return None;
        }
        let d: u64 = ((c as u32) - ('0' as u32)) as u64;
        assert(d == digit_value(c));
        proof {
            assert(digits.take(i + 1 - start).drop_last() =~= digits.take(i - start));
            assert(digits.take(i + 1 - start).last() == c);
            assert(decimal_value(digits.take(i + 1 - start)) == value * 10 + d);
            lemma_decimal_value_grows(digits, i + 1 - start);
        }
        if d > max || value > (max - d) / 10 {
            assert(value * 10 + d > max) by (nonlinear_arith)
                requires
                    d > max || value > (max - d) / 10,
                    d <= 9,
                    value >= 0,
            ;
            return None;
        }
        assert(value * 10 + d <= max) by (nonlinear_arith)
            requires
                value <= (max - d) / 10,
                d <= max,
        ;
        value = value * 10 + d;
        i += 1;
    }
    assert(digits.take(chars.len() - start) =~= digits);
    Some(value)
}

/// The digit that writes `d`.
pub open spec fn digit_char(d: nat) -> char
    recommends
        d < 10,
{
    ('0' as int + d) as char
}

/// The decimal digits that write `n`, without leading zeros.
pub open spec fn decimal_digits(n: nat) -> Seq<char>
    decreases n,
{
    if n < 10 {
        seq![digit_char(n)]
    } else {
        decimal_digits(n / 10).push(digit_char(n % 10))
    }
}

/// Reading what `decimal_digits` wrote gives the number back.
pub proof fn lemma_decimal_roundtrip(n: nat, max: nat)
    requires
        n <= max,
    ensures
        is_decimal(decimal_digits(n)),
        decimal_digits(n)[0] != '+',
        decimal_value(decimal_digits(n)) == n,
        spec_parse_unsigned(decimal_digits(n), max) == Some(n),
    decreases n,
{
    let digits = decimal_digits(n);
    if n < 10 {
        assert(digits.drop_last() =~= Seq::<char>::empty());
        assert(decimal_value(digits.drop_last()) == 0);
    } else {
        lemma_decimal_roundtrip(n / 10, max);
        assert(digits.drop_last() =~= decimal_digits(n / 10));
        assert(digits[0] == decimal_digits(n / 10)[0]);
    }
}

/// What `decimal_digits` writes has no leading zero, but for the number
/// zero itself, and holds no character other than digits.
pub proof fn lemma_decimal_digits_plain(n: nat)
    ensures
        decimal_digits(n).len() >= 1,
        n >= 1 ==> decimal_digits(n)[0] != '0',
        decimal_digits(n).len() == 1 || decimal_digits(n)[0] != '0',
        forall|i: int| 0 <= i < decimal_digits(n).len() ==> is_digit(#[trigger] decimal_digits(n)[i]),
    decreases n,
{
    if n >= 10 {
        lemma_decimal_digits_plain(n / 10);
        assert(decimal_digits(n)[0] == decimal_digits(n / 10)[0]);
        assert forall|i: int| 0 <= i < decimal_digits(n).len() implies is_digit(#[trigger] decimal_digits(n)[i]) by {
            if i < decimal_digits(n / 10).len() {
                assert(decimal_digits(n)[i] == decimal_digits(n / 10)[i]);
            }
        }
    }
}

/// Digits without a leading zero are the decimal digits of the number
/// that they write.
pub proof fn lemma_plain_digits_are_decimal_digits(digits: Seq<char>)
    requires
        is_decimal(digits),
        digits.len() == 1 || digits[0] != '0',
    ensures
        decimal_digits(decimal_value(digits)) == digits,
        digits.len() > 1 ==> decimal_value(digits) >= 10,
        digits[0] != '0' ==> decimal_value(digits) >= 1,
    decreases digits.len(),
{
    let front = digits.drop_last();
    if digits.len() == 1 {
        assert(front =~= Seq::<char>::empty());
        assert(decimal_value(front) == 0);
        assert(decimal_digits(decimal_value(digits)) =~= digits);
    } else {
        assert(front[0] == digits[0]);
        assert forall|i: int| 0 <= i < front.len() implies is_digit(#[trigger] front[i]) by {
            assert(front[i] == digits[i]);
        }
        lemma_plain_digits_are_decimal_digits(front);
        let n = decimal_value(digits);
        assert(is_digit(digits[digits.len() - 1]));
        assert(n == decimal_value(front) * 10 + digit_value(digits.last()));
        assert(decimal_value(front) >= 1);
        assert(n / 10 == decimal_value(front) && n % 10 == digit_value(digits.last())) by {
            vstd::arithmetic::div_mod::lemma_fundamental_div_mod_converse(
                n as int,
                10,
                decimal_value(front) as int,
                digit_value(digits.last()) as int,
            );
        }
        assert(decimal_digits(n) =~= digits);
    }
}

/// Appends the decimal digits of `n` to `out`.
pub fn push_decimal(out: &mut String, n: u64)
    ensures
        final(out)@ == old(out)@ + decimal_digits(n as nat),
    decreases n,
{
    if n >= 10 {
        push_decimal(out, n / 10);
    }
    let d: u8 = (n % 10) as u8;
    let c: char = (48u8 + d) as char;
    assert(c == digit_char((n % 10) as nat));
    push_char(out, c);
    proof {
        if n >= 10 {
            assert(old(out)@ + decimal_digits(n as nat) =~= (old(out)@ + decimal_digits((n / 10) as nat)).push(c));
        } else {
            assert(old(out)@ + decimal_digits(n as nat) =~= old(out)@.push(c));
        }
    }
}

/// Whether `c` is a blank of ASCII: space, tab, line feed, form feed or
/// carriage return.
pub open spec fn is_space(c: char) -> bool {
    c == ' ' || c == '\t' || c == '\n' || c == '\x0C' || c == '\r'
}

/// Decides `is_space`.
pub fn is_space_char(c: char) -> (r: bool)
    ensures
        r == is_space(c),
{
    c == ' ' || c == '\t' || c == '\n' || c == '\x0C' || c == '\r'
}

/// Number of characters before the first blank of `text`.
pub open spec fn word_len(text: Seq<char>) -> int
    decreases text.len(),
{
    if text.len() == 0 || is_space(text[0]) {
        0
    } else {
        1 + word_len(text.drop_first())
    }
}

/// The words of `text`: its longest runs of characters that are no blanks,
/// from left to right.
pub open spec fn words(text: Seq<char>) -> Seq<Seq<char>>
    decreases text.len(),
    via words_decreases
{
    if text.len() == 0 {
        Seq::empty()
    } else if is_space(text[0]) {
        words(text.drop_first())
    } else {
        seq![text.take(word_len(text))] + words(text.skip(word_len(text)))
    }
}

#[via_fn]
proof fn words_decreases(text: Seq<char>) {
    if text.len() > 0 && !is_space(text[0]) {
        lemma_word_len(text);
    }
}

/// A word ends within the text, holds no blank, and a blank or the end of
/// the text follows it.
pub proof fn lemma_word_len(text: Seq<char>)
    ensures
        0 <= word_len(text) <= text.len(),
        text.len() > 0 && !is_space(text[0]) ==> word_len(text) > 0,
        forall|i: int| 0 <= i < word_len(text) ==> !is_space(text[i]),
        word_len(text) < text.len() ==> is_space(text[word_len(text)]),
    decreases text.len(),
{
    if text.len() > 0 && !is_space(text[0]) {
        let rest = text.drop_first();
        lemma_word_len(rest);
        assert forall|i: int| 0 <= i < word_len(text) implies !is_space(text[i]) by {
            if i > 0 {
                assert(rest[i - 1] == text[i]);
            }
        }
    }
}

/// The length of the run without blanks that starts a text is the one
/// position that `lemma_word_len` describes.
proof fn lemma_word_len_is(text: Seq<char>, n: int)
    requires
        0 <= n <= text.len(),
        forall|i: int| 0 <= i < n ==> !is_space(text[i]),
        n < text.len() ==> is_space(text[n]),
    ensures
        word_len(text) == n,
    decreases text.len(),
{
    if n > 0 {
        lemma_word_len_is(text.drop_first(), n - 1);
    }
}

/// Splits `text` at its blanks into `words`.
pub fn split_words(text: &str) -> (found: Vec<String>)
    ensures
        found.len() == words(text@).len(),
        forall|i: int| 0 <= i < found.len() ==> (#[trigger] found[i])@ == words(text@)[i],
{
    let chars = chars_of(text);
    let mut found: Vec<String> = Vec::new();
    let ghost mut views: Seq<Seq<char>> = Seq::empty();
    let mut at: usize = 0;
    assert(chars@.skip(0) =~= text@);
    assert(views + words(text@) =~= words(text@));
    while at < chars.len()
        invariant
            at <= chars.len(),
            chars@ == text@,
            views.len() == found.len(),
            forall|i: int| 0 <= i < found.len() ==> (#[trigger] found[i])@ == views[i],
            words(text@) == views + words(chars@.skip(at as int)),
        decreases chars.len() - at,
    {
        let ghost rest = chars@.skip(at as int);
        if is_space_char(chars[at]) {
            assert(rest.drop_first() =~= chars@.skip(at + 1));
            at += 1;
        } else {
            let mut end: usize = at + 1;
            while end < chars.len() && !is_space_char(chars[end])
                invariant
                    at < end <= chars.len(),
                    forall|i: int| at <= i < end ==> !is_space(chars@[i]),
                decreases chars.len() - end,
            {
                end += 1;
            }
            proof {
                lemma_word_len_is(rest, end - at);
                assert(rest.take(end - at) =~= chars@.subrange(at as int, end as int));
                assert(rest.skip(end - at) =~= chars@.skip(end as int));
                assert(views + (seq![rest.take(end - at)] + words(rest.skip(end - at))) =~= views.push(
                    rest.take(end - at),
                ) + words(rest.skip(end - at)));
                views = views.push(rest.take(end - at));
            }
            found.push(text_of(&chars, at, end));
            at = end;
        }
    }
    assert(words(chars@.skip(at as int)) =~= Seq::<Seq<char>>::empty());
    assert(views + Seq::<Seq<char>>::empty() =~= views);
    found
}

/// The pieces of `text` between the occurrences of `c`: one more piece
/// than `text` holds occurrences, an empty one where two of them touch.
pub open spec fn fields(text: Seq<char>, c: char) -> Seq<Seq<char>>
    decreases text.len(),
    via fields_decreases
{
    if find(text, c) >= text.len() {
        seq![text]
    } else {
        seq![text.take(find(text, c))] + fields(text.skip(find(text, c) + 1), c)
    }
}

#[via_fn]
proof fn fields_decreases(text: Seq<char>, c: char) {
    lemma_find_is_first(text, c);
}

/// Splits `text` at each `c` into `fields`.
pub fn split_at(text: &str, c: char) -> (found: Vec<String>)
    ensures
        found.len() == fields(text@, c).len(),
        forall|i: int| 0 <= i < found.len() ==> (#[trigger] found[i])@ == fields(text@, c)[i],
{
    let chars = chars_of(text);
    let mut found: Vec<String> = Vec::new();
    let ghost mut views: Seq<Seq<char>> = Seq::empty();
    let mut at: usize = 0;
    assert(chars@.skip(0) =~= text@);
    assert(views + fields(text@, c) =~= fields(text@, c));
    loop
        invariant_except_break
            fields(text@, c) == views + fields(chars@.skip(at as int), c),
        invariant
            at <= chars.len(),
            chars@ == text@,
            views.len() == found.len(),
            forall|i: int| 0 <= i < found.len() ==> (#[trigger] found[i])@ == views[i],
        ensures
            views.len() == found.len(),
            forall|i: int| 0 <= i < found.len() ==> (#[trigger] found[i])@ == views[i],
            fields(text@, c) == views,
        decreases chars.len() - at,
    {
        let ghost rest = chars@.skip(at as int);
        let end = find_in(&chars, at, chars.len(), c);
        proof {
            assert(chars@.subrange(at as int, chars.len() as int) =~= rest);
            assert(rest.take(end - at) =~= chars@.subrange(at as int, end as int));
        }
        found.push(text_of(&chars, at, end));
        if end >= chars.len() {
            proof {
                assert(rest.take(end - at) =~= rest);
                assert(views + seq![rest] =~= views.push(rest));
                views = views.push(rest);
            }
            break ;
        }
        proof {
            assert(rest.skip(end - at + 1) =~= chars@.skip(end + 1));
            assert(views + (seq![rest.take(end - at)] + fields(rest.skip(end - at + 1), c)) =~= views.push(
                rest.take(end - at),
            ) + fields(rest.skip(end - at + 1), c));
            views = views.push(rest.take(end - at));
        }
        at = end + 1;
    }
    found
}

} // verus!
