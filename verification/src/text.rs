//! Text helpers: decimal rendering and parsing, prefix, suffix and substring
//! tests over character sequences.

use vstd::prelude::*;
use vstd::string::*;

verus! {

/// Equality of string slices compares their characters.
pub assume_specification[ <str as PartialEq>::eq ](a: &str, b: &str) -> (r: bool)
    ensures
        r == (a@ == b@),
;

/// The character sequences held by a list of strings.
pub open spec fn ids_of(list: Seq<String>) -> Seq<Seq<char>> {
    list.map_values(|s: String| s@)
}

/// `list` without the entries equal to `id`, the others in their order.
pub open spec fn without(list: Seq<Seq<char>>, id: Seq<char>) -> Seq<Seq<char>>
    decreases list.len(),
{
    if list.len() == 0 {
        list
    } else if list.last() == id {
        without(list.drop_last(), id)
    } else {
        without(list.drop_last(), id).push(list.last())
    }
}

/// Whether `list` holds the text `id`.
pub fn holds_id(list: &Vec<String>, id: &str) -> (r: bool)
    ensures
        r == ids_of(list@).contains(id@),
{
    let mut i: usize = 0;
    while i < list.len()
        invariant
            i <= list.len(),
            forall|j: int| 0 <= j < i ==> list[j]@ != id@,
        decreases list.len() - i,
    {
        if *list[i].as_str() == *id {
            assert(ids_of(list@)[i as int] == id@);
            return true;
        }
        i = i + 1;
    }
    proof {
        assert forall|j: int| 0 <= j < ids_of(list@).len() implies ids_of(list@)[j] != id@ by {
            assert(ids_of(list@)[j] == list[j]@);
        }
    }
    false
}

/// Removes from `list` every entry equal to `id` and keeps the others in
/// their order.
pub fn remove_id(list: &mut Vec<String>, id: &str)
    ensures
        ids_of(final(list)@) == without(ids_of(old(list)@), id@),
{
    let ghost ids = ids_of(list@);
    let mut kept: Vec<String> = Vec::new();
    let mut i: usize = 0;
    proof {
        assert(ids.take(0) =~= Seq::<Seq<char>>::empty());
        assert(ids_of(kept@) =~= without(ids.take(0), id@));
    }
    while i < list.len()
        invariant
            ids == ids_of(list@),
            list@ == old(list)@,
            i <= list.len(),
            ids_of(kept@) == without(ids.take(i as int), id@),
        decreases list.len() - i,
    {
        proof {
            assert(ids.take(i + 1).drop_last() =~= ids.take(i as int));
            assert(ids.take(i + 1).last() == list[i as int]@);
        }
        if !(*list[i].as_str() == *id) {
            let ghost before = ids_of(kept@);
            let entry = list[i].clone();
            kept.push(entry);
            proof {
                assert(ids_of(kept@) =~= before.push(list[i as int]@));
            }
        }
        i = i + 1;
    }
    proof {
        assert(ids.take(list.len() as int) =~= ids);
    }
    *list = kept;
}

/// A copy of a list of texts.
pub fn copy_ids(list: &Vec<String>) -> (r: Vec<String>)
    ensures
        ids_of(r@) == ids_of(list@),
        r.len() == list.len(),
{
    let mut out: Vec<String> = Vec::new();
    let mut i: usize = 0;
    while i < list.len()
        invariant
            i <= list.len(),
            out.len() == i,
            forall|j: int| 0 <= j < i ==> out[j]@ == list[j]@,
        decreases list.len() - i,
    {
        out.push(list[i].clone());
        i = i + 1;
    }
    proof {
        assert(ids_of(out@) =~= ids_of(list@));
    }
    out
}

/// The character that writes the decimal digit `d`.
pub open spec fn digit_char(d: int) -> char {
    if d == 0 {
        '0'
    } else if d == 1 {
        '1'
    } else if d == 2 {
        '2'
    } else if d == 3 {
        '3'
    } else if d == 4 {
        '4'
    } else if d == 5 {
        '5'
    } else if d == 6 {
        '6'
    } else if d == 7 {
        '7'
    } else if d == 8 {
        '8'
    } else {
        '9'
    }
}

/// Whether `c` is one of `'0'..='9'`.
pub open spec fn is_digit(c: char) -> bool {
    exists|d: int| 0 <= d < 10 && c == #[trigger] digit_char(d)
}

/// The value of the decimal digit `c`; meaningful where `is_digit(c)`.
pub open spec fn digit_value(c: char) -> int {
    if c == '1' {
        1
    } else if c == '2' {
        2
    } else if c == '3' {
        3
    } else if c == '4' {
        4
    } else if c == '5' {
        5
    } else if c == '6' {
        6
    } else if c == '7' {
        7
    } else if c == '8' {
        8
    } else if c == '9' {
        9
    } else {
        0
    }
}

/// The shortest decimal numeral of `n`.
pub open spec fn decimal(n: nat) -> Seq<char>
    decreases n,
{
    if n < 10 {
        seq![digit_char(n as int)]
    } else {
        decimal(n / 10).push(digit_char((n % 10) as int))
    }
}

/// `count` copies of `'0'`.
pub open spec fn zeros(count: nat) -> Seq<char> {
    Seq::new(count, |i: int| '0')
}

/// The decimal numeral of `n`, padded on the left with zeros to at least
/// `width` characters.
pub open spec fn zero_padded(n: nat, width: nat) -> Seq<char> {
    let d = decimal(n);
    if d.len() >= width {
        d
    } else {
        zeros((width - d.len()) as nat) + d
    }
}

/// Whether every character of `s` is a decimal digit.
pub open spec fn all_digits(s: Seq<char>) -> bool {
    forall|i: int| 0 <= i < s.len() ==> is_digit(#[trigger] s[i])
}

/// The number that the digit string `s` writes, leading zeros allowed.
pub open spec fn digits_value(s: Seq<char>) -> nat
    decreases s.len(),
{
    if s.len() == 0 {
        0
    } else {
        (digits_value(s.drop_last()) * 10 + digit_value(s.last())) as nat
    }
}

/// Every digit character has the value it was made from.
pub proof fn lemma_digit_round_trip(d: int)
    requires
        0 <= d < 10,
    ensures
        is_digit(digit_char(d)),
        digit_value(digit_char(d)) == d,
{
}

/// A digit character is made from its own value.
pub proof fn lemma_digit_char_of_value(c: char)
    requires
        is_digit(c),
    ensures
        0 <= digit_value(c) < 10,
        digit_char(digit_value(c)) == c,
{
    let d = choose|d: int| 0 <= d < 10 && c == #[trigger] digit_char(d);
    lemma_digit_round_trip(d);
}

/// A numeral is a non-empty digit string without a superfluous leading
/// zero, and it writes the number it was made from.
pub proof fn lemma_decimal_properties(n: nat)
    ensures
        decimal(n).len() >= 1,
        all_digits(decimal(n)),
        digits_value(decimal(n)) == n,
        decimal(n).len() > 1 ==> decimal(n)[0] != '0',
        n < 10 <==> decimal(n).len() == 1,
    decreases n,
{
    if n < 10 {
        lemma_digit_round_trip(n as int);
        let s = decimal(n);
        assert(s.drop_last() =~= Seq::<char>::empty());
        assert(digits_value(s.drop_last()) == 0);
        assert(s.last() == digit_char(n as int));
    } else {
        lemma_decimal_properties(n / 10);
        lemma_digit_round_trip((n % 10) as int);
        let head = decimal(n / 10);
        let s = decimal(n);
        assert(s == head.push(digit_char((n % 10) as int)));
        assert(s.drop_last() =~= head);
        assert(s.last() == digit_char((n % 10) as int));
        assert(s[0] == head[0]);
        assert(n / 10 >= 1);
        if head.len() == 1 {
            assert(head[0] == digit_char((n / 10) as int));
        }
        assert forall|i: int| 0 <= i < s.len() implies is_digit(#[trigger] s[i]) by {
            if i < head.len() {
                assert(s[i] == head[i]);
            }
        }
    }
}

/// A digit string without a leading zero is the numeral of its value.
pub proof fn lemma_canonical_is_decimal(s: Seq<char>)
    requires
        s.len() >= 1,
        all_digits(s),
        s.len() > 1 ==> s[0] != '0',
    ensures
        decimal(digits_value(s)) == s,
        s.len() > 1 ==> digits_value(s) >= 10,
    decreases s.len(),
{
    let last = s.last();
    assert(is_digit(s[s.len() - 1]));
    lemma_digit_char_of_value(last);
    if s.len() == 1 {
        assert(s.drop_last() =~= Seq::<char>::empty());
        assert(digits_value(s.drop_last()) == 0);
        assert(digits_value(s) == digit_value(last));
        assert(decimal(digits_value(s)) =~= s);
    } else {
        let head = s.drop_last();
        assert(head[0] == s[0]);
        assert forall|i: int| 0 <= i < head.len() implies is_digit(#[trigger] head[i]) by {
            assert(head[i] == s[i]);
        }
        lemma_canonical_is_decimal(head);
        let hv = digits_value(head);
        if head.len() == 1 {
            assert(is_digit(head[0]));
            lemma_digit_char_of_value(head[0]);
            assert(head.drop_last() =~= Seq::<char>::empty());
            assert(digits_value(head.drop_last()) == 0);
            assert(hv == digit_value(head[0]));
            assert(hv >= 1);
        }
        let v = digits_value(s);
        assert(v == hv * 10 + digit_value(last));
        assert(v >= 10);
        assert(v / 10 == hv);
        assert(v % 10 == digit_value(last));
        assert(decimal(v) == decimal(hv).push(digit_char(digit_value(last))));
        assert(decimal(v) =~= s);
    }
}

/// Leading zeros do not change the value of a digit string.
pub proof fn lemma_zeros_prefix_value(count: nat, s: Seq<char>)
    ensures
        digits_value(zeros(count) + s) == digits_value(s),
        all_digits(s) ==> all_digits(zeros(count) + s),
    decreases s.len(),
{
    let t = zeros(count) + s;
    if s.len() == 0 {
        assert(t =~= zeros(count));
        lemma_zeros_value(count);
    } else {
        assert(t.drop_last() =~= zeros(count) + s.drop_last());
        assert(t.last() == s.last());
        lemma_zeros_prefix_value(count, s.drop_last());
    }
    if all_digits(s) {
        assert forall|i: int| 0 <= i < t.len() implies is_digit(#[trigger] t[i]) by {
            if i < count {
                assert(t[i] == digit_char(0));
            } else {
                assert(t[i] == s[i - count]);
            }
        }
    }
}

/// A string of zeros writes zero.
pub proof fn lemma_zeros_value(count: nat)
    ensures
        digits_value(zeros(count)) == 0,
    decreases count,
{
    if count > 0 {
        assert(zeros(count).drop_last() =~= zeros((count - 1) as nat));
        lemma_zeros_value((count - 1) as nat);
    }
}

/// The number of zeros at the head of `s` that can go without emptying it.
pub open spec fn leading_zeros(s: Seq<char>) -> nat
    decreases s.len(),
{
    if s.len() <= 1 || s[0] != '0' {
        0
    } else {
        1 + leading_zeros(s.skip(1))
    }
}

/// A digit string is a run of zeros followed by a numeral.
pub proof fn lemma_leading_zeros(s: Seq<char>)
    requires
        s.len() >= 1,
        all_digits(s),
    ensures
        leading_zeros(s) < s.len(),
        s == zeros(leading_zeros(s)) + s.skip(leading_zeros(s) as int),
        all_digits(s.skip(leading_zeros(s) as int)),
        s.skip(leading_zeros(s) as int).len() > 1 ==> s.skip(leading_zeros(s) as int)[0] != '0',
        s[0] != '0' ==> leading_zeros(s) == 0,
    decreases s.len(),
{
    let k = leading_zeros(s);
    if s.len() <= 1 || s[0] != '0' {
        assert(s.skip(0) =~= s);
        assert(zeros(0) + s =~= s);
    } else {
        let rest = s.skip(1);
        assert forall|i: int| 0 <= i < rest.len() implies is_digit(#[trigger] rest[i]) by {
            assert(rest[i] == s[i + 1]);
        }
        lemma_leading_zeros(rest);
        let kr = leading_zeros(rest);
        assert(rest.skip(kr as int) =~= s.skip(k as int));
        assert(s =~= zeros(k) + s.skip(k as int)) by {
            let t = zeros(k) + s.skip(k as int);
            assert(t.len() == s.len());
            assert forall|i: int| 0 <= i < s.len() implies s[i] == t[i] by {
                if i == 0 {
                } else if i < k {
                    assert(rest[i - 1] == (zeros(kr) + rest.skip(kr as int))[i - 1]);
                } else {
                    assert(rest[i - 1] == (zeros(kr) + rest.skip(kr as int))[i - 1]);
                }
            }
        }
    }
}

/// A padded numeral is a digit string of at least `width` characters that
/// writes `n`, and it is longer than `width` only without a leading zero.
pub proof fn lemma_zero_padded_properties(n: nat, width: nat)
    requires
        width >= 1,
    ensures
        zero_padded(n, width).len() >= width,
        all_digits(zero_padded(n, width)),
        digits_value(zero_padded(n, width)) == n,
        zero_padded(n, width).len() > width ==> zero_padded(n, width)[0] != '0',
{
    lemma_decimal_properties(n);
    let d = decimal(n);
    if d.len() < width {
        lemma_zeros_prefix_value((width - d.len()) as nat, d);
    }
}

/// A digit string of at least `width` characters that is longer than
/// `width` only without a leading zero is the padded numeral of its value.
pub proof fn lemma_padded_from_digits(s: Seq<char>, width: nat)
    requires
        width >= 1,
        s.len() >= width,
        all_digits(s),
        s.len() > width ==> s[0] != '0',
    ensures
        zero_padded(digits_value(s), width) == s,
{
    lemma_leading_zeros(s);
    let k = leading_zeros(s);
    let c = s.skip(k as int);
    lemma_zeros_prefix_value(k, c);
    lemma_canonical_is_decimal(c);
    let v = digits_value(s);
    assert(decimal(v) == c);
    if s.len() > width {
        assert(k == 0);
        assert(c =~= s);
    } else {
        if c.len() >= width {
            assert(k == 0);
            assert(c =~= s);
        } else {
            assert((width - c.len()) as nat == k);
        }
    }
}

/// The text of one decimal digit.
pub fn digit_text(d: u8) -> (r: &'static str)
    requires
        d < 10,
    ensures
        r@ == seq![digit_char(d as int)],
{
    proof {
        reveal_strlit("0");
        reveal_strlit("1");
        reveal_strlit("2");
        reveal_strlit("3");
        reveal_strlit("4");
        reveal_strlit("5");
        reveal_strlit("6");
        reveal_strlit("7");
        reveal_strlit("8");
        reveal_strlit("9");
    }
    let r = if d == 0 {
        "0"
    } else if d == 1 {
        "1"
    } else if d == 2 {
        "2"
    } else if d == 3 {
        "3"
    } else if d == 4 {
        "4"
    } else if d == 5 {
        "5"
    } else if d == 6 {
        "6"
    } else if d == 7 {
        "7"
    } else if d == 8 {
        "8"
    } else {
        "9"
    };
    assert(r@ =~= seq![digit_char(d as int)]);
    r
}

/// The number of characters in the numeral of `n`.
pub fn decimal_len(n: u64) -> (r: usize)
    ensures
        r == decimal(n as nat).len(),
        1 <= r <= 20,
{
    let mut rest: u64 = n;
    let mut count: usize = 1;
    proof {
        lemma_decimal_len_bound(n as nat);
    }
    while rest >= 10
        invariant
            count >= 1,
            count + decimal(rest as nat).len() == 1 + decimal(n as nat).len(),
            decimal(n as nat).len() <= 20,
        decreases rest,
    {
        rest = rest / 10;
        count = count + 1;
    }
    count
}

/// A numeral of a number below `2^64` has at most twenty digits.
pub proof fn lemma_decimal_len_bound(n: nat)
    requires
        n <= u64::MAX,
    ensures
        decimal(n).len() <= 20,
{
    reveal_with_fuel(decimal, 21);
    assert(n / 10 / 10 / 10 / 10 / 10 / 10 / 10 / 10 / 10 / 10 / 10 / 10 / 10 / 10 / 10 / 10 / 10 / 10 / 10 < 10);
}

/// Appends the numeral of `n` to `out`.
pub fn append_decimal(out: &mut String, n: u64)
    ensures
        final(out)@ == old(out)@ + decimal(n as nat),
    decreases n,
{
    if n >= 10 {
        append_decimal(out, n / 10);
    }
    let d: u8 = (n % 10) as u8;
    out.append(digit_text(d));
    proof {
        if n >= 10 {
            assert(final(out)@ =~= old(out)@ + decimal(n as nat));
        } else {
            assert(final(out)@ =~= old(out)@ + decimal(n as nat));
        }
    }
}

/// Appends the numeral of `n`, padded with zeros to at least `width`
/// characters.
pub fn append_zero_padded(out: &mut String, n: u64, width: usize)
    ensures
        final(out)@ == old(out)@ + zero_padded(n as nat, width as nat),
{
    let len: usize = decimal_len(n);
    let mut written: usize = len;
    while written < width
        invariant
            len == decimal(n as nat).len(),
            len <= written,
            written <= width || written == len,
            out@ == old(out)@ + zeros((written - len) as nat),
        decreases width - written,
    {
        out.append("0");
        proof {
            reveal_strlit("0");
            assert(out@ =~= old(out)@ + zeros((written + 1 - len) as nat));
        }
        written = written + 1;
    }
    let ghost before = out@;
    append_decimal(out, n);
    proof {
        if len >= width {
            assert(zeros(0) =~= Seq::<char>::empty());
            assert(out@ =~= old(out)@ + zero_padded(n as nat, width as nat));
        } else {
            assert(written == width);
            assert(out@ =~= old(out)@ + zero_padded(n as nat, width as nat));
        }
    }
}

/// The characters of `s`, in order.
pub fn chars_of(s: &str) -> (r: Vec<char>)
    ensures
        r@ == s@,
{
    let mut out: Vec<char> = Vec::new();
    for c in it: s.chars()
        invariant
            out@ == it.seq().take(it.index() as int),
            it.seq() == s@,
    {
        out.push(c);
    }
    out
}

/// Whether `p` stands in `s` at position `at`.
pub open spec fn occurs_at(p: Seq<char>, s: Seq<char>, at: int) -> bool {
    0 <= at && at + p.len() <= s.len() && s.subrange(at, at + p.len()) == p
}

/// Whether `p` is a contiguous part of `s`.
pub open spec fn occurs_in(p: Seq<char>, s: Seq<char>) -> bool {
    exists|at: int| occurs_at(p, s, at)
}

/// Whether `s` begins with `p`.
pub open spec fn has_prefix(s: Seq<char>, p: Seq<char>) -> bool {
    occurs_at(p, s, 0)
}

/// Whether `s` ends with `p`.
pub open spec fn has_suffix(s: Seq<char>, p: Seq<char>) -> bool {
    occurs_at(p, s, s.len() - p.len())
}

/// Tests whether `needle` stands in `hay` at position `at`.
pub fn matches_at(hay: &Vec<char>, needle: &Vec<char>, at: usize) -> (r: bool)
    ensures
        r == occurs_at(needle@, hay@, at as int),
{
    if needle.len() > hay.len() || at > hay.len() - needle.len() {
        return false;
    }
    let mut k: usize = 0;
    while k < needle.len()
        invariant
            k <= needle.len(),
            at + needle.len() <= hay.len(),
            forall|j: int| 0 <= j < k ==> hay@[at + j] == needle@[j],
        decreases needle.len() - k,
    {
        if hay[at + k] != needle[k] {
            proof {
                let sub = hay@.subrange(at as int, at + needle.len());
                assert(sub[k as int] == hay@[at + k]);
            }
            return false;
        }
        k = k + 1;
    }
    assert(hay@.subrange(at as int, at + needle.len()) =~= needle@);
    true
}

/// Tests whether `s` begins with `p`.
pub fn starts_with(s: &Vec<char>, p: &Vec<char>) -> (r: bool)
    ensures
        r == has_prefix(s@, p@),
{
    matches_at(s, p, 0)
}

/// Tests whether `s` ends with `p`.
pub fn ends_with(s: &Vec<char>, p: &Vec<char>) -> (r: bool)
    ensures
        r == has_suffix(s@, p@),
{
    if p.len() > s.len() {
        return false;
    }
    matches_at(s, p, s.len() - p.len())
}

/// Tests whether `needle` is a contiguous part of `hay`.
pub fn contains(hay: &Vec<char>, needle: &Vec<char>) -> (r: bool)
    ensures
        r == occurs_in(needle@, hay@),
{
    if needle.len() > hay.len() {
        return false;
    }
    let last: usize = hay.len() - needle.len();
    let mut at: usize = 0;
    loop
        invariant
            last == hay.len() - needle.len(),
            at <= last,
            forall|j: int| 0 <= j < at ==> !occurs_at(needle@, hay@, j),
        decreases last - at,
    {
        if matches_at(hay, needle, at) {
            return true;
        }
        if at == last {
            return false;
        }
        at = at + 1;
    }
}

/// Tests whether `c` is a decimal digit, and gives its value.
pub fn digit_of(c: char) -> (r: Option<u8>)
    ensures
        r is Some <==> is_digit(c),
        r matches Some(d) ==> d < 10 && d as int == digit_value(c) && digit_char(d as int) == c,
{
    let r: Option<u8> = if c == '0' {
        Some(0u8)
    } else if c == '1' {
        Some(1u8)
    } else if c == '2' {
        Some(2u8)
    } else if c == '3' {
        Some(3u8)
    } else if c == '4' {
        Some(4u8)
    } else if c == '5' {
        Some(5u8)
    } else if c == '6' {
        Some(6u8)
    } else if c == '7' {
        Some(7u8)
    } else if c == '8' {
        Some(8u8)
    } else if c == '9' {
        Some(9u8)
    } else {
        None
    };
    proof {
        match r {
            Some(d) => {
                lemma_digit_round_trip(d as int);
            },
            None => {
                assert forall|d: int| 0 <= d < 10 implies c != #[trigger] digit_char(d) by {}
            },
        }
    }
    r
}

/// The value of a prefix of a digit string is at most the value of the
/// whole string.
pub proof fn lemma_prefix_value_le(s: Seq<char>, k: int)
    requires
        0 <= k <= s.len(),
    ensures
        digits_value(s.take(k)) <= digits_value(s),
    decreases s.len() - k,
{
    if k == s.len() {
        assert(s.take(k) =~= s);
    } else {
        lemma_prefix_value_le(s, k + 1);
        let t = s.take(k + 1);
        assert(t.drop_last() =~= s.take(k));
        assert(digits_value(t) == digits_value(s.take(k)) * 10 + digit_value(t.last()));
    }
}

/// Reads `chars[from..to]` as a decimal number. The result is `Some` exactly
/// when the range is a non-empty digit string whose value fits in 64 bits.
pub fn parse_digits(chars: &Vec<char>, from: usize, to: usize) -> (r: Option<u64>)
    requires
        from <= to <= chars.len(),
    ensures
        r is Some <==> (from < to && all_digits(chars@.subrange(from as int, to as int))
            && digits_value(chars@.subrange(from as int, to as int)) <= u64::MAX),
        r matches Some(v) ==> v == digits_value(chars@.subrange(from as int, to as int)),
{
    if from == to {
        return None;
    }
    let ghost sub = chars@.subrange(from as int, to as int);
    let mut acc: u64 = 0;
    let mut i: usize = from;
    proof {
        assert(sub.take(0) =~= Seq::<char>::empty());
    }
    while i < to
        invariant
            from <= i <= to <= chars.len(),
            sub == chars@.subrange(from as int, to as int),
            acc == digits_value(sub.take(i - from)),
            forall|j: int| 0 <= j < i - from ==> is_digit(#[trigger] sub[j]),
        decreases to - i,
    {
        let c = chars[i];
        proof {
            assert(sub[i - from] == c);
            let t = sub.take(i - from + 1);
            assert(t.drop_last() =~= sub.take(i - from));
            assert(t.last() == c);
            lemma_prefix_value_le(sub, i - from + 1);
        }
        match digit_of(c) {
            None => {
                return None;
            },
            Some(d) => {
                if acc > (u64::MAX - d as u64) / 10 {
                    proof {
                        assert(acc * 10 + d > u64::MAX) by (nonlinear_arith)
                            requires
                                acc > (u64::MAX - d as u64) / 10,
                                d < 10,
                        ;
                    }
                    return None;
                }
                proof {
                    assert(acc * 10 + d <= u64::MAX) by (nonlinear_arith)
                        requires
                            acc <= (u64::MAX - d as u64) / 10,
                            d < 10,
                    ;
                }
                acc = acc * 10 + d as u64;
            },
        }
        i = i + 1;
    }
    proof {
        assert(sub.take(to - from) =~= sub);
    }
    Some(acc)
}

/// The number that `s` writes by the rule for unsigned integers: an
/// optional `+`, then one or more decimal digits. Any other text writes no
/// number.
pub open spec fn unsigned_value(s: Seq<char>) -> Option<nat> {
    let digits = if s.len() > 0 && s[0] == '+' {
        s.skip(1)
    } else {
        s
    };
    if digits.len() > 0 && all_digits(digits) {
        Some(digits_value(digits))
    } else {
        None
    }
}

/// The index that `s` writes: its unsigned value where it has one that a
/// machine index can hold, and 0 otherwise.
pub open spec fn index_value(s: Seq<char>) -> nat {
    match unsigned_value(s) {
        Some(v) => if v <= usize::MAX {
            v
        } else {
            0
        },
        None => 0,
    }
}

/// Reads `chars[from..]` as an index.
pub fn parse_index(chars: &Vec<char>, from: usize) -> (r: usize)
    requires
        from <= chars.len(),
    ensures
        r == index_value(chars@.skip(from as int)),
{
    let ghost s = chars@.skip(from as int);
    let start: usize = if from < chars.len() && chars[from] == '+' {
        from + 1
    } else {
        from
    };
    proof {
        if from < chars.len() {
            assert(s[0] == chars@[from as int]);
        }
        if start == from {
            assert(chars@.subrange(start as int, chars.len() as int) =~= s);
        } else {
            assert(chars@.subrange(start as int, chars.len() as int) =~= s.skip(1));
        }
    }
    match parse_digits(chars, start, chars.len()) {
        Some(v) => {
            if v <= usize::MAX as u64 {
                v as usize
            } else {
                0
            }
        },
        None => 0,
    }
}

/// `s` without the occurrences of `pat`, found from the left and not
/// overlapping. An empty `pat` removes nothing.
pub open spec fn removed(s: Seq<char>, pat: Seq<char>) -> Seq<char>
    decreases s.len(),
{
    if pat.len() == 0 || s.len() < pat.len() {
        s
    } else if has_prefix(s, pat) {
        removed(s.skip(pat.len() as int), pat)
    } else {
        seq![s[0]] + removed(s.skip(1), pat)
    }
}

/// Removes every occurrence of `pat` from `s`.
pub fn remove_all(s: &Vec<char>, pat: &Vec<char>) -> (r: Vec<char>)
    ensures
        r@ == removed(s@, pat@),
{
    let mut out: Vec<char> = Vec::new();
    let mut i: usize = 0;
    proof {
        assert(s@.skip(0) =~= s@);
        assert(out@ + removed(s@, pat@) =~= removed(s@, pat@));
    }
    while i < s.len()
        invariant
            i <= s.len(),
            out@ + removed(s@.skip(i as int), pat@) == removed(s@, pat@),
        decreases s.len() - i,
    {
        let ghost rest = s@.skip(i as int);
        if pat.len() > 0 && matches_at(s, pat, i) {
            proof {
                assert(rest.subrange(0, pat.len() as int) =~= s@.subrange(
                    i as int,
                    i + pat.len(),
                ));
                assert(has_prefix(rest, pat@));
                assert(rest.skip(pat.len() as int) =~= s@.skip(i + pat.len()));
            }
            i = i + pat.len();
        } else {
            proof {
                if pat.len() > 0 && rest.len() >= pat.len() {
                    assert(rest.subrange(0, pat.len() as int) =~= s@.subrange(
                        i as int,
                        i + pat.len(),
                    ));
                    assert(!has_prefix(rest, pat@));
                }
                assert(rest.skip(1) =~= s@.skip(i + 1));
                assert(rest[0] == s@[i as int]);
                if pat.len() == 0 || rest.len() < pat.len() {
                    lemma_removed_short(rest, pat@);
                    lemma_removed_short(rest.skip(1), pat@);
                    assert(rest =~= seq![rest[0]] + rest.skip(1));
                }
                assert(out@.push(s@[i as int]) + removed(rest.skip(1), pat@) =~= out@ + (seq![
                    rest[0],
                ] + removed(rest.skip(1), pat@)));
            }
            out.push(s[i]);
            i = i + 1;
        }
    }
    proof {
        assert(s@.skip(s.len() as int) =~= Seq::<char>::empty());
        assert(out@ + Seq::<char>::empty() =~= out@);
    }
    out
}

/// Nothing is removed from a text that is shorter than the pattern, nor by
/// an empty pattern.
pub proof fn lemma_removed_short(s: Seq<char>, pat: Seq<char>)
    requires
        pat.len() == 0 || s.len() < pat.len(),
    ensures
        removed(s, pat) == s,
{
}

} // verus!
