//! Text helpers: trimming, joining, searching, ordering and decimal numbers.

use vstd::prelude::*;
use vstd::string::*;

verus! {

/// The character has the Unicode property `White_Space`.
pub open spec fn white_space(c: char) -> bool {
    ||| '\u{9}' <= c <= '\u{d}'
    ||| c == ' '
    ||| c == '\u{85}'
    ||| c == '\u{a0}'
    ||| c == '\u{1680}'
    ||| '\u{2000}' <= c <= '\u{200a}'
    ||| c == '\u{2028}'
    ||| c == '\u{2029}'
    ||| c == '\u{202f}'
    ||| c == '\u{205f}'
    ||| c == '\u{3000}'
}

/// The character is an ASCII letter or digit.
pub open spec fn ascii_alphanumeric(c: char) -> bool {
    '0' <= c <= '9' || 'A' <= c <= 'Z' || 'a' <= c <= 'z'
}

/// Whether a character beyond ASCII is alphabetic or numeric, as `char::is_alphanumeric` decides.
pub uninterp spec fn unicode_alphanumeric(c: char) -> bool;

/// The character is alphabetic or numeric.
pub open spec fn alphanumeric(c: char) -> bool {
    if c <= '\u{7f}' {
        ascii_alphanumeric(c)
    } else {
        unicode_alphanumeric(c)
    }
}

/// A character with an ASCII capital in lower case.
pub open spec fn ascii_lower(c: char) -> char {
    if 'A' <= c <= 'Z' {
        (c as u32 + 32) as char
    } else {
        c
    }
}

/// Every character is ASCII.
pub open spec fn all_ascii(s: Seq<char>) -> bool {
    forall|i: int| 0 <= i < s.len() ==> #[trigger] s[i] <= '\u{7f}'
}

/// The lower-case form that `str::to_lowercase` gives of a text that is not ASCII alone.
pub uninterp spec fn unicode_lower_case(s: Seq<char>) -> Seq<char>;

/// The lower-case form of a text. In ASCII it changes the capitals only.
pub open spec fn lower_case(s: Seq<char>) -> Seq<char> {
    if all_ascii(s) {
        s.map_values(|c: char| ascii_lower(c))
    } else {
        unicode_lower_case(s)
    }
}

/// `char::is_whitespace` tells whether a character has the Unicode property `White_Space`.
pub assume_specification[ char::is_whitespace ](c: char) -> (r: bool)
    ensures
        r == white_space(c),
;

/// `char::is_alphanumeric` tells whether a character is alphabetic or numeric. In the ASCII range
/// these are the letters and the digits.
pub assume_specification[ char::is_alphanumeric ](c: char) -> (r: bool)
    ensures
        r == if c <= '\u{7f}' { ascii_alphanumeric(c) } else { unicode_alphanumeric(c) },
;

/// `str::to_lowercase` gives the lower-case form of a text, which depends on the text alone. Each
/// character becomes one or more, so that a text that is not empty stays so, and an ASCII text
/// changes in its capitals only.
pub assume_specification[ str::to_lowercase ](s: &str) -> (r: String)
    ensures
        r@ == if all_ascii(s@) { lower_case(s@) } else { unicode_lower_case(s@) },
        s@.len() > 0 ==> r@.len() > 0,
;

/// `String::push` puts one character behind the text.
pub assume_specification[ String::push ](s: &mut String, c: char)
    ensures
        final(s)@ == old(s)@.push(c),
;

/// The view of an optional text.
pub open spec fn opt_text(value: Option<String>) -> Option<Seq<char>> {
    match value {
        Some(text) => Some(text@),
        None => None,
    }
}

/// The views of a list of texts.
pub open spec fn texts(values: Seq<String>) -> Seq<Seq<char>> {
    values.map_values(|value: String| value@)
}

/// Every character is white space.
pub open spec fn blank(s: Seq<char>) -> bool {
    forall|i: int| 0 <= i < s.len() ==> white_space(#[trigger] s[i])
}

/// `s` without its leading white space.
pub open spec fn trim_start(s: Seq<char>) -> Seq<char>
    decreases s.len(),
{
    if s.len() > 0 && white_space(s[0]) {
        trim_start(s.subrange(1, s.len() as int))
    } else {
        s
    }
}

/// `s` without its trailing white space.
pub open spec fn trim_end(s: Seq<char>) -> Seq<char>
    decreases s.len(),
{
    if s.len() > 0 && white_space(s.last()) {
        trim_end(s.drop_last())
    } else {
        s
    }
}

/// `s` without white space at either end.
pub open spec fn trimmed(s: Seq<char>) -> Seq<char> {
    trim_end(trim_start(s))
}

/// A text is blank exactly where trimming leaves nothing.
pub proof fn blank_means_trimmed_away(s: Seq<char>)
    ensures
        blank(s) <==> trimmed(s).len() == 0,
{
    trim_start_keeps_visible(s);
    trim_end_keeps_visible(trim_start(s));
}

proof fn trim_start_keeps_visible(s: Seq<char>)
    ensures
        blank(s) <==> blank(trim_start(s)),
        blank(s) ==> trim_start(s).len() == 0,
    decreases s.len(),
{
    if s.len() > 0 && white_space(s[0]) {
        let rest = s.subrange(1, s.len() as int);
        trim_start_keeps_visible(rest);
        if blank(s) {
            assert forall|i: int| 0 <= i < rest.len() implies white_space(#[trigger] rest[i]) by {
                assert(rest[i] == s[i + 1]);
            }
        }
        if blank(rest) {
            assert forall|i: int| 0 <= i < s.len() implies white_space(#[trigger] s[i]) by {
                if i > 0 {
                    assert(rest[i - 1] == s[i]);
                }
            }
        }
    }
}

proof fn trim_end_keeps_visible(s: Seq<char>)
    ensures
        blank(s) ==> trim_end(s).len() == 0,
        trim_end(s).len() == 0 ==> blank(s),
    decreases s.len(),
{
    if s.len() > 0 && white_space(s.last()) {
        let rest = s.drop_last();
        trim_end_keeps_visible(rest);
        if blank(s) {
            assert forall|i: int| 0 <= i < rest.len() implies white_space(#[trigger] rest[i]) by {
                assert(rest[i] == s[i]);
            }
        }
        if blank(rest) {
            assert forall|i: int| 0 <= i < s.len() implies white_space(#[trigger] s[i]) by {
                if i < rest.len() {
                    assert(rest[i] == s[i]);
                }
            }
        }
    } else if s.len() > 0 {
        assert(s.last() == s[s.len() - 1]);
    }
}

/// The characters of a text.
pub fn to_chars(s: &str) -> (r: Vec<char>)
    ensures
        r@ == s@,
{
    let mut out: Vec<char> = Vec::new();
    for c in it: s.chars()
        invariant
            out@ == it.seq().take(it.index() as int),
            it.seq() == s@,
    {
        out.push(c);
    }
    out
}

/// The text that a range of characters spells.
pub fn from_chars(chars: &Vec<char>, start: usize, end: usize) -> (r: String)
    requires
        start <= end <= chars@.len(),
    ensures
        r@ == chars@.subrange(start as int, end as int),
{
    let mut out = String::new();
    let mut i: usize = start;
    while i < end
        invariant
            start <= i <= end <= chars@.len(),
            out@ == chars@.subrange(start as int, i as int),
        decreases end - i,
    {
        out.push(chars[i]);
        i += 1;
        assert(out@ =~= chars@.subrange(start as int, i as int));
    }
    out
}

/// Two texts, one behind the other.
pub fn concat(first: &str, second: &str) -> (r: String)
    ensures
        r@ == first@ + second@,
{
    let mut out = first.to_owned();
    out.append(second);
    out
}

/// Three texts, one behind the other.
pub fn concat3(first: &str, second: &str, third: &str) -> (r: String)
    ensures
        r@ == first@ + second@ + third@,
{
    let mut out = first.to_owned();
    out.append(second);
    out.append(third);
    out
}

/// Tells whether two lists of texts are the same.
pub fn same_texts(left: &Vec<String>, right: &Vec<String>) -> (r: bool)
    ensures
        r == (texts(left@) == texts(right@)),
{
    if left.len() != right.len() {
        assert(texts(left@).len() != texts(right@).len());
        return false;
    }
    let mut i: usize = 0;
    while i < left.len()
        invariant
            i <= left@.len(),
            left@.len() == right@.len(),
            forall|j: int| 0 <= j < i ==> texts(left@)[j] == texts(right@)[j],
        decreases left@.len() - i,
    {
        if left[i] != right[i] {
            assert(texts(left@)[i as int] != texts(right@)[i as int]);
            return false;
        }
        i += 1;
    }
    assert(texts(left@) =~= texts(right@));
    true
}

/// Tells whether two lists of bytes are the same.
pub fn same_bytes(left: &Vec<u8>, right: &Vec<u8>) -> (r: bool)
    ensures
        r == (left@ == right@),
{
    if left.len() != right.len() {
        return false;
    }
    let mut i: usize = 0;
    while i < left.len()
        invariant
            i <= left@.len(),
            left@.len() == right@.len(),
            forall|j: int| 0 <= j < i ==> left@[j] == right@[j],
        decreases left@.len() - i,
    {
        if left[i] != right[i] {
            return false;
        }
        i += 1;
    }
    assert(left@ =~= right@);
    true
}

/// Tells whether two optional texts are the same.
pub fn same_opt_text(left: &Option<String>, right: &Option<String>) -> (r: bool)
    ensures
        r == (opt_text(*left) == opt_text(*right)),
{
    match (left, right) {
        (Some(left), Some(right)) => *left == *right,
        (None, None) => true,
        _ => false,
    }
}

/// Tells whether a text is empty or white space only.
pub fn is_blank(s: &str) -> (r: bool)
    ensures
        r == blank(s@),
{
    for c in it: s.chars()
        invariant
            it.seq() == s@,
            forall|i: int| 0 <= i < it.index() ==> white_space(#[trigger] s@[i]),
    {
        if !c.is_whitespace() {
            assert(s@[it.index() as int] == c);
            return false;
        }
    }
    true
}

/// A text without white space at either end.
pub fn trim(s: &str) -> (r: String)
    ensures
        r@ == trimmed(s@),
{
    let chars = to_chars(s);
    let mut start: usize = 0;
    proof {
        assert(chars@.subrange(0, chars@.len() as int) =~= chars@);
    }
    while start < chars.len() && chars[start].is_whitespace()
        invariant
            start <= chars@.len(),
            trim_start(chars@) == trim_start(chars@.subrange(start as int, chars@.len() as int)),
        decreases chars@.len() - start,
    {
        proof {
            let rest = chars@.subrange(start as int, chars@.len() as int);
            assert(rest.subrange(1, rest.len() as int) =~= chars@.subrange(
                start + 1,
                chars@.len() as int,
            ));
        }
        start += 1;
    }
    let mut end: usize = chars.len();
    let ghost kept = chars@.subrange(start as int, chars@.len() as int);
    while end > start && chars[end - 1].is_whitespace()
        invariant
            start <= end <= chars@.len(),
            trim_end(kept) == trim_end(chars@.subrange(start as int, end as int)),
        decreases end,
    {
        proof {
            let rest = chars@.subrange(start as int, end as int);
            assert(rest.drop_last() =~= chars@.subrange(start as int, end - 1));
        }
        end -= 1;
    }
    from_chars(&chars, start, end)
}

/// `left` comes before `right` in the order of texts: at the first place where they differ, or
/// by being a proper prefix.
pub open spec fn text_before(left: Seq<char>, right: Seq<char>) -> bool {
    exists|n: int| #[trigger] splits(left, right, n)
}

/// `left` and `right` agree on their first `n` characters and `left` then ends or has the smaller
/// character.
pub open spec fn splits(left: Seq<char>, right: Seq<char>, n: int) -> bool {
    &&& 0 <= n <= left.len()
    &&& n < right.len()
    &&& forall|i: int| 0 <= i < n ==> left[i] == right[i]
    &&& n < left.len() ==> left[n] < right[n]
}

/// Of two texts, exactly one comes first, or they are the same.
pub proof fn text_order_is_total(left: Seq<char>, right: Seq<char>)
    ensures
        text_before(left, right) || left == right || text_before(right, left),
        !(text_before(left, right) && text_before(right, left)),
        !text_before(left, left),
    decreases left.len(),
{
    if text_before(left, right) && text_before(right, left) {
        let n = choose|n: int| #[trigger] splits(left, right, n);
        let m = choose|m: int| #[trigger] splits(right, left, m);
        assert(splits(left, right, n) && splits(right, left, m));
    }
    if text_before(left, left) {
        let n = choose|n: int| #[trigger] splits(left, left, n);
        assert(splits(left, left, n));
    }
    let n = agreement(left, right);
    agreement_is_longest(left, right);
    if left.len() == n && right.len() == n {
        assert(left =~= right);
    } else if left.len() == n || (right.len() > n && left[n as int] < right[n as int]) {
        assert(splits(left, right, n as int));
    } else {
        assert(splits(right, left, n as int));
    }
}

/// The order of texts is transitive.
pub proof fn text_order_is_transitive(a: Seq<char>, b: Seq<char>, c: Seq<char>)
    requires
        text_before(a, b),
        text_before(b, c),
    ensures
        text_before(a, c),
{
    let n = choose|n: int| #[trigger] splits(a, b, n);
    let m = choose|m: int| #[trigger] splits(b, c, m);
    assert(splits(a, b, n) && splits(b, c, m));
    if n <= m {
        assert(splits(a, c, n));
    } else {
        assert(splits(a, c, m));
    }
}

/// How many characters two texts have in common at their start.
spec fn agreement(left: Seq<char>, right: Seq<char>) -> nat
    decreases left.len(),
{
    if left.len() > 0 && right.len() > 0 && left[0] == right[0] {
        1 + agreement(left.drop_first(), right.drop_first())
    } else {
        0
    }
}

proof fn agreement_is_longest(left: Seq<char>, right: Seq<char>)
    ensures
        ({
            let n = agreement(left, right);
            &&& n <= left.len()
            &&& n <= right.len()
            &&& forall|i: int| 0 <= i < n ==> left[i] == right[i]
            &&& n < left.len() && n < right.len() ==> left[n as int] != right[n as int]
        }),
    decreases left.len(),
{
    if left.len() > 0 && right.len() > 0 && left[0] == right[0] {
        agreement_is_longest(left.drop_first(), right.drop_first());
        let n = agreement(left, right);
        assert forall|i: int| 0 <= i < n implies left[i] == right[i] by {
            if i > 0 {
                assert(left.drop_first()[i - 1] == right.drop_first()[i - 1]);
            }
        }
        if n < left.len() && n < right.len() {
            assert(left.drop_first()[n - 1] != right.drop_first()[n - 1]);
        }
    }
}

/// Tells whether a text comes before another in the order of texts.
pub fn is_text_before(left: &str, right: &str) -> (r: bool)
    ensures
        r == text_before(left@, right@),
{
    let first = to_chars(left);
    let second = to_chars(right);
    let mut i: usize = 0;
    while i < first.len() && i < second.len() && first[i] == second[i]
        invariant
            i <= first@.len(),
            i <= second@.len(),
            forall|j: int| 0 <= j < i ==> first@[j] == second@[j],
        decreases first@.len() - i,
    {
        i += 1;
    }
    let r = i < second.len() && (i == first.len() || first[i] < second[i]);
    proof {
        if r {
            assert(splits(left@, right@, i as int));
        } else {
            assert forall|n: int| !#[trigger] splits(left@, right@, n) by {
                if splits(left@, right@, n) {
                    assert(n == i || n < i || n > i);
                }
            }
        }
    }
    r
}

/// The character of a decimal digit.
pub open spec fn digit(value: nat) -> char {
    (48 + value) as char
}

/// The decimal text of a number.
pub open spec fn decimal(value: nat) -> Seq<char>
    decreases value,
{
    if value < 10 {
        seq![digit(value)]
    } else {
        decimal(value / 10).push(digit(value % 10))
    }
}

/// The number that a text of decimal digits stands for.
pub open spec fn decimal_value(s: Seq<char>) -> nat
    decreases s.len(),
{
    if s.len() == 0 {
        0
    } else {
        decimal_value(s.drop_last()) * 10 + ((s.last() as nat) - 48) as nat
    }
}

/// `s` with zeros in front, up to a width.
pub open spec fn zero_padded(s: Seq<char>, width: nat) -> Seq<char> {
    if s.len() < width {
        Seq::new((width - s.len()) as nat, |i: int| '0') + s
    } else {
        s
    }
}

/// The decimal text stands for the number.
pub proof fn decimal_is_exact(value: nat)
    ensures
        decimal_value(decimal(value)) == value,
        decimal(value).len() > 0,
    decreases value,
{
    if value < 10 {
        let s = seq![digit(value)];
        assert(s.drop_last() =~= Seq::<char>::empty());
        assert(s.last() == digit(value));
        assert(decimal_value(s.drop_last()) == 0);
        assert(decimal_value(s) == value);
    } else {
        decimal_is_exact(value / 10);
        let s = decimal(value);
        assert(s.drop_last() =~= decimal(value / 10));
        assert(s.last() == digit(value % 10));
    }
}

/// Zeros in front leave the number that a text stands for.
pub proof fn padding_keeps_value(s: Seq<char>, width: nat)
    ensures
        decimal_value(zero_padded(s, width)) == decimal_value(s),
    decreases s.len(), width,
{
    if s.len() < width {
        let padded = zero_padded(s, width);
        if s.len() == 0 {
            padding_keeps_value(s, (width - 1) as nat);
            assert(padded.drop_last() =~= zero_padded(s, (width - 1) as nat));
            assert(padded.last() == '0');
        } else {
            padding_keeps_value(s.drop_last(), (width - 1) as nat);
            assert(padded.drop_last() =~= zero_padded(s.drop_last(), (width - 1) as nat));
            assert(padded.last() == s.last());
        }
    }
}

/// A power of ten.
pub open spec fn pow10(exponent: nat) -> nat
    decreases exponent,
{
    if exponent == 0 {
        1
    } else {
        10 * pow10((exponent - 1) as nat)
    }
}

/// Every character is a decimal digit.
pub open spec fn all_digits(s: Seq<char>) -> bool {
    forall|i: int| 0 <= i < s.len() ==> '0' <= #[trigger] s[i] <= '9'
}

/// The decimal text of a number is made of digits, as many as its size asks for.
pub proof fn decimal_is_digits(value: nat, width: nat)
    ensures
        all_digits(decimal(value)),
        all_digits(zero_padded(decimal(value), width)),
        value < pow10(width) && width > 0 ==> decimal(value).len() <= width,
    decreases value,
{
    if value >= 10 {
        if width > 0 {
            decimal_is_digits(value / 10, (width - 1) as nat);
            if value < pow10(width) {
                assert(value / 10 < pow10((width - 1) as nat));
                assert(width > 1) by {
                    if width == 1 {
                        assert(pow10(0) == 1);
                    }
                }
            }
        } else {
            decimal_is_digits(value / 10, 0);
        }
        let rest = decimal(value / 10);
        assert forall|i: int| 0 <= i < decimal(value).len() implies '0' <= #[trigger] decimal(
            value,
        )[i] <= '9' by {
            if i < rest.len() {
                assert(decimal(value)[i] == rest[i]);
            }
        }
    }
}

/// Of two texts of as many digits, the one that stands for the smaller number comes first, and
/// two that stand for the same number are the same.
pub proof fn digits_order_as_numbers(left: Seq<char>, right: Seq<char>)
    requires
        left.len() == right.len(),
        all_digits(left),
        all_digits(right),
    ensures
        decimal_value(left) < decimal_value(right) ==> text_before(left, right),
        decimal_value(left) == decimal_value(right) ==> left == right,
    decreases left.len(),
{
    if left.len() == 0 {
        assert(left =~= right);
    } else {
        let n = left.len() - 1;
        let a = left.drop_last();
        let b = right.drop_last();
        assert(all_digits(a)) by {
            assert forall|i: int| 0 <= i < a.len() implies '0' <= #[trigger] a[i] <= '9' by {
                assert(a[i] == left[i]);
            }
        }
        assert(all_digits(b)) by {
            assert forall|i: int| 0 <= i < b.len() implies '0' <= #[trigger] b[i] <= '9' by {
                assert(b[i] == right[i]);
            }
        }
        assert('0' <= left[n] <= '9' && '0' <= right[n] <= '9');
        digits_order_as_numbers(a, b);
        if decimal_value(a) < decimal_value(b) {
            let at = choose|at: int| #[trigger] splits(a, b, at);
            assert(splits(a, b, at));
            assert(a[at] == left[at] && b[at] == right[at]);
            assert forall|i: int| 0 <= i < at implies left[i] == right[i] by {
                assert(a[i] == left[i] && b[i] == right[i]);
            }
            assert(splits(left, right, at));
        } else if decimal_value(a) == decimal_value(b) {
            assert forall|i: int| 0 <= i < n implies left[i] == right[i] by {
                assert(a[i] == left[i] && b[i] == right[i]);
            }
            if left[n] < right[n] {
                assert(splits(left, right, n));
            }
            if left[n] == right[n] {
                assert(left =~= right);
            }
        }
    }
}

/// The decimal text of a number.
pub fn to_decimal(value: u64) -> (r: String)
    ensures
        r@ == decimal(value as nat),
    decreases value,
{
    let last = (48 + (value % 10) as u8) as char;
    if value < 10 {
        let mut out = String::new();
        out.push(last);
        assert(out@ =~= decimal(value as nat));
        out
    } else {
        let mut out = to_decimal(value / 10);
        out.push(last);
        out
    }
}

/// The decimal text of a number with zeros in front, up to a width.
pub fn to_padded_decimal(value: u64, width: usize) -> (r: String)
    ensures
        r@ == zero_padded(decimal(value as nat), width as nat),
{
    let digits = to_decimal(value);
    let length = to_chars(digits.as_str()).len();
    let mut out = String::new();
    let mut i: usize = length;
    while i < width
        invariant
            length <= i,
            i <= width || i == length,
            out@ == Seq::new((i - length) as nat, |j: int| '0'),
        decreases width - i,
    {
        out.push('0');
        i += 1;
        assert(out@ =~= Seq::new((i - length) as nat, |j: int| '0'));
    }
    out.append(digits.as_str());
    assert(out@ =~= zero_padded(decimal(value as nat), width as nat));
    out
}

/// A text with a separator between its parts.
pub open spec fn joined(parts: Seq<Seq<char>>, separator: Seq<char>) -> Seq<char>
    decreases parts.len(),
{
    if parts.len() == 0 {
        Seq::empty()
    } else if parts.len() == 1 {
        parts[0]
    } else {
        joined(parts.drop_last(), separator) + separator + parts.last()
    }
}

/// The parts with a separator between them.
pub fn join(parts: &Vec<String>, separator: &str) -> (r: String)
    ensures
        r@ == joined(texts(parts@), separator@),
{
    let mut out = String::new();
    let mut i: usize = 0;
    assert(out@ =~= joined(texts(parts@).take(0), separator@));
    while i < parts.len()
        invariant
            i <= parts@.len(),
            out@ == joined(texts(parts@).take(i as int), separator@),
        decreases parts@.len() - i,
    {
        let ghost before = out@;
        if i > 0 {
            out.append(separator);
        }
        out.append(parts[i].as_str());
        proof {
            let next = texts(parts@).take(i + 1);
            assert(next.drop_last() =~= texts(parts@).take(i as int));
            assert(next.last() == parts@[i as int]@);
            if i == 0 {
                assert(out@ =~= next[0]);
            } else {
                assert(out@ =~= before + separator@ + next.last());
            }
        }
        i += 1;
    }
    assert(texts(parts@).take(i as int) =~= texts(parts@));
    out
}

/// `needle` stands in `hay` at a place.
pub open spec fn occurs_at(hay: Seq<char>, needle: Seq<char>, at: int) -> bool {
    0 <= at && at + needle.len() <= hay.len() && hay.subrange(at, at + needle.len()) == needle
}

/// `needle` stands in `hay` at a place and at none before it.
pub open spec fn first_at(hay: Seq<char>, needle: Seq<char>, at: int) -> bool {
    occurs_at(hay, needle, at) && forall|i: int| 0 <= i < at ==> !#[trigger] occurs_at(hay, needle, i)
}

/// The first place of `needle` in `hay`.
pub open spec fn first_place(hay: Seq<char>, needle: Seq<char>) -> Option<int> {
    if exists|at: int| first_at(hay, needle, at) {
        Some(choose|at: int| first_at(hay, needle, at))
    } else {
        None
    }
}

/// There is one first place.
pub proof fn first_place_is(hay: Seq<char>, needle: Seq<char>, at: int)
    requires
        first_at(hay, needle, at),
    ensures
        first_place(hay, needle) == Some(at),
{
    let other = choose|other: int| first_at(hay, needle, other);
    assert(first_at(hay, needle, other));
    if other < at {
        assert(!occurs_at(hay, needle, other));
    } else if at < other {
        assert(!occurs_at(hay, needle, at));
    }
}

fn stands_at(hay: &Vec<char>, needle: &Vec<char>, at: usize) -> (r: bool)
    requires
        at + needle@.len() <= hay@.len(),
    ensures
        r == occurs_at(hay@, needle@, at as int),
{
    let ghost part = hay@.subrange(at as int, at + needle@.len());
    let length = hay.len();
    let mut i: usize = 0;
    while i < needle.len()
        invariant
            i <= needle@.len(),
            length == hay@.len(),
            at + needle@.len() <= length,
            part == hay@.subrange(at as int, at + needle@.len()),
            forall|j: int| 0 <= j < i ==> part[j] == needle@[j],
        decreases needle@.len() - i,
    {
        if hay[at + i] != needle[i] {
            assert(part[i as int] != needle@[i as int]);
            return false;
        }
        i += 1;
    }
    assert(part =~= needle@);
    true
}

/// The first place of one list of characters in another.
pub fn find_chars(hay: &Vec<char>, needle: &Vec<char>) -> (r: Option<usize>)
    ensures
        match r {
            Some(at) => first_place(hay@, needle@) == Some(at as int) && occurs_at(
                hay@,
                needle@,
                at as int,
            ),
            None => first_place(hay@, needle@) is None,
        },
{
    if needle.len() > hay.len() {
        assert(forall|i: int| !first_at(hay@, needle@, i));
        return None;
    }
    let last = hay.len() - needle.len();
    let mut at: usize = 0;
    while at < last && !stands_at(hay, needle, at)
        invariant
            last == hay@.len() - needle@.len(),
            at <= last,
            forall|i: int| 0 <= i < at ==> !#[trigger] occurs_at(hay@, needle@, i),
        ensures
            at < last ==> occurs_at(hay@, needle@, at as int),
        decreases last - at,
    {
        at += 1;
    }
    if at < last || stands_at(hay, needle, at) {
        proof {
            first_place_is(hay@, needle@, at as int);
        }
        return Some(at);
    }
    proof {
        assert forall|i: int| !#[trigger] first_at(hay@, needle@, i) by {
            if first_at(hay@, needle@, i) {
                assert(occurs_at(hay@, needle@, i));
            }
        }
    }
    None
}

/// How many characters a text has.
pub fn char_count(s: &str) -> (r: usize)
    ensures
        r == s@.len(),
{
    to_chars(s).len()
}

/// The hexadecimal digit of a value below 16, in lower case.
pub open spec fn hex_digit(value: nat) -> char {
    if value < 10 {
        (48 + value) as char
    } else {
        (87 + value) as char
    }
}

/// The lower-case hexadecimal text of bytes.
pub open spec fn hex(bytes: Seq<u8>) -> Seq<char>
    decreases bytes.len(),
{
    if bytes.len() == 0 {
        Seq::empty()
    } else {
        hex(bytes.drop_last()).push(hex_digit((bytes.last() / 16) as nat)).push(
            hex_digit((bytes.last() % 16) as nat),
        )
    }
}

/// Hexadecimal text has two characters per byte.
pub proof fn hex_length(bytes: Seq<u8>)
    ensures
        hex(bytes).len() == 2 * bytes.len(),
    decreases bytes.len(),
{
    if bytes.len() > 0 {
        hex_length(bytes.drop_last());
    }
}

fn to_hex_digit(value: u8) -> (r: char)
    requires
        value < 16,
    ensures
        r == hex_digit(value as nat),
{
    if value < 10 {
        (48 + value) as char
    } else {
        (87 + value) as char
    }
}

/// The lower-case hexadecimal text of bytes.
pub fn to_hex(bytes: &Vec<u8>) -> (r: String)
    ensures
        r@ == hex(bytes@),
{
    let mut out = String::new();
    let mut i: usize = 0;
    assert(out@ =~= hex(bytes@.take(0)));
    while i < bytes.len()
        invariant
            i <= bytes@.len(),
            out@ == hex(bytes@.take(i as int)),
        decreases bytes@.len() - i,
    {
        assert(bytes@.take(i + 1).drop_last() =~= bytes@.take(i as int));
        out.push(to_hex_digit(bytes[i] / 16));
        out.push(to_hex_digit(bytes[i] % 16));
        i += 1;
    }
    assert(bytes@.take(i as int) =~= bytes@);
    out
}

/// A text comes before another where its first different character is smaller, and before every
/// text that it begins.
pub proof fn text_order_is_by_character(
    common: Seq<char>,
    left: char,
    right: char,
    a: Seq<char>,
    b: Seq<char>,
)
    requires
        left < right,
    ensures
        text_before(common.push(left) + a, common.push(right) + b),
        text_before(common, common.push(left) + a),
{
    assert(splits(common.push(left) + a, common.push(right) + b, common.len() as int));
    assert(splits(common, common.push(left) + a, common.len() as int));
}

/// Trimming removes the white space at both ends, and nothing else.
pub proof fn trimming_keeps_the_middle(before: Seq<char>, middle: Seq<char>, after: Seq<char>)
    requires
        blank(before),
        blank(after),
        middle.len() > 0,
        !white_space(middle[0]),
        !white_space(middle.last()),
    ensures
        trimmed(before + middle + after) == middle,
    decreases before.len() + after.len(),
{
    let whole = before + middle + after;
    if before.len() > 0 {
        let rest = before.subrange(1, before.len() as int);
        assert(whole[0] == before[0]);
        assert forall|i: int| 0 <= i < rest.len() implies white_space(#[trigger] rest[i]) by {
            assert(rest[i] == before[i + 1]);
        }
        assert(whole.subrange(1, whole.len() as int) =~= rest + middle + after);
        trimming_keeps_the_middle(rest, middle, after);
    } else {
        assert(whole =~= middle + after);
        assert(whole[0] == middle[0]);
        assert(trim_start(whole) == whole);
        if after.len() > 0 {
            let rest = after.drop_last();
            assert forall|i: int| 0 <= i < rest.len() implies white_space(#[trigger] rest[i]) by {
                assert(rest[i] == after[i]);
            }
            assert(whole.last() == after[after.len() - 1]);
            let shorter = before + middle + rest;
            assert(whole.drop_last() =~= shorter);
            trimming_keeps_the_middle(before, middle, rest);
            assert(shorter[0] == middle[0]);
            assert(trim_start(shorter) == shorter);
        } else {
            assert(whole =~= middle);
        }
    }
}

/// Joining puts the separator between each two parts: a list of one part is that part, and two
/// lists are joined like two parts.
pub proof fn joining_separates(
    left: Seq<Seq<char>>,
    right: Seq<Seq<char>>,
    part: Seq<char>,
    separator: Seq<char>,
)
    ensures
        joined(Seq::empty(), separator).len() == 0,
        joined(seq![part], separator) == part,
        left.len() > 0 && right.len() > 0 ==> joined(left + right, separator) == joined(
            left,
            separator,
        ) + separator + joined(right, separator),
    decreases right.len(),
{
    if left.len() > 0 && right.len() > 0 {
        let rest = right.drop_last();
        assert((left + right).drop_last() =~= left + rest);
        assert((left + right).last() == right.last());
        if rest.len() == 0 {
            assert(left + rest =~= left);
            assert(right.last() == right[0]);
        } else {
            joining_separates(left, rest, part, separator);
            assert(joined(left + right, separator) =~= joined(left, separator) + separator
                + joined(right, separator));
        }
    }
}

/// Bytes are written as two lower-case hexadecimal digits each, the higher one first.
pub proof fn bytes_are_written_as_digits(bytes: Seq<u8>, byte: u8)
    ensures
        hex(Seq::empty()).len() == 0,
        hex(bytes.push(byte)) == hex(bytes) + seq![
            hex_digit((byte / 16) as nat),
            hex_digit((byte % 16) as nat),
        ],
        hex_digit(0) == '0',
        hex_digit(9) == '9',
        hex_digit(10) == 'a',
        hex_digit(15) == 'f',
{
    assert(bytes.push(byte).drop_last() =~= bytes);
    assert(hex(bytes.push(byte)) =~= hex(bytes) + seq![
        hex_digit((byte / 16) as nat),
        hex_digit((byte % 16) as nat),
    ]);
}

} // verus!
