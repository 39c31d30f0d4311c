//! Text as a sequence of characters: white space, search, comparison and decimal numbers.

use vstd::prelude::*;
use vstd::string::*;

verus! {

/// The characters with the Unicode property `White_Space`.
pub open spec fn is_white(c: char) -> bool {
    let u = c as u32;
    ||| 0x09 <= u <= 0x0d
    ||| u == 0x20
    ||| u == 0x85
    ||| u == 0xa0
    ||| u == 0x1680
    ||| 0x2000 <= u <= 0x200a
    ||| u == 0x2028
    ||| u == 0x2029
    ||| u == 0x202f
    ||| u == 0x205f
    ||| u == 0x3000
}

/// Whether a text holds white space only.
pub open spec fn is_blank(s: Seq<char>) -> bool {
    forall|i: int| 0 <= i < s.len() ==> is_white(#[trigger] s[i])
}

/// A text without the white space at its front.
pub open spec fn trim_start(s: Seq<char>) -> Seq<char>
    decreases s.len(),
{
    if s.len() > 0 && is_white(s[0]) {
        trim_start(s.drop_first())
    } else {
        s
    }
}

/// A text without the white space at its back.
pub open spec fn trim_end(s: Seq<char>) -> Seq<char>
    decreases s.len(),
{
    if s.len() > 0 && is_white(s.last()) {
        trim_end(s.drop_last())
    } else {
        s
    }
}

/// A text without the white space at either end.
pub open spec fn trim(s: Seq<char>) -> Seq<char> {
    trim_end(trim_start(s))
}

/// The characters before the first white space.
pub open spec fn leading_word(s: Seq<char>) -> Seq<char>
    decreases s.len(),
{
    if s.len() > 0 && !is_white(s[0]) {
        seq![s[0]] + leading_word(s.drop_first())
    } else {
        seq![]
    }
}

/// The first of the words that white space separates.
pub open spec fn first_word(s: Seq<char>) -> Option<Seq<char>> {
    let word = leading_word(trim_start(s));
    if word.len() == 0 {
        None
    } else {
        Some(word)
    }
}

/// Whether `needle` stands in `s` at `i`.
pub open spec fn occurs_at(s: Seq<char>, needle: Seq<char>, i: int) -> bool {
    &&& 0 <= i
    &&& i + needle.len() <= s.len()
    &&& s.subrange(i, i + needle.len()) == needle
}

/// The first place, from `from` on, where `needle` stands in `s`.
pub open spec fn find_from(s: Seq<char>, needle: Seq<char>, from: int) -> Option<int>
    decreases s.len() - from + 1,
{
    if from + needle.len() > s.len() {
        None
    } else if occurs_at(s, needle, from) {
        Some(from)
    } else {
        find_from(s, needle, from + 1)
    }
}

/// The first place where `needle` stands in `s`.
pub open spec fn find(s: Seq<char>, needle: Seq<char>) -> Option<int> {
    find_from(s, needle, 0)
}

/// An ASCII capital as a small letter; any other character as it is.
pub open spec fn ascii_lower(c: char) -> char {
    if 'A' <= c && c <= 'Z' {
        ((c as u32 + 32) as u32) as char
    } else {
        c
    }
}

/// A text with its ASCII capitals as small letters.
pub open spec fn ascii_lowercase(s: Seq<char>) -> Seq<char> {
    s.map_values(|c: char| ascii_lower(c))
}

/// Whether a text ends in `tail`.
pub open spec fn ends_with(s: Seq<char>, tail: Seq<char>) -> bool {
    tail.len() <= s.len() && s.subrange(s.len() - tail.len(), s.len() as int) == tail
}

/// The length of a text in UTF-8.
pub open spec fn byte_len(s: Seq<char>) -> u64 {
    (vstd::utf8::encode_utf8(s).len() as usize) as u64
}

/// The decimal digit of a number below ten.
pub open spec fn digit(d: nat) -> char {
    if d == 0 {
        '0'
    } else if d == 1 {
        '1'
    } else if d == 2 {
        '2'
    } else if d == 3 {
        '3'
    } else if d == 4 {
        '4'
    } else if d == 5 {
        '5'
    } else if d == 6 {
        '6'
    } else if d == 7 {
        '7'
    } else if d == 8 {
        '8'
    } else {
        '9'
    }
}

/// A natural number in decimal.
pub open spec fn decimal(n: nat) -> Seq<char>
    decreases n,
{
    if n < 10 {
        seq![digit(n)]
    } else {
        decimal(n / 10).push(digit(n % 10))
    }
}

/// An integer in decimal, with a minus sign where it is negative.
pub open spec fn decimal_int(i: int) -> Seq<char> {
    if i < 0 {
        "-"@ + decimal((-i) as nat)
    } else {
        decimal(i as nat)
    }
}

/// A natural number in decimal with a comma before each group of three digits.
pub open spec fn grouped(n: nat) -> Seq<char>
    decreases n,
{
    if n < 1000 {
        decimal(n)
    } else {
        grouped(n / 1000) + ","@ + seq![
            digit((n / 100) % 10),
            digit((n / 10) % 10),
            digit(n % 10),
        ]
    }
}

/// The order of texts, by their first differing character.
pub open spec fn text_lt(a: Seq<char>, b: Seq<char>) -> bool
    decreases a.len(),
{
    if b.len() == 0 {
        false
    } else if a.len() == 0 {
        true
    } else if a[0] != b[0] {
        a[0] < b[0]
    } else {
        text_lt(a.drop_first(), b.drop_first())
    }
}

/// Whether a character is white space.
pub fn is_whitespace(c: char) -> (r: bool)
    ensures
        r == is_white(c),
{
    let u: u32 = c as u32;
    (0x09 <= u && u <= 0x0d) || u == 0x20 || u == 0x85 || u == 0xa0 || u == 0x1680 || (0x2000 <= u
        && u <= 0x200a) || u == 0x2028 || u == 0x2029 || u == 0x202f || u == 0x205f || u == 0x3000
}

/// The characters of a text.
pub fn chars_of(s: &str) -> (r: Vec<char>)
    ensures
        r@ == s@,
{
    let mut out: Vec<char> = Vec::new();
    for c in it: s.chars()
        invariant
            it.seq() == s@,
            out@ == s@.take(it.index() as int),
    {
        out.push(c);
    }
    assert(s@.take(s@.len() as int) =~= s@);
    out
}

/// Whether a text holds white space only.
pub fn blank(s: &str) -> (r: bool)
    ensures
        r == is_blank(s@),
{
    let chars = chars_of(s);
    let mut i: usize = 0;
    while i < chars.len()
        invariant
            i <= chars@.len(),
            chars@ == s@,
            forall|j: int| 0 <= j < i ==> is_white(#[trigger] s@[j]),
        decreases chars@.len() - i,
    {
        if !is_whitespace(chars[i]) {
            return false;
        }
        i += 1;
    }
    true
}

/// A text without the white space at either end.
pub fn trimmed(s: &str) -> (r: String)
    ensures
        r@ == trim(s@),
{
    let chars = chars_of(s);
    let n: usize = chars.len();
    let mut a: usize = 0;
    assert(s@.skip(0) =~= s@);
    while a < n && is_whitespace(chars[a])
        invariant
            a <= n == chars@.len(),
            chars@ == s@,
            trim_start(s@) == trim_start(s@.skip(a as int)),
        decreases n - a,
    {
        assert(s@.skip(a as int).drop_first() =~= s@.skip(a + 1));
        a += 1;
    }
    assert(trim_start(s@) == s@.skip(a as int));
    let mut b: usize = n;
    assert(s@.skip(a as int) =~= s@.subrange(a as int, b as int));
    while b > a && is_whitespace(chars[b - 1])
        invariant
            a <= b <= n == chars@.len(),
            chars@ == s@,
            trim(s@) == trim_end(s@.subrange(a as int, b as int)),
        decreases b,
    {
        assert(s@.subrange(a as int, b as int).drop_last() =~= s@.subrange(a as int, b - 1));
        b -= 1;
    }
    s.substring_char(a, b).to_owned()
}

/// The first of the words that white space separates.
pub fn first_word_of(s: &str) -> (r: Option<String>)
    ensures
        match r {
            Some(word) => first_word(s@) == Some(word@),
            None => first_word(s@) is None,
        },
{
    let chars = chars_of(s);
    let n: usize = chars.len();
    let mut a: usize = 0;
    assert(s@.skip(0) =~= s@);
    while a < n && is_whitespace(chars[a])
        invariant
            a <= n == chars@.len(),
            chars@ == s@,
            trim_start(s@) == trim_start(s@.skip(a as int)),
        decreases n - a,
    {
        assert(s@.skip(a as int).drop_first() =~= s@.skip(a + 1));
        a += 1;
    }
    let ghost rest = s@.skip(a as int);
    let mut b: usize = a;
    assert(s@.subrange(a as int, a as int) + leading_word(rest) =~= leading_word(rest));
    while b < n && !is_whitespace(chars[b])
        invariant
            a <= b <= n == chars@.len(),
            chars@ == s@,
            rest == s@.skip(a as int),
            leading_word(rest) == s@.subrange(a as int, b as int) + leading_word(
                s@.skip(b as int),
            ),
        decreases n - b,
    {
        assert(s@.skip(b as int).drop_first() =~= s@.skip(b + 1));
        assert(s@.subrange(a as int, b as int) + (seq![s@[b as int]] + leading_word(s@.skip(b + 1)))
            =~= s@.subrange(a as int, b + 1) + leading_word(s@.skip(b + 1)));
        b += 1;
    }
    assert(leading_word(rest) =~= s@.subrange(a as int, b as int));
    if a == b {
        None
    } else {
        Some(s.substring_char(a, b).to_owned())
    }
}

/// Whether `needle` stands in `s` at `i`.
fn stands_at(s: &Vec<char>, needle: &Vec<char>, i: usize) -> (r: bool)
    requires
        i + needle@.len() <= s@.len(),
    ensures
        r == occurs_at(s@, needle@, i as int),
{
    let n: usize = s.len();
    let mut j: usize = 0;
    while j < needle.len()
        invariant
            j <= needle@.len(),
            i + needle@.len() <= s@.len() == n,
            forall|k: int| 0 <= k < j ==> s@[i + k] == #[trigger] needle@[k],
        decreases needle@.len() - j,
    {
        if s[i + j] != needle[j] {
            assert(s@.subrange(i as int, i + needle@.len())[j as int] != needle@[j as int]);
            return false;
        }
        j += 1;
    }
    assert(s@.subrange(i as int, i + needle@.len()) =~= needle@);
    true
}

/// The first place, from `from` on, where `needle` stands in `s`.
pub fn find_in(s: &Vec<char>, needle: &Vec<char>, from: usize) -> (r: Option<usize>)
    ensures
        match r {
            Some(i) => find_from(s@, needle@, from as int) == Some(i as int),
            None => find_from(s@, needle@, from as int) is None,
        },
        r matches Some(i) ==> from <= i && occurs_at(s@, needle@, i as int),
{
    if needle.len() > s.len() {
        return None;
    }
    let last: usize = s.len() - needle.len();
    let mut i: usize = from;
    while i <= last
        invariant
            last == s@.len() - needle@.len(),
            from <= i,
            i <= last + 1 || i == from,
            find_from(s@, needle@, from as int) == find_from(s@, needle@, i as int),
        decreases last + 1 - i,
    {
        if stands_at(s, needle, i) {
            return Some(i);
        }
        if i == last {
            assert(find_from(s@, needle@, i + 1) is None);
            return None;
        }
        i += 1;
    }
    None
}

/// Whether a text, with its ASCII capitals as small letters, is `lower`.
pub fn equals_lowercased(s: &str, lower: &str) -> (r: bool)
    ensures
        r == (ascii_lowercase(s@) == lower@),
{
    let chars = chars_of(s);
    let want = chars_of(lower);
    if chars.len() != want.len() {
        assert(ascii_lowercase(s@).len() != lower@.len());
        return false;
    }
    lowercased_tail_is(&chars, &want)
}

/// Whether a text, with its ASCII capitals as small letters, ends in `lower`.
pub fn ends_with_lowercased(s: &str, lower: &str) -> (r: bool)
    ensures
        r == ends_with(ascii_lowercase(s@), lower@),
{
    let chars = chars_of(s);
    let want = chars_of(lower);
    if chars.len() < want.len() {
        return false;
    }
    lowercased_tail_is(&chars, &want)
}

/// An ASCII capital as a small letter; any other character as it is.
fn lower_char(c: char) -> (r: char)
    ensures
        r == ascii_lower(c),
{
    if 'A' <= c && c <= 'Z' {
        let u: u32 = c as u32;
        let b: u8 = (u + 32) as u8;
        b as char
    } else {
        c
    }
}

/// Compares the end of `chars`, with small letters, to `want`.
fn lowercased_tail_is(chars: &Vec<char>, want: &Vec<char>) -> (r: bool)
    requires
        want@.len() <= chars@.len(),
    ensures
        r == ends_with(ascii_lowercase(chars@), want@),
        chars@.len() == want@.len() ==> r == (ascii_lowercase(chars@) == want@),
{
    let n: usize = chars.len();
    let start: usize = n - want.len();
    let ghost low = ascii_lowercase(chars@);
    let ghost tail = low.subrange(start as int, low.len() as int);
    assert(start == 0 ==> tail =~= low);
    let mut i: usize = 0;
    while i < want.len()
        invariant
            i <= want@.len(),
            start + want@.len() == chars@.len() == n,
            low == ascii_lowercase(chars@),
            tail == low.subrange(start as int, low.len() as int),
            start == 0 ==> tail == low,
            forall|k: int| 0 <= k < i ==> tail[k] == #[trigger] want@[k],
        decreases want@.len() - i,
    {
        if lower_char(chars[start + i]) != want[i] {
            assert(tail[i as int] != want@[i as int]);
            return false;
        }
        i += 1;
    }
    assert(tail =~= want@);
    true
}

/// The text of one decimal digit.
fn digit_text(d: u64) -> (r: &'static str)
    requires
        d < 10,
    ensures
        r@ == seq![digit(d as nat)],
{
    proof {
        reveal_strlit("0");
        reveal_strlit("1");
        reveal_strlit("2");
        reveal_strlit("3");
        reveal_strlit("4");
        reveal_strlit("5");
        reveal_strlit("6");
        reveal_strlit("7");
        reveal_strlit("8");
        reveal_strlit("9");
    }
    let r: &'static str = if d == 0 {
        "0"
    } else if d == 1 {
        "1"
    } else if d == 2 {
        "2"
    } else if d == 3 {
        "3"
    } else if d == 4 {
        "4"
    } else if d == 5 {
        "5"
    } else if d == 6 {
        "6"
    } else if d == 7 {
        "7"
    } else if d == 8 {
        "8"
    } else {
        "9"
    };
    assert(r@ =~= seq![digit(d as nat)]);
    r
}

/// A natural number in decimal.
pub fn decimal_u64(n: u64) -> (r: String)
    ensures
        r@ == decimal(n as nat),
    decreases n,
{
    if n < 10 {
        digit_text(n).to_owned()
    } else {
        let mut r = decimal_u64(n / 10);
        let ghost front = r@;
        r.append(digit_text(n % 10));
        assert(r@ =~= front.push(digit((n % 10) as nat)));
        r
    }
}

/// An integer in decimal.
pub fn decimal_i64(i: i64) -> (r: String)
    ensures
        r@ == decimal_int(i as int),
{
    if i < 0 {
        let magnitude: u64 = (-(i as i128)) as u64;
        let mut r = "-".to_owned();
        r.append(decimal_u64(magnitude).as_str());
        r
    } else {
        decimal_u64(i as u64)
    }
}

/// A count in full, with a comma before each group of three digits.
pub fn format_int_grouped(v: u64) -> (r: String)
    ensures
        r@ == grouped(v as nat),
    decreases v,
{
    if v < 1000 {
        decimal_u64(v)
    } else {
        let mut r = format_int_grouped(v / 1000);
        let ghost front = r@;
        r.append(",");
        r.append(digit_text((v / 100) % 10));
        r.append(digit_text((v / 10) % 10));
        r.append(digit_text(v % 10));
        assert(r@ =~= front + ","@ + seq![
            digit(((v / 100) % 10) as nat),
            digit(((v / 10) % 10) as nat),
            digit((v % 10) as nat),
        ]);
        r
    }
}

/// Whether one text stands before another.
pub fn text_less(a: &str, b: &str) -> (r: bool)
    ensures
        r == text_lt(a@, b@),
{
    let x = chars_of(a);
    let y = chars_of(b);
    let mut i: usize = 0;
    assert(a@.skip(0) =~= a@ && b@.skip(0) =~= b@);
    while i < x.len() && i < y.len() && x[i] == y[i]
        invariant
            x@ == a@,
            y@ == b@,
            i <= x@.len(),
            i <= y@.len(),
            text_lt(a@, b@) == text_lt(a@.skip(i as int), b@.skip(i as int)),
        decreases x@.len() - i,
    {
        assert(a@.skip(i as int).drop_first() =~= a@.skip(i + 1));
        assert(b@.skip(i as int).drop_first() =~= b@.skip(i + 1));
        i += 1;
    }
    if i >= y.len() {
        false
    } else if i >= x.len() {
        true
    } else {
        x[i] < y[i]
    }
}

/// No text stands before itself, and no two stand before each other.
pub proof fn lemma_text_lt_antisymmetric(a: Seq<char>, b: Seq<char>)
    ensures
        !(text_lt(a, b) && text_lt(b, a)),
        a == b ==> !text_lt(a, b),
    decreases a.len(),
{
    if a.len() > 0 && b.len() > 0 && a[0] == b[0] {
        lemma_text_lt_antisymmetric(a.drop_first(), b.drop_first());
    }
}

/// Of two different texts one stands before the other.
pub proof fn lemma_text_lt_connected(a: Seq<char>, b: Seq<char>)
    requires
        !text_lt(a, b),
        a != b,
    ensures
        text_lt(b, a),
    decreases a.len(),
{
    if a.len() > 0 && b.len() > 0 && a[0] == b[0] {
        if a.drop_first() == b.drop_first() {
            assert(a =~= seq![a[0]] + a.drop_first());
            assert(b =~= seq![b[0]] + b.drop_first());
        }
        lemma_text_lt_connected(a.drop_first(), b.drop_first());
    } else if a.len() == 0 && b.len() == 0 {
        assert(a =~= b);
    }
}

/// A text that stands before another stands before all that stand behind that.
pub proof fn lemma_text_lt_transitive(a: Seq<char>, b: Seq<char>, c: Seq<char>)
    requires
        text_lt(a, b),
        text_lt(b, c),
    ensures
        text_lt(a, c),
    decreases a.len(),
{
    if a.len() > 0 && a[0] == b[0] && b[0] == c[0] {
        lemma_text_lt_transitive(a.drop_first(), b.drop_first(), c.drop_first());
    }
}

/// Digits differ where their numbers do, and are neither a colon nor a minus sign.
proof fn lemma_digit(a: nat, b: nat)
    requires
        a < 10,
        b < 10,
    ensures
        digit(a) == digit(b) ==> a == b,
        digit(a) != ':',
        digit(a) != '-',
        digit(a) != '/',
        digit(a) != '\\',
{
}

/// A decimal number is not empty and holds digits only.
pub proof fn lemma_decimal_digits(n: nat)
    ensures
        decimal(n).len() > 0,
        forall|i: int| 0 <= i < decimal(n).len() ==> #[trigger] decimal(n)[i] != ':',
        forall|i: int| 0 <= i < decimal(n).len() ==> #[trigger] decimal(n)[i] != '-',
        forall|i: int| 0 <= i < decimal(n).len() ==> #[trigger] decimal(n)[i] != '/',
        forall|i: int| 0 <= i < decimal(n).len() ==> #[trigger] decimal(n)[i] != '\\',
    decreases n,
{
    lemma_digit(n % 10, 0);
    if n >= 10 {
        lemma_decimal_digits(n / 10);
    }
}

/// A natural number can be told from its decimal form.
pub proof fn lemma_decimal_injective(a: nat, b: nat)
    requires
        decimal(a) == decimal(b),
    ensures
        a == b,
    decreases a,
{
    lemma_decimal_digits(a / 10);
    lemma_decimal_digits(b / 10);
    lemma_digit(a % 10, b % 10);
    assert(decimal(a).last() == digit(a % 10));
    assert(decimal(b).last() == digit(b % 10));
    if a >= 10 && b >= 10 {
        assert(decimal(a).drop_last() =~= decimal(a / 10));
        assert(decimal(b).drop_last() =~= decimal(b / 10));
        lemma_decimal_injective(a / 10, b / 10);
    } else if a >= 10 {
        assert(decimal(a).len() > 1);
        assert(decimal(b).len() == 1);
    } else if b >= 10 {
        assert(decimal(b).len() > 1);
        assert(decimal(a).len() == 1);
    }
}

/// An integer can be told from its decimal form, which holds no colon.
pub proof fn lemma_decimal_int_injective(a: int, b: int)
    ensures
        decimal_int(a) == decimal_int(b) ==> a == b,
        forall|i: int| 0 <= i < decimal_int(a).len() ==> #[trigger] decimal_int(a)[i] != ':',
{
    reveal_strlit("-");
    let m = if a < 0 {
        (-a) as nat
    } else {
        a as nat
    };
    let n = if b < 0 {
        (-b) as nat
    } else {
        b as nat
    };
    lemma_decimal_digits(m);
    lemma_decimal_digits(n);
    if decimal_int(a) == decimal_int(b) {
        assert(a < 0 ==> decimal_int(a)[0] == '-');
        assert(b < 0 ==> decimal_int(b)[0] == '-');
        assert(a >= 0 ==> decimal_int(a)[0] == decimal(m)[0]);
        assert(b >= 0 ==> decimal_int(b)[0] == decimal(n)[0]);
        if a < 0 {
            assert(decimal_int(a).skip(1) =~= decimal(m));
            assert(decimal_int(b).skip(1) =~= decimal(n));
        }
        lemma_decimal_injective(m, n);
    }
}

/// What stands before the first colon, and what behind it, can be told from the whole.
pub proof fn lemma_split_at_colon(a: Seq<char>, x: Seq<char>, b: Seq<char>, y: Seq<char>)
    requires
        a + ":"@ + x == b + ":"@ + y,
        forall|i: int| 0 <= i < a.len() ==> #[trigger] a[i] != ':',
        forall|i: int| 0 <= i < b.len() ==> #[trigger] b[i] != ':',
    ensures
        a == b,
        x == y,
{
    reveal_strlit(":");
    let s = a + ":"@ + x;
    let t = b + ":"@ + y;
    assert(s[a.len() as int] == ':');
    assert(t[b.len() as int] == ':');
    if a.len() < b.len() {
        assert(t[a.len() as int] == b[a.len() as int]);
    }
    if b.len() < a.len() {
        assert(s[b.len() as int] == a[b.len() as int]);
    }
    assert(a =~= s.take(a.len() as int));
    assert(b =~= t.take(b.len() as int));
    assert(x =~= s.skip(a.len() as int + 1));
    assert(y =~= t.skip(b.len() as int + 1));
}

/// A text without its commas.
pub open spec fn without_commas(s: Seq<char>) -> Seq<char>
    decreases s.len(),
{
    if s.len() == 0 {
        seq![]
    } else if s.last() == ',' {
        without_commas(s.drop_last())
    } else {
        without_commas(s.drop_last()).push(s.last())
    }
}

proof fn lemma_digits_without_commas(n: nat)
    ensures
        without_commas(decimal(n)) == decimal(n),
    decreases n,
{
    reveal_with_fuel(without_commas, 2);
    if n < 10 {
        assert(decimal(n).drop_last() =~= Seq::<char>::empty());
        assert(without_commas(decimal(n)) =~= decimal(n));
    } else {
        lemma_digits_without_commas(n / 10);
        assert(decimal(n).drop_last() =~= decimal(n / 10));
    }
}

/// The commas of a grouped number are all that tells it from the number in full: no digit is left
/// out.
pub proof fn grouping_only_adds_commas(n: nat)
    ensures
        without_commas(grouped(n)) == decimal(n),
    decreases n,
{
    if n < 1000 {
        lemma_digits_without_commas(n);
    } else {
        grouping_only_adds_commas(n / 1000);
        reveal_strlit(",");
        let a = digit((n / 100) % 10);
        let b = digit((n / 10) % 10);
        let c = digit(n % 10);
        let front = grouped(n / 1000) + ","@;
        let s = front + seq![a, b, c];
        assert(front.drop_last() =~= grouped(n / 1000));
        assert(without_commas(front) == decimal(n / 1000));
        assert(s.drop_last() =~= front + seq![a, b]);
        assert((front + seq![a, b]).drop_last() =~= front + seq![a]);
        assert((front + seq![a]).drop_last() =~= front);
        assert(without_commas(front + seq![a]) == decimal(n / 1000).push(a));
        assert(without_commas(front + seq![a, b]) == decimal(n / 1000).push(a).push(b));
        assert(n / 10 / 10 == n / 100);
        assert(n / 100 / 10 == n / 1000);
        assert(decimal(n / 100) == decimal(n / 1000).push(a));
        assert(decimal(n / 10) == decimal(n / 100).push(b));
        assert(decimal(n) == decimal(n / 10).push(c));
    }
}

/// The number that a run of decimal digits writes.
pub open spec fn value_of(digits: Seq<char>) -> int
    decreases digits.len(),
{
    if digits.len() == 0 {
        0
    } else {
        10 * value_of(digits.drop_last()) + (digits.last() as int - '0' as int)
    }
}

/// A number in decimal is a run of digits that writes the number, without a zero in front but for
/// zero itself.
pub proof fn decimal_writes_the_number(n: nat)
    ensures
        value_of(decimal(n)) == n,
        decimal(n).len() > 0,
        forall|i: int| 0 <= i < decimal(n).len() ==> '0' <= (#[trigger] decimal(n)[i]) <= '9',
        decimal(n).len() > 1 ==> decimal(n)[0] != '0',
        n > 0 ==> decimal(n)[0] != '0',
    decreases n,
{
    reveal_with_fuel(value_of, 2);
    if n < 10 {
        assert(decimal(n).drop_last() =~= Seq::<char>::empty());
    } else {
        decimal_writes_the_number(n / 10);
        assert(decimal(n).drop_last() =~= decimal(n / 10));
        assert(decimal(n)[0] == decimal(n / 10)[0]);
        let all = decimal(n);
        assert forall|i: int| 0 <= i < all.len() implies '0' <= (#[trigger] all[i]) <= '9' by {
            if i < all.len() - 1 {
                assert(all[i] == decimal(n / 10)[i]);
            }
        }
    }
}

/// An integer in decimal is the number in decimal, behind a minus sign where it is negative.
pub proof fn negative_numbers_have_a_minus_sign(n: nat)
    ensures
        decimal_int(n as int) == decimal(n),
        n > 0 ==> decimal_int(-n) == seq!['-'] + decimal(n),
{
    reveal_strlit("-");
    assert("-"@ =~= seq!['-']);
}

/// In a grouped number a comma stands before each third digit from the end, and nowhere else; none
/// stands in front.
pub proof fn commas_part_groups_of_three(n: nat)
    ensures
        grouped(n).len() > 0,
        grouped(n)[0] != ',',
        forall|i: int|
            0 <= i < grouped(n).len() ==> ((#[trigger] grouped(n)[i] == ',') <==> (grouped(n).len()
                - 1 - i) % 4 == 3),
    decreases n,
{
    if n < 1000 {
        decimal_writes_the_number(n);
        assert(decimal(n).len() <= 3) by {
            reveal_with_fuel(decimal, 4);
        }
    } else {
        commas_part_groups_of_three(n / 1000);
        reveal_strlit(",");
        let front = grouped(n / 1000);
        let all = grouped(n);
        assert(all.len() == front.len() + 4);
        assert(all[0] == front[0]);
        assert forall|i: int| 0 <= i < all.len() implies ((#[trigger] all[i] == ',') <==> (all.len()
            - 1 - i) % 4 == 3) by {
            if i < front.len() {
                assert(all[i] == front[i]);
                assert((all.len() - 1 - i) == (front.len() - 1 - i) + 4);
            }
        }
    }
}

/// Whether two texts are the same up to `n`.
pub open spec fn same_up_to(a: Seq<char>, b: Seq<char>, n: int) -> bool {
    0 <= n <= a.len() && n <= b.len() && forall|i: int| 0 <= i < n ==> #[trigger] a[i] == b[i]
}

/// A text stands before another where, behind what they start with in common, it ends first or goes
/// on with the smaller character.
pub proof fn first_difference_orders_texts(a: Seq<char>, b: Seq<char>, n: int)
    requires
        same_up_to(a, b, n),
    ensures
        n == a.len() && n < b.len() ==> text_lt(a, b),
        n == b.len() ==> !text_lt(a, b),
        n < a.len() && n < b.len() && a[n] < b[n] ==> text_lt(a, b),
        n < a.len() && n < b.len() && a[n] > b[n] ==> !text_lt(a, b),
    decreases n,
{
    if n > 0 {
        let x = a.drop_first();
        let y = b.drop_first();
        assert(a[0] == b[0]);
        assert forall|i: int| 0 <= i < n - 1 implies #[trigger] x[i] == y[i] by {
            assert(a[i + 1] == b[i + 1]);
        }
        first_difference_orders_texts(x, y, n - 1);
    }
}

/// Whether a character is one of these.
pub open spec fn is_one_of(c: char, codes: Seq<int>) -> bool {
    codes.contains(c as int)
}

/// White space is the tab, the line and page breaks, the space, and the spaces and breaks of
/// Unicode.
pub proof fn white_space_is_listed(c: char)
    ensures
        is_white(c) <==> is_one_of(
            c,
            seq![
                0x09,
                0x0a,
                0x0b,
                0x0c,
                0x0d,
                0x20,
                0x85,
                0xa0,
                0x1680,
                0x2000,
                0x2001,
                0x2002,
                0x2003,
                0x2004,
                0x2005,
                0x2006,
                0x2007,
                0x2008,
                0x2009,
                0x200a,
                0x2028,
                0x2029,
                0x202f,
                0x205f,
                0x3000,
            ],
        ),
{
    let codes: Seq<int> = seq![
        0x09,
        0x0a,
        0x0b,
        0x0c,
        0x0d,
        0x20,
        0x85,
        0xa0,
        0x1680,
        0x2000,
        0x2001,
        0x2002,
        0x2003,
        0x2004,
        0x2005,
        0x2006,
        0x2007,
        0x2008,
        0x2009,
        0x200a,
        0x2028,
        0x2029,
        0x202f,
        0x205f,
        0x3000,
    ];
    let u = c as int;
    if is_white(c) {
        let at = if u <= 0x0d {
            u - 0x09
        } else if u == 0x20 {
            5
        } else if u == 0x85 {
            6
        } else if u == 0xa0 {
            7
        } else if u == 0x1680 {
            8
        } else if u <= 0x200a {
            9 + (u - 0x2000)
        } else if u == 0x2028 {
            20
        } else if u == 0x2029 {
            21
        } else if u == 0x202f {
            22
        } else if u == 0x205f {
            23
        } else {
            24
        };
        assert(codes[at] == u);
    }
}

/// A text is blank where no character of it is anything but white space.
pub proof fn blank_texts_hold_white_space_only(s: Seq<char>, i: int)
    requires
        0 <= i < s.len(),
        !is_white(s[i]),
    ensures
        !is_blank(s),
{
}

/// Whether `part` is what stands in `s` from `from` up to `to`.
pub open spec fn stands_between(part: Seq<char>, s: Seq<char>, from: int, to: int) -> bool {
    0 <= from <= to <= s.len() && part == s.subrange(from, to)
}

proof fn lemma_trim_start(s: Seq<char>) -> (from: int)
    ensures
        stands_between(trim_start(s), s, from, s.len() as int),
        forall|i: int| 0 <= i < from ==> is_white(#[trigger] s[i]),
        from < s.len() ==> !is_white(s[from]),
    decreases s.len(),
{
    if s.len() > 0 && is_white(s[0]) {
        let rest = s.drop_first();
        let from = lemma_trim_start(rest);
        assert forall|i: int| 0 <= i < from + 1 implies is_white(#[trigger] s[i]) by {
            if i > 0 {
                assert(rest[i - 1] == s[i]);
            }
        }
        if from < rest.len() {
            assert(rest[from] == s[from + 1]);
        }
        assert(rest.subrange(from, rest.len() as int) =~= s.subrange(from + 1, s.len() as int));
        from + 1
    } else {
        assert(s.subrange(0, s.len() as int) =~= s);
        0
    }
}

proof fn lemma_trim_end(s: Seq<char>) -> (to: int)
    ensures
        stands_between(trim_end(s), s, 0, to),
        forall|i: int| to <= i < s.len() ==> is_white(#[trigger] s[i]),
        to > 0 ==> !is_white(s[to - 1]),
    decreases s.len(),
{
    if s.len() > 0 && is_white(s.last()) {
        let rest = s.drop_last();
        let to = lemma_trim_end(rest);
        assert forall|i: int| to <= i < s.len() implies is_white(#[trigger] s[i]) by {
            if i < rest.len() {
                assert(rest[i] == s[i]);
            }
        }
        if to > 0 {
            assert(rest[to - 1] == s[to - 1]);
        }
        assert(rest.subrange(0, to) =~= s.subrange(0, to));
        to
    } else {
        assert(s.subrange(0, s.len() as int) =~= s);
        s.len() as int
    }
}

/// A trimmed text is what is left when the white space at both ends is taken off, and no more.
pub proof fn trimming_takes_off_white_space_only(s: Seq<char>)
    ensures
        exists|from: int, to: int|
            {
                &&& #[trigger] stands_between(trim(s), s, from, to)
                &&& forall|i: int| 0 <= i < from ==> is_white(#[trigger] s[i])
                &&& forall|i: int| to <= i < s.len() ==> is_white(#[trigger] s[i])
            },
        trim(s).len() > 0 ==> !is_white(trim(s)[0]) && !is_white(trim(s).last()),
{
    let from = lemma_trim_start(s);
    let rest = trim_start(s);
    let len = lemma_trim_end(rest);
    let to = from + len;
    assert(trim(s) =~= s.subrange(from, to));
    assert(stands_between(trim(s), s, from, to));
    assert forall|i: int| to <= i < s.len() implies is_white(#[trigger] s[i]) by {
        assert(rest[i - from] == s[i]);
    }
}

proof fn lemma_leading_word_ends(s: Seq<char>) -> (to: int)
    ensures
        stands_between(leading_word(s), s, 0, to),
        forall|i: int| 0 <= i < to ==> !is_white(#[trigger] s[i]),
        to < s.len() ==> is_white(s[to]),
    decreases s.len(),
{
    if s.len() > 0 && !is_white(s[0]) {
        let rest = s.drop_first();
        let to = lemma_leading_word_ends(rest);
        assert forall|i: int| 0 <= i < to + 1 implies !is_white(#[trigger] s[i]) by {
            if i > 0 {
                assert(rest[i - 1] == s[i]);
            }
        }
        if to < rest.len() {
            assert(rest[to] == s[to + 1]);
        }
        assert(seq![s[0]] + rest.subrange(0, to) =~= s.subrange(0, to + 1));
        to + 1
    } else {
        assert(s.subrange(0, 0) =~= Seq::<char>::empty());
        0
    }
}

/// Whether `word` stands in `s` from `from` up to `to`, behind white space only, holds none, and
/// goes up to the next.
pub open spec fn leads_between(word: Seq<char>, s: Seq<char>, from: int, to: int) -> bool {
    &&& stands_between(word, s, from, to)
    &&& forall|i: int| 0 <= i < from ==> is_white(#[trigger] s[i])
    &&& forall|i: int| from <= i < to ==> !is_white(#[trigger] s[i])
    &&& to < s.len() ==> is_white(s[to])
}

/// The first word of a text stands behind white space only, holds none, and goes up to the next; a
/// text without a word is blank.
pub proof fn first_word_is_the_first(s: Seq<char>)
    ensures
        match first_word(s) {
            Some(word) => word.len() > 0 && exists|from: int, to: int|
                leads_between(word, s, from, to),
            None => forall|i: int| 0 <= i < s.len() ==> is_white(#[trigger] s[i]),
        },
{
    let from = lemma_trim_start(s);
    let rest = trim_start(s);
    let len = lemma_leading_word_ends(rest);
    let to = from + len;
    let word = leading_word(rest);
    assert(word =~= s.subrange(from, to));
    assert(stands_between(word, s, from, to));
    assert forall|i: int| from <= i < to implies !is_white(#[trigger] s[i]) by {
        assert(rest[i - from] == s[i]);
    }
    if to < s.len() {
        assert(rest[len] == s[to]);
    }
    assert(word.len() == len);
    if len == 0 {
        if from < s.len() {
            assert(rest[0] == s[from]);
        }
        assert(from == s.len());
        assert(first_word(s) is None);
    } else {
        assert(leads_between(word, s, from, to));
        assert(first_word(s) == Some(word));
    }
}

/// A text stands in another where it agrees with it character by character.
pub proof fn occurrences_agree_by_character(s: Seq<char>, needle: Seq<char>, i: int)
    ensures
        occurs_at(s, needle, i) <==> (0 <= i && i + needle.len() <= s.len() && forall|k: int|
            0 <= k < needle.len() ==> s[i + k] == #[trigger] needle[k]),
{
    if 0 <= i && i + needle.len() <= s.len() {
        let part = s.subrange(i, i + needle.len());
        if forall|k: int| 0 <= k < needle.len() ==> s[i + k] == #[trigger] needle[k] {
            assert(part =~= needle);
        }
        if part == needle {
            assert forall|k: int| 0 <= k < needle.len() implies s[i + k] == #[trigger] needle[k] by {
                assert(part[k] == needle[k]);
            }
        }
    }
}

/// What is searched for is found at its first place, and not found where it has none.
pub proof fn search_finds_the_first_place(s: Seq<char>, needle: Seq<char>, from: int)
    requires
        0 <= from,
    ensures
        match find_from(s, needle, from) {
            Some(at) => from <= at && occurs_at(s, needle, at) && forall|i: int|
                from <= i < at ==> !#[trigger] occurs_at(s, needle, i),
            None => forall|i: int| from <= i ==> !#[trigger] occurs_at(s, needle, i),
        },
    decreases s.len() - from + 1,
{
    if from + needle.len() <= s.len() && !occurs_at(s, needle, from) {
        search_finds_the_first_place(s, needle, from + 1);
    }
}

/// Only the capitals of ASCII change: each becomes the small letter, which is 32 places behind it.
pub proof fn only_ascii_capitals_change(s: Seq<char>, i: int)
    requires
        0 <= i < s.len(),
    ensures
        ascii_lowercase(s).len() == s.len(),
        0x41 <= s[i] as u32 <= 0x5a ==> ascii_lowercase(s)[i] as u32 == s[i] as u32 + 32,
        !(0x41 <= s[i] as u32 <= 0x5a) ==> ascii_lowercase(s)[i] == s[i],
{
}

/// A text ends in another where it is that behind something.
pub proof fn endings_stand_behind_something(front: Seq<char>, tail: Seq<char>, s: Seq<char>)
    ensures
        ends_with(front + tail, tail),
        ends_with(s, tail) ==> s == s.take(s.len() - tail.len()) + tail,
{
    let s2 = front + tail;
    assert(s2.subrange(s2.len() - tail.len(), s2.len() as int) =~= tail);
    if ends_with(s, tail) {
        assert(s =~= s.take(s.len() - tail.len()) + s.subrange(
            s.len() - tail.len(),
            s.len() as int,
        ));
    }
}

/// The length of a text in bytes is that of its UTF-8 form.
pub proof fn bytes_are_those_of_utf8(s: Seq<char>)
    requires
        vstd::utf8::encode_utf8(s).len() <= usize::MAX,
    ensures
        byte_len(s) == vstd::utf8::encode_utf8(s).len(),
{
}

} // verus!
