//! Character classes and string operations, each stated over `Seq<char>`.
//!
//! Executable strings are opaque to the verifier except through their view, so
//! every helper here reads the characters once into a vector, works on that,
//! and states its result over the view of its arguments.

use vstd::prelude::*;

verus! {

/// The characters Unicode marks as `White_Space`.
pub open spec fn is_whitespace(c: char) -> bool {
    let n = c as u32;
    ||| 0x09 <= n <= 0x0D
    ||| n == 0x20
    ||| n == 0x85
    ||| n == 0xA0
    ||| n == 0x1680
    ||| 0x2000 <= n <= 0x200A
    ||| n == 0x2028
    ||| n == 0x2029
    ||| n == 0x202F
    ||| n == 0x205F
    ||| n == 0x3000
}

/// An ASCII letter of either case.
pub open spec fn is_ascii_alphabetic(c: char) -> bool {
    ('a' <= c && c <= 'z') || ('A' <= c && c <= 'Z')
}

/// An ASCII digit.
pub open spec fn is_ascii_digit(c: char) -> bool {
    '0' <= c && c <= '9'
}

/// An ASCII letter or digit.
pub open spec fn is_ascii_alphanumeric(c: char) -> bool {
    is_ascii_alphabetic(c) || is_ascii_digit(c)
}

/// Whether `c` is whitespace.
pub fn char_is_whitespace(c: char) -> (b: bool)
    ensures
        b == is_whitespace(c),
{
    let n: u32 = c as u32;
    (0x09 <= n && n <= 0x0D) || n == 0x20 || n == 0x85 || n == 0xA0 || n == 0x1680 || (0x2000
        <= n && n <= 0x200A) || n == 0x2028 || n == 0x2029 || n == 0x202F || n == 0x205F || n
        == 0x3000
}

/// Whether `c` is an ASCII letter.
pub fn char_is_ascii_alphabetic(c: char) -> (b: bool)
    ensures
        b == is_ascii_alphabetic(c),
{
    ('a' <= c && c <= 'z') || ('A' <= c && c <= 'Z')
}

/// Whether `c` is an ASCII digit.
pub fn char_is_ascii_digit(c: char) -> (b: bool)
    ensures
        b == is_ascii_digit(c),
{
    '0' <= c && c <= '9'
}

/// Whether `c` is an ASCII letter or digit.
pub fn char_is_ascii_alphanumeric(c: char) -> (b: bool)
    ensures
        b == is_ascii_alphanumeric(c),
{
    char_is_ascii_alphabetic(c) || char_is_ascii_digit(c)
}

/// The characters of `s`, in order.
pub fn to_chars(s: &str) -> (v: Vec<char>)
    ensures
        v@ == s@,
{
    let mut v: Vec<char> = Vec::new();
    for c in it: s.chars()
        invariant
            v@ == it.seq().take(it.index()),
            it.seq() == s@,
    {
        v.push(c);
    }
    v
}

/// Whether `a` and `b` hold the same characters.
pub fn str_eq(a: &str, b: &str) -> (r: bool)
    ensures
        r == (a@ == b@),
{
    a.to_owned() == b.to_owned()
}

/// `a` followed by `b`.
pub fn concat2(a: &str, b: &str) -> (r: String)
    ensures
        r@ == a@ + b@,
{
    let mut r = String::from_str(a);
    r.append(b);
    r
}

/// `a` followed by `b` and `c`.
pub fn concat3(a: &str, b: &str, c: &str) -> (r: String)
    ensures
        r@ == a@ + b@ + c@,
{
    let mut r = String::from_str(a);
    r.append(b);
    r.append(c);
    r
}

/// `s` without its leading whitespace.
pub open spec fn trim_start(s: Seq<char>) -> Seq<char>
    decreases s.len(),
{
    if s.len() > 0 && is_whitespace(s[0]) {
        trim_start(s.drop_first())
    } else {
        s
    }
}

/// `s` without its trailing whitespace.
pub open spec fn trim_end(s: Seq<char>) -> Seq<char>
    decreases s.len(),
{
    if s.len() > 0 && is_whitespace(s.last()) {
        trim_end(s.drop_last())
    } else {
        s
    }
}

/// `s` without leading and trailing whitespace.
pub open spec fn trimmed(s: Seq<char>) -> Seq<char> {
    trim_end(trim_start(s))
}

/// A string with nothing in it but whitespace.
pub open spec fn is_blank(s: Seq<char>) -> bool {
    trimmed(s).len() == 0
}

/// The bounds `(start, end)` of what `trimmed` keeps of `chars`.
pub fn trim_bounds(chars: &Vec<char>) -> (r: (usize, usize))
    ensures
        r.0 <= r.1 <= chars@.len(),
        chars@.subrange(r.0 as int, r.1 as int) == trimmed(chars@),
{
    let n = chars.len();
    let mut start: usize = 0;
    assert(chars@.subrange(0, n as int) =~= chars@);
    while start < n && char_is_whitespace(chars[start])
        invariant
            start <= n,
            n == chars@.len(),
            trim_start(chars@) == trim_start(chars@.subrange(start as int, n as int)),
        decreases n - start,
    {
        assert(chars@.subrange(start as int, n as int).drop_first() =~= chars@.subrange(
            start as int + 1,
            n as int,
        ));
        start += 1;
    }
    let mut end: usize = n;
    while end > start && char_is_whitespace(chars[end - 1])
        invariant
            start <= end <= n,
            n == chars@.len(),
            trim_end(chars@.subrange(start as int, n as int)) == trim_end(
                chars@.subrange(start as int, end as int),
            ),
        decreases end,
    {
        assert(chars@.subrange(start as int, end as int).drop_last() =~= chars@.subrange(
            start as int,
            end as int - 1,
        ));
        end -= 1;
    }
    (start, end)
}

/// `s` without the whitespace around it.
pub fn trim<'a>(s: &'a str) -> (r: &'a str)
    ensures
        r@ == trimmed(s@),
{
    let chars = to_chars(s);
    let (start, end) = trim_bounds(&chars);
    s.substring_char(start, end)
}

/// Whether `s` holds nothing but whitespace.
pub fn str_is_blank(s: &str) -> (b: bool)
    ensures
        b == is_blank(s@),
{
    let chars = to_chars(s);
    let (start, end) = trim_bounds(&chars);
    start == end
}

/// Whether `c` is among `chars`.
pub fn contains_char(chars: &Vec<char>, c: char) -> (b: bool)
    ensures
        b == chars@.contains(c),
{
    let mut i: usize = 0;
    while i < chars.len()
        invariant
            i <= chars@.len(),
            forall|k: int| 0 <= k < i ==> chars@[k] != c,
        decreases chars@.len() - i,
    {
        if chars[i] == c {
            return true;
        }
        i += 1;
    }
    false
}

/// `needle` stands in `hay` at index `i`.
pub open spec fn occurs_at(hay: Seq<char>, needle: Seq<char>, i: int) -> bool {
    0 <= i && i + needle.len() <= hay.len() && hay.subrange(i, i + needle.len()) == needle
}

/// The least index at or after `from` where `needle` stands in `hay`, or -1.
pub open spec fn find_from(hay: Seq<char>, needle: Seq<char>, from: int) -> int
    decreases hay.len() + 1 - from,
{
    if from < 0 || from + needle.len() > hay.len() {
        -1
    } else if occurs_at(hay, needle, from) {
        from
    } else {
        find_from(hay, needle, from + 1)
    }
}

/// The index of the first occurrence of `needle` in `hay`, or -1.
pub open spec fn index_of(hay: Seq<char>, needle: Seq<char>) -> int {
    find_from(hay, needle, 0)
}

/// `needle` stands somewhere in `hay`.
pub open spec fn contains_seq(hay: Seq<char>, needle: Seq<char>) -> bool {
    index_of(hay, needle) >= 0
}

/// What `find_from` returns is where `needle` first stands at or after `from`.
pub proof fn lemma_find_from(hay: Seq<char>, needle: Seq<char>, from: int)
    requires
        0 <= from,
    ensures
        find_from(hay, needle, from) == -1 || (from <= find_from(hay, needle, from)
            && occurs_at(hay, needle, find_from(hay, needle, from))),
        forall|j: int|
            from <= j && (find_from(hay, needle, from) == -1 || j < find_from(hay, needle, from))
                ==> !occurs_at(hay, needle, j),
    decreases hay.len() + 1 - from,
{
    if from + needle.len() > hay.len() {
    } else if occurs_at(hay, needle, from) {
    } else {
        lemma_find_from(hay, needle, from + 1);
    }
}

/// Whether `needle` stands in `hay` at index `i`.
pub fn matches_at(hay: &Vec<char>, needle: &Vec<char>, i: usize) -> (b: bool)
    ensures
        b == occurs_at(hay@, needle@, i as int),
{
    let n = hay.len();
    let m = needle.len();
    if m > n || i > n - m {
        return false;
    }
    let mut k: usize = 0;
    while k < m
        invariant
            k <= m,
            m == needle@.len(),
            n == hay@.len(),
            i + m <= n,
            forall|j: int| 0 <= j < k ==> hay@[i + j] == needle@[j],
        decreases m - k,
    {
        if hay[i + k] != needle[k] {
            assert(hay@.subrange(i as int, i + m)[k as int] == hay@[i + k]);
            return false;
        }
        k += 1;
    }
    assert(hay@.subrange(i as int, i + m) =~= needle@);
    true
}

/// Where `needle` first stands in `hay`.
pub fn find(hay: &Vec<char>, needle: &Vec<char>) -> (r: Option<usize>)
    ensures
        match r {
            Some(i) => i == index_of(hay@, needle@) && occurs_at(hay@, needle@, i as int),
            None => index_of(hay@, needle@) == -1,
        },
{
    let n = hay.len();
    let m = needle.len();
    if m > n {
        return None;
    }
    let mut i: usize = 0;
    while i < n - m
        invariant
            m <= n,
            n == hay@.len(),
            m == needle@.len(),
            i <= n - m,
            index_of(hay@, needle@) == find_from(hay@, needle@, i as int),
        decreases n - m - i,
    {
        if matches_at(hay, needle, i) {
            return Some(i);
        }
        i += 1;
    }
    assert(find_from(hay@, needle@, i as int + 1) == -1);
    if matches_at(hay, needle, i) {
        Some(i)
    } else {
        None
    }
}

/// Whether `needle` stands somewhere in `hay`.
pub fn str_contains(hay: &str, needle: &str) -> (b: bool)
    ensures
        b == contains_seq(hay@, needle@),
{
    let h = to_chars(hay);
    let n = to_chars(needle);
    find(&h, &n).is_some()
}

/// Whether `s` begins with `prefix`.
pub fn starts_with(s: &str, prefix: &str) -> (b: bool)
    ensures
        b == prefix@.is_prefix_of(s@),
{
    let h = to_chars(s);
    let p = to_chars(prefix);
    let b = matches_at(&h, &p, 0);
    proof {
        if b {
            assert(s@.subrange(0, p@.len() as int) == prefix@);
        }
        if prefix@.is_prefix_of(s@) {
            assert(s@.subrange(0, p@.len() as int) =~= prefix@);
        }
    }
    b
}

/// Whether `s` ends with `suffix`.
pub fn ends_with(s: &str, suffix: &str) -> (b: bool)
    ensures
        b == suffix@.is_suffix_of(s@),
{
    let h = to_chars(s);
    let p = to_chars(suffix);
    if p.len() > h.len() {
        return false;
    }
    let at = h.len() - p.len();
    let b = matches_at(&h, &p, at);
    proof {
        if suffix@.is_suffix_of(s@) {
            assert(s@.subrange(at as int, s@.len() as int) =~= suffix@);
        }
    }
    b
}

/// The decimal digits of `n`, most significant first.
pub open spec fn decimal(n: nat) -> Seq<char>
    decreases n,
{
    if n < 10 {
        seq![digit_char(n)]
    } else {
        decimal(n / 10).push(digit_char(n % 10))
    }
}

/// The character that writes the digit `d`.
pub open spec fn digit_char(d: nat) -> char {
    "0123456789"@[d as int]
}

/// `n` in decimal digits.
pub fn to_decimal(n: u64) -> (r: String)
    ensures
        r@ == decimal(n as nat),
    decreases n,
{
    proof {
        reveal_strlit("0123456789");
    }
    let d: usize = (n % 10) as usize;
    let digit = "0123456789".substring_char(d, d + 1);
    assert(digit@ =~= seq![digit_char((n % 10) as nat)]);
    if n < 10 {
        String::from_str(digit)
    } else {
        let mut r = to_decimal(n / 10);
        r.append(digit);
        r
    }
}

/// The view of a text that may not be there.
pub open spec fn text_view(text: Option<String>) -> Option<Seq<char>> {
    match text {
        Some(t) => Some(t@),
        None => None,
    }
}

/// Whether `item` is among `items`.
pub fn contains_str(items: &Vec<String>, item: &str) -> (b: bool)
    ensures
        b == views(items@).contains(item@),
{
    let mut i: usize = 0;
    while i < items.len()
        invariant
            i <= items@.len(),
            forall|k: int| 0 <= k < i ==> views(items@)[k] != item@,
        decreases items@.len() - i,
    {
        if str_eq(items[i].as_str(), item) {
            assert(views(items@)[i as int] == item@);
            return true;
        }
        i += 1;
    }
    false
}

/// The items of `parts` with `sep` between each two.
pub open spec fn joined(parts: Seq<Seq<char>>, sep: Seq<char>) -> Seq<char>
    decreases parts.len(),
{
    if parts.len() == 0 {
        Seq::empty()
    } else if parts.len() == 1 {
        parts[0]
    } else {
        joined(parts.drop_last(), sep) + sep + parts.last()
    }
}

/// The views of the strings of `v`.
pub open spec fn views(v: Seq<String>) -> Seq<Seq<char>> {
    v.map_values(|s: String| s@)
}

/// The strings of `parts` with `sep` between each two.
pub fn join(parts: &Vec<String>, sep: &str) -> (r: String)
    ensures
        r@ == joined(views(parts@), sep@),
{
    let mut r = String::new();
    let mut i: usize = 0;
    while i < parts.len()
        invariant
            i <= parts@.len(),
            r@ == joined(views(parts@).take(i as int), sep@),
        decreases parts@.len() - i,
    {
        proof {
            let next = views(parts@).take(i as int + 1);
            assert(next.drop_last() =~= views(parts@).take(i as int));
            assert(next.last() == parts@[i as int]@);
        }
        if i > 0 {
            r.append(sep);
        }
        r.append(parts[i].as_str());
        proof {
            if i == 0 {
                assert(r@ =~= parts@[0]@);
            }
        }
        i += 1;
    }
    assert(views(parts@).take(parts@.len() as int) =~= views(parts@));
    r
}

/// The items of `chars` from `from` up to `to`.
pub fn subvec(chars: &Vec<char>, from: usize, to: usize) -> (r: Vec<char>)
    requires
        from <= to <= chars@.len(),
    ensures
        r@ == chars@.subrange(from as int, to as int),
{
    let mut r: Vec<char> = Vec::new();
    let mut i: usize = from;
    while i < to
        invariant
            from <= i <= to <= chars@.len(),
            r@ == chars@.subrange(from as int, i as int),
        decreases to - i,
    {
        r.push(chars[i]);
        assert(r@ =~= chars@.subrange(from as int, i as int + 1));
        i += 1;
    }
    r
}

/// The text that `String::from_utf8_lossy` makes of `bytes`.
pub uninterp spec fn utf8_lossy(bytes: Seq<u8>) -> Seq<char>;

/// Decodes `bytes` as UTF-8 with `String::from_utf8_lossy`, which puts U+FFFD in
/// the place of what is no valid UTF-8. The result depends on the bytes alone.
#[verifier::external_body]
pub(crate) fn decode_lossy(bytes: &Vec<u8>) -> (text: String)
    ensures
        text@ == utf8_lossy(bytes@),
{
    String::from_utf8_lossy(bytes).into_owned()
}

/// All of `s` is whitespace.
pub open spec fn all_whitespace(s: Seq<char>) -> bool {
    forall|i: int| 0 <= i < s.len() ==> is_whitespace(#[trigger] s[i])
}

proof fn lemma_trim_start(s: Seq<char>)
    ensures
        trim_start(s).len() <= s.len(),
        trim_start(s).len() == 0 <==> all_whitespace(s),
        trim_start(s).len() > 0 ==> !is_whitespace(trim_start(s)[0]),
        trim_start(s) == s.subrange(s.len() - trim_start(s).len(), s.len() as int),
    decreases s.len(),
{
    if s.len() > 0 && is_whitespace(s[0]) {
        let rest = s.drop_first();
        lemma_trim_start(rest);
        if all_whitespace(rest) {
            assert forall|i: int| 0 <= i < s.len() implies is_whitespace(#[trigger] s[i]) by {
                if i > 0 {
                    assert(s[i] == rest[i - 1]);
                }
            }
        }
        if all_whitespace(s) {
            assert forall|i: int| 0 <= i < rest.len() implies is_whitespace(
                #[trigger] rest[i],
            ) by {
                assert(rest[i] == s[i + 1]);
            }
        }
        assert(rest.subrange(rest.len() - trim_start(rest).len(), rest.len() as int)
            =~= s.subrange(s.len() - trim_start(s).len(), s.len() as int));
    } else {
        assert(s.subrange(0, s.len() as int) =~= s);
        if s.len() > 0 {
            assert(!is_whitespace(s[0]));
        }
    }
}

proof fn lemma_trim_end(s: Seq<char>)
    ensures
        trim_end(s).len() <= s.len(),
        trim_end(s).len() == 0 <==> all_whitespace(s),
        trim_end(s).len() > 0 ==> !is_whitespace(trim_end(s).last()),
        trim_end(s) == s.subrange(0, trim_end(s).len() as int),
    decreases s.len(),
{
    if s.len() > 0 && is_whitespace(s.last()) {
        let rest = s.drop_last();
        lemma_trim_end(rest);
        if all_whitespace(rest) {
            assert forall|i: int| 0 <= i < s.len() implies is_whitespace(#[trigger] s[i]) by {
                if i < rest.len() {
                    assert(s[i] == rest[i]);
                }
            }
        }
        if all_whitespace(s) {
            assert forall|i: int| 0 <= i < rest.len() implies is_whitespace(
                #[trigger] rest[i],
            ) by {
                assert(rest[i] == s[i]);
            }
        }
        assert(rest.subrange(0, trim_end(rest).len() as int) =~= s.subrange(
            0,
            trim_end(s).len() as int,
        ));
    } else {
        assert(s.subrange(0, s.len() as int) =~= s);
        if s.len() > 0 {
            assert(!is_whitespace(s.last()));
        }
    }
}

/// What trimming keeps: a stretch of `s` that neither begins nor ends with
/// whitespace, with nothing but whitespace before and after it. It is empty
/// exactly if `s` is all whitespace.
pub proof fn lemma_trimmed(s: Seq<char>)
    ensures
        is_blank(s) <==> all_whitespace(s),
        trimmed(s).len() > 0 ==> !is_whitespace(trimmed(s)[0]) && !is_whitespace(trimmed(s).last()),
        exists|from: int|
            0 <= from && from + trimmed(s).len() <= s.len() && #[trigger] s.subrange(
                from,
                from + trimmed(s).len(),
            ) == trimmed(s) && all_whitespace(s.subrange(0, from)) && all_whitespace(
                s.subrange(from + trimmed(s).len(), s.len() as int),
            ),
{
    let front = trim_start(s);
    lemma_trim_start(s);
    lemma_trim_end(front);
    let from = s.len() - front.len();
    let kept = trimmed(s);
    assert(s.subrange(from, from + kept.len()) =~= kept);
    assert(all_whitespace(s.subrange(0, from))) by {
        lemma_trim_start_skips(s);
    }
    assert(all_whitespace(s.subrange(from + kept.len(), s.len() as int))) by {
        lemma_trim_end_skips(front);
        let tail = s.subrange(from + kept.len(), s.len() as int);
        assert(tail =~= front.subrange(kept.len() as int, front.len() as int));
    }
    if kept.len() > 0 {
        assert(kept[0] == front[0]);
    }
    if all_whitespace(s) {
        assert(front.len() == 0);
    }
    if kept.len() == 0 {
        if front.len() > 0 {
            assert(all_whitespace(front));
            assert(is_whitespace(front[0]));
        }
    }
}

proof fn lemma_trim_start_skips(s: Seq<char>)
    ensures
        trim_start(s).len() <= s.len(),
        all_whitespace(s.subrange(0, s.len() - trim_start(s).len())),
    decreases s.len(),
{
    if s.len() > 0 && is_whitespace(s[0]) {
        let rest = s.drop_first();
        lemma_trim_start_skips(rest);
        let skipped = s.subrange(0, s.len() - trim_start(s).len());
        let before = rest.subrange(0, rest.len() - trim_start(rest).len());
        assert forall|i: int| 0 <= i < skipped.len() implies is_whitespace(
            #[trigger] skipped[i],
        ) by {
            if i > 0 {
                assert(skipped[i] == before[i - 1]);
            }
        }
    }
}

proof fn lemma_trim_end_skips(s: Seq<char>)
    ensures
        trim_end(s).len() <= s.len(),
        all_whitespace(s.subrange(trim_end(s).len() as int, s.len() as int)),
    decreases s.len(),
{
    if s.len() > 0 && is_whitespace(s.last()) {
        let rest = s.drop_last();
        lemma_trim_end_skips(rest);
        let skipped = s.subrange(trim_end(s).len() as int, s.len() as int);
        let before = rest.subrange(trim_end(rest).len() as int, rest.len() as int);
        assert forall|i: int| 0 <= i < skipped.len() implies is_whitespace(
            #[trigger] skipped[i],
        ) by {
            if i < before.len() {
                assert(skipped[i] == before[i]);
            }
        }
    }
}

/// What follows `prefix` in `s`, if `s` begins with it.
pub open spec fn after_prefix(s: Seq<char>, prefix: Seq<char>) -> Option<Seq<char>> {
    if prefix.is_prefix_of(s) {
        Some(s.subrange(prefix.len() as int, s.len() as int))
    } else {
        None
    }
}

/// What follows `prefix` in `s`, if `s` begins with it.
pub fn strip_prefix<'a>(s: &'a str, prefix: &str) -> (r: Option<&'a str>)
    ensures
        match r {
            Some(rest) => after_prefix(s@, prefix@) == Some(rest@),
            None => after_prefix(s@, prefix@) is None,
        },
{
    if starts_with(s, prefix) {
        let n = s.unicode_len();
        let m = prefix.unicode_len();
        Some(s.substring_char(m, n))
    } else {
        None
    }
}

/// What precedes `suffix` in `s`, if `s` ends with it.
pub open spec fn before_suffix(s: Seq<char>, suffix: Seq<char>) -> Option<Seq<char>> {
    if suffix.is_suffix_of(s) {
        Some(s.subrange(0, s.len() - suffix.len()))
    } else {
        None
    }
}

/// What precedes `suffix` in `s`, if `s` ends with it.
pub fn strip_suffix<'a>(s: &'a str, suffix: &str) -> (r: Option<&'a str>)
    ensures
        match r {
            Some(rest) => before_suffix(s@, suffix@) == Some(rest@),
            None => before_suffix(s@, suffix@) is None,
        },
{
    if ends_with(s, suffix) {
        let n = s.unicode_len();
        let m = suffix.unicode_len();
        Some(s.substring_char(0, n - m))
    } else {
        None
    }
}

/// `s` up to the first occurrence of `sep`, or all of it where there is none.
pub open spec fn before_first(s: Seq<char>, sep: Seq<char>) -> Seq<char> {
    if index_of(s, sep) < 0 {
        s
    } else {
        s.subrange(0, index_of(s, sep))
    }
}

/// What follows the first occurrence of `sep` in `s`, if there is one.
pub open spec fn after_first(s: Seq<char>, sep: Seq<char>) -> Option<Seq<char>> {
    if index_of(s, sep) < 0 {
        None
    } else {
        Some(s.subrange(index_of(s, sep) + sep.len(), s.len() as int))
    }
}

/// Splits `s` at the first occurrence of `sep`.
pub fn split_once<'a>(s: &'a str, sep: &str) -> (r: (&'a str, Option<&'a str>))
    ensures
        r.0@ == before_first(s@, sep@),
        match r.1 {
            Some(rest) => after_first(s@, sep@) == Some(rest@),
            None => after_first(s@, sep@) is None,
        },
{
    let hay = to_chars(s);
    let needle = to_chars(sep);
    let n = hay.len();
    let m = needle.len();
    match find(&hay, &needle) {
        Some(i) => (s.substring_char(0, i), Some(s.substring_char(i + m, n))),
        None => {
            assert(s@.subrange(0, s@.len() as int) =~= s@);
            (s.substring_char(0, n), None)
        },
    }
}

/// The number of characters at the head of `s` that are no whitespace.
pub open spec fn token_len(s: Seq<char>) -> int
    decreases s.len(),
{
    if s.len() == 0 || is_whitespace(s[0]) {
        0
    } else {
        1 + token_len(s.drop_first())
    }
}

/// The first run of characters of `s` that holds no whitespace; empty where `s`
/// is blank.
pub open spec fn first_token(s: Seq<char>) -> Seq<char> {
    trim_start(s).subrange(0, token_len(trim_start(s)))
}

/// A token is no longer than the text it is taken from.
pub proof fn lemma_token_len(s: Seq<char>)
    ensures
        0 <= token_len(s) <= s.len(),
    decreases s.len(),
{
    if s.len() > 0 && !is_whitespace(s[0]) {
        lemma_token_len(s.drop_first());
    }
}

/// The first run of characters of `s` that holds no whitespace.
pub fn first_token_of<'a>(s: &'a str) -> (r: &'a str)
    ensures
        r@ == first_token(s@),
{
    let chars = to_chars(s);
    let n = chars.len();
    let (start, _end) = trim_bounds_start(&chars);
    let ghost front = chars@.subrange(start as int, n as int);
    let mut end: usize = start;
    proof {
        lemma_token_len(front);
        assert(front.subrange(0, front.len() as int) =~= front);
    }
    while end < n && !char_is_whitespace(chars[end])
        invariant
            start <= end <= n,
            n == chars@.len(),
            front == chars@.subrange(start as int, n as int),
            token_len(front) == (end - start) + token_len(chars@.subrange(end as int, n as int)),
        decreases n - end,
    {
        assert(chars@.subrange(end as int, n as int).drop_first() =~= chars@.subrange(
            end as int + 1,
            n as int,
        ));
        end += 1;
    }
    assert(front.subrange(0, end - start) =~= chars@.subrange(start as int, end as int));
    s.substring_char(start, end)
}

/// Where what `trim_start` keeps of `chars` begins.
fn trim_bounds_start(chars: &Vec<char>) -> (r: (usize, usize))
    ensures
        r.0 <= r.1 == chars@.len(),
        chars@.subrange(r.0 as int, r.1 as int) == trim_start(chars@),
{
    let n = chars.len();
    let mut start: usize = 0;
    assert(chars@.subrange(0, n as int) =~= chars@);
    while start < n && char_is_whitespace(chars[start])
        invariant
            start <= n,
            n == chars@.len(),
            trim_start(chars@) == trim_start(chars@.subrange(start as int, n as int)),
        decreases n - start,
    {
        assert(chars@.subrange(start as int, n as int).drop_first() =~= chars@.subrange(
            start as int + 1,
            n as int,
        ));
        start += 1;
    }
    (start, n)
}

/// The least index at or after `from` where `s` holds a line feed, or its length.
pub open spec fn next_newline(s: Seq<char>, from: int) -> int
    decreases s.len() - from,
{
    if from < 0 || from >= s.len() {
        s.len() as int
    } else if s[from] == '\n' {
        from
    } else {
        next_newline(s, from + 1)
    }
}

/// The lines of `s` from index `from` on, each trimmed, without the blank ones.
pub open spec fn content_lines_from(s: Seq<char>, from: int) -> Seq<Seq<char>>
    decreases s.len() - from,
{
    if from < 0 || from > s.len() {
        Seq::empty()
    } else {
        let end = next_newline(s, from);
        let line = trimmed(s.subrange(from, end));
        let rest = if from <= end < s.len() {
            content_lines_from(s, end + 1)
        } else {
            Seq::empty()
        };
        if line.len() > 0 {
            seq![line] + rest
        } else {
            rest
        }
    }
}

/// The lines of `s`, each trimmed, without the blank ones. A line ends at a line
/// feed; a carriage return before it is whitespace and goes with the trimming.
pub open spec fn content_lines(s: Seq<char>) -> Seq<Seq<char>> {
    content_lines_from(s, 0)
}

/// Up to the next line feed there is none.
pub proof fn lemma_next_newline(s: Seq<char>, from: int)
    requires
        0 <= from <= s.len(),
    ensures
        from <= next_newline(s, from) <= s.len(),
        next_newline(s, from) < s.len() ==> s[next_newline(s, from)] == '\n',
        forall|i: int| from <= i < next_newline(s, from) ==> s[i] != '\n',
    decreases s.len() - from,
{
    if from < s.len() && s[from] != '\n' {
        lemma_next_newline(s, from + 1);
    }
}

/// The lines of `s`, each trimmed, without the blank ones.
pub fn trimmed_lines(s: &str) -> (lines: Vec<String>)
    ensures
        views(lines@) == content_lines(s@),
{
    let chars = to_chars(s);
    let n = chars.len();
    let mut lines: Vec<String> = Vec::new();
    let mut from: usize = 0;
    assert(views(lines@) =~= Seq::<Seq<char>>::empty());
    loop
        invariant_except_break
            content_lines(s@) == views(lines@) + content_lines_from(s@, from as int),
        invariant
            from <= n,
            n == chars@.len(),
            chars@ == s@,
        ensures
            views(lines@) == content_lines(s@),
        decreases n - from,
    {
        let mut end: usize = from;
        while end < n && chars[end] != '\n'
            invariant
                from <= end <= n,
                n == chars@.len(),
                chars@ == s@,
                next_newline(s@, from as int) == next_newline(s@, end as int),
            decreases n - end,
        {
            end += 1;
        }
        let line = trim(s.substring_char(from, end));
        let ghost before = views(lines@);
        if !line.is_empty() {
            lines.push(String::from_str(line));
            assert(views(lines@) =~= before + seq![line@]);
        }
        if end < n {
            assert(content_lines(s@) =~= views(lines@) + content_lines_from(s@, end as int + 1));
            from = end + 1;
        } else {
            assert(content_lines(s@) =~= views(lines@));
            break;
        }
    }
    lines
}

/// `a` comes before `b`, or is `b`, in the order of strings: at the first place
/// where they differ the smaller character decides, and a prefix comes first.
pub open spec fn lex_le(a: Seq<char>, b: Seq<char>) -> bool
    decreases a.len(),
{
    if a.len() == 0 {
        true
    } else if b.len() == 0 {
        false
    } else if a[0] != b[0] {
        a[0] < b[0]
    } else {
        lex_le(a.drop_first(), b.drop_first())
    }
}

/// Whether `a` comes before `b`, or is `b`, in the order of strings.
pub fn chars_le(a: &Vec<char>, b: &Vec<char>) -> (r: bool)
    ensures
        r == lex_le(a@, b@),
{
    let mut i: usize = 0;
    assert(a@.subrange(0, a@.len() as int) =~= a@);
    assert(b@.subrange(0, b@.len() as int) =~= b@);
    loop
        invariant
            i <= a@.len(),
            i <= b@.len(),
            lex_le(a@, b@) == lex_le(
                a@.subrange(i as int, a@.len() as int),
                b@.subrange(i as int, b@.len() as int),
            ),
        decreases a@.len() - i,
    {
        if i >= a.len() {
            return true;
        }
        if i >= b.len() {
            return false;
        }
        if a[i] != b[i] {
            return a[i] < b[i];
        }
        assert(a@.subrange(i as int, a@.len() as int).drop_first() =~= a@.subrange(
            i as int + 1,
            a@.len() as int,
        ));
        assert(b@.subrange(i as int, b@.len() as int).drop_first() =~= b@.subrange(
            i as int + 1,
            b@.len() as int,
        ));
        i += 1;
    }
}

/// Whether `a` comes before `b`, or is `b`, in the order of strings.
pub fn str_le(a: &str, b: &str) -> (r: bool)
    ensures
        r == lex_le(a@, b@),
{
    let x = to_chars(a);
    let y = to_chars(b);
    chars_le(&x, &y)
}

/// The order of strings is total and transitive.
pub proof fn lemma_lex_le_order(a: Seq<char>, b: Seq<char>, c: Seq<char>)
    ensures
        lex_le(a, a),
        lex_le(a, b) || lex_le(b, a),
        lex_le(a, b) && lex_le(b, a) ==> a == b,
        lex_le(a, b) && lex_le(b, c) ==> lex_le(a, c),
    decreases a.len(),
{
    if a.len() > 0 {
        lemma_lex_le_order(a.drop_first(), a.drop_first(), a.drop_first());
        if b.len() > 0 {
            lemma_lex_le_order(a.drop_first(), b.drop_first(), b.drop_first());
            if a[0] == b[0] && lex_le(a, b) && lex_le(b, a) {
                assert(a =~= seq![a[0]] + a.drop_first());
                assert(b =~= seq![b[0]] + b.drop_first());
            }
            if c.len() > 0 {
                lemma_lex_le_order(a.drop_first(), b.drop_first(), c.drop_first());
            }
        }
    } else {
        if b.len() == 0 {
            assert(a =~= b);
        }
    }
}

/// The text that `str::to_lowercase` makes of `s`.
pub uninterp spec fn lowercase(s: Seq<char>) -> Seq<char>;

/// `s` in lower case, as `str::to_lowercase` gives it: each character by its
/// Unicode lower-case mapping, whatever the locale. The result depends on the
/// text alone.
#[verifier::external_body]
pub(crate) fn to_lowercase(s: &str) -> (r: String)
    ensures
        r@ == lowercase(s@),
{
    s.to_lowercase()
}

/// Where an item with the key `k` goes into `list`: before the first item whose
/// key does not come before `k`.
pub open spec fn insert_point<T>(list: Seq<T>, k: Seq<char>, key: spec_fn(T) -> Seq<char>) -> int
    decreases list.len(),
{
    if list.len() == 0 || lex_le(k, key(list[0])) {
        0
    } else {
        1 + insert_point(list.drop_first(), k, key)
    }
}

/// `s` in the order of its keys. Items with the same key keep the order they
/// have in `s`.
pub open spec fn sorted_by<T>(s: Seq<T>, key: spec_fn(T) -> Seq<char>) -> Seq<T>
    decreases s.len(),
{
    if s.len() == 0 {
        Seq::empty()
    } else {
        let rest = sorted_by(s.drop_first(), key);
        rest.insert(insert_point(rest, key(s[0]), key), s[0])
    }
}

/// The keys of `s` ascend.
pub open spec fn ascending<T>(s: Seq<T>, key: spec_fn(T) -> Seq<char>) -> bool {
    forall|i: int, j: int| 0 <= i <= j < s.len() ==> lex_le(key(s[i]), key(s[j]))
}

/// Before the insert point the keys come before `k`; at it, the key does not.
pub proof fn lemma_insert_point<T>(list: Seq<T>, k: Seq<char>, key: spec_fn(T) -> Seq<char>)
    ensures
        0 <= insert_point(list, k, key) <= list.len(),
        forall|i: int| 0 <= i < insert_point(list, k, key) ==> !lex_le(k, key(#[trigger] list[i])),
        insert_point(list, k, key) < list.len() ==> lex_le(
            k,
            key(list[insert_point(list, k, key)]),
        ),
    decreases list.len(),
{
    if list.len() > 0 && !lex_le(k, key(list[0])) {
        let rest = list.drop_first();
        lemma_insert_point(rest, k, key);
        assert forall|i: int| 0 <= i < insert_point(list, k, key) implies !lex_le(
            k,
            key(#[trigger] list[i]),
        ) by {
            if i > 0 {
                assert(list[i] == rest[i - 1]);
            }
        }
    }
}

/// Sorting gives the same items, each as often as before, with ascending keys.
pub proof fn lemma_sorted_by<T>(s: Seq<T>, key: spec_fn(T) -> Seq<char>)
    ensures
        sorted_by(s, key).len() == s.len(),
        sorted_by(s, key).to_multiset() == s.to_multiset(),
        ascending(sorted_by(s, key), key),
    decreases s.len(),
{
    broadcast use vstd::seq_lib::group_to_multiset_ensures;

    if s.len() > 0 {
        let rest = sorted_by(s.drop_first(), key);
        let k = key(s[0]);
        let at = insert_point(rest, k, key);
        let out = sorted_by(s, key);
        lemma_sorted_by(s.drop_first(), key);
        lemma_insert_point(rest, k, key);
        vstd::seq_lib::to_multiset_insert(rest, at, s[0]);
        assert(s =~= seq![s[0]] + s.drop_first());
        assert(s.to_multiset() =~= s.drop_first().to_multiset().insert(s[0])) by {
            vstd::seq_lib::to_multiset_insert(s.drop_first(), 0, s[0]);
            assert(s.drop_first().insert(0, s[0]) =~= s);
        }
        assert forall|i: int, j: int| 0 <= i <= j < out.len() implies lex_le(
            key(out[i]),
            key(out[j]),
        ) by {
            let a = if i < at {
                i
            } else {
                i - 1
            };
            let b = if j < at {
                j
            } else {
                j - 1
            };
            if i == at {
                if j == at {
                    lemma_lex_le_order(k, k, k);
                } else {
                    assert(out[j] == rest[j - 1]);
                    assert(lex_le(k, key(rest[at])));
                    assert(lex_le(key(rest[at]), key(rest[j - 1])));
                    lemma_lex_le_order(k, key(rest[at]), key(rest[j - 1]));
                }
            } else if j == at {
                assert(out[i] == rest[i]);
                assert(!lex_le(k, key(rest[i])));
                lemma_lex_le_order(key(rest[i]), k, k);
            } else {
                assert(out[i] == rest[a]);
                assert(out[j] == rest[b]);
            }
        }
    } else {
        assert(sorted_by(s, key).to_multiset() =~= s.to_multiset());
    }
}

/// The key of a string: its characters.
pub open spec fn string_key() -> spec_fn(String) -> Seq<char> {
    |s: String| s@
}

/// Sorts strings in their order.
pub fn sort_strings(items: Vec<String>) -> (r: Vec<String>)
    ensures
        r@ == sorted_by(items@, string_key()),
{
    let mut rest = items;
    let mut r: Vec<String> = Vec::new();
    assert(items@.subrange(items@.len() as int, items@.len() as int) =~= Seq::<String>::empty());
    while rest.len() > 0
        invariant
            rest@.len() <= items@.len(),
            rest@ == items@.subrange(0, rest@.len() as int),
            r@ == sorted_by(items@.subrange(rest@.len() as int, items@.len() as int), string_key()),
        decreases rest@.len(),
    {
        let ghost n = rest@.len() as int;
        let ghost tail = items@.subrange(n, items@.len() as int);
        let item = match rest.pop() {
            Some(item) => item,
            None => {
                return r;
            },
        };
        proof {
            let grown = items@.subrange(n - 1, items@.len() as int);
            assert(grown.drop_first() =~= tail);
            assert(grown[0] == item);
            assert(rest@ =~= items@.subrange(0, n - 1));
        }
        let mut at: usize = 0;
        assert(r@.subrange(0, r@.len() as int) =~= r@);
        while at < r.len() && !str_le(item.as_str(), r[at].as_str())
            invariant
                at <= r@.len(),
                insert_point(r@, item@, string_key()) == at + insert_point(
                    r@.subrange(at as int, r@.len() as int),
                    item@,
                    string_key(),
                ),
            decreases r@.len() - at,
        {
            assert(r@.subrange(at as int, r@.len() as int).drop_first() =~= r@.subrange(
                at as int + 1,
                r@.len() as int,
            ));
            at += 1;
        }
        r.insert(at, item);
    }
    assert(items@.subrange(0, items@.len() as int) =~= items@);
    r
}

/// The key of a sequence of characters: itself.
pub open spec fn text_key() -> spec_fn(Seq<char>) -> Seq<char> {
    |s: Seq<char>| s
}

/// Sorting strings and taking their views can be done in either order.
pub proof fn lemma_sorted_views(items: Seq<String>)
    ensures
        views(sorted_by(items, string_key())) == sorted_by(views(items), text_key()),
    decreases items.len(),
{
    if items.len() > 0 {
        let rest = sorted_by(items.drop_first(), string_key());
        lemma_sorted_views(items.drop_first());
        assert(views(items).drop_first() =~= views(items.drop_first()));
        lemma_insert_point_views(rest, items[0]@);
        lemma_insert_point(rest, items[0]@, string_key());
        let at = insert_point(rest, items[0]@, string_key());
        assert(views(rest.insert(at, items[0])) =~= views(rest).insert(at, items[0]@));
    } else {
        assert(views(sorted_by(items, string_key())) =~= sorted_by(views(items), text_key()));
    }
}

proof fn lemma_insert_point_views(list: Seq<String>, k: Seq<char>)
    ensures
        insert_point(list, k, string_key()) == insert_point(views(list), k, text_key()),
    decreases list.len(),
{
    if list.len() > 0 {
        assert(views(list).drop_first() =~= views(list.drop_first()));
        lemma_insert_point_views(list.drop_first(), k);
    }
}

} // verus!
