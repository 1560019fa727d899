//! Strings as sequences of characters: the small operations the screens need,
//! each stated over `Seq<char>`.
use vstd::prelude::*;
use vstd::string::*;

verus! {

/// `String::push` appends one character to the end of the string.
pub assume_specification[ String::push ](s: &mut String, c: char)
    ensures
        final(s)@ == old(s)@.push(c),
;

/// What `str::to_lowercase` gives for a string: Unicode lower-casing.
pub uninterp spec fn lowercase(s: Seq<char>) -> Seq<char>;

/// `str::to_lowercase`: the lower-case form of the string, which depends on
/// the string alone. How single characters are mapped is not stated.
#[verifier::external_body]
fn to_lowercase(s: &str) -> (r: String)
    ensures
        r@ == lowercase(s@),
{
    s.to_lowercase()
}

/// The characters of a string, in order.
pub fn chars_of(s: &str) -> (v: Vec<char>)
    ensures
        v@ == s@,
{
    let mut v: Vec<char> = Vec::new();
    for c in it: s.chars()
        invariant
            v@ == it.seq().take(it.index() as int),
            it.seq() == s@,
    {
        v.push(c);
        assert(it.seq().take(it.index() as int + 1) =~= it.seq().take(it.index() as int).push(c));
    }
    assert(s@.take(s@.len() as int) =~= s@);
    v
}

/// The string made of `v[from..to]`.
pub fn string_of_range(v: &Vec<char>, from: usize, to: usize) -> (s: String)
    requires
        from <= to <= v@.len(),
    ensures
        s@ == v@.subrange(from as int, to as int),
{
    let mut s: String = String::new();
    let mut i: usize = from;
    while i < to
        invariant
            from <= i <= to <= v@.len(),
            s@ == v@.subrange(from as int, i as int),
        decreases to - i,
    {
        s.push(v[i]);
        assert(v@.subrange(from as int, i as int + 1) =~= v@.subrange(from as int, i as int).push(
            v@[i as int],
        ));
        i += 1;
    }
    s
}

/// Whether two texts hold the same characters.
pub fn same_text(a: &str, b: &str) -> (r: bool)
    ensures
        r == (a@ == b@),
{
    a.to_string() == b.to_string()
}

/// The characters with the Unicode property `White_Space`.
pub open spec fn is_white_space(c: char) -> bool {
    let n = c as int;
    ||| 0x09 <= n <= 0x0d
    ||| n == 0x20
    ||| n == 0x85
    ||| n == 0xa0
    ||| n == 0x1680
    ||| 0x2000 <= n <= 0x200a
    ||| n == 0x2028
    ||| n == 0x2029
    ||| n == 0x202f
    ||| n == 0x205f
    ||| n == 0x3000
}

/// The code point of a character.
pub fn code_point(c: char) -> (n: u32)
    ensures
        n as int == c as int,
{
    c as u32
}

/// Whether `c` is white space.
pub fn white_space(c: char) -> (r: bool)
    ensures
        r == is_white_space(c),
{
    let n: u32 = code_point(c);
    (0x09 <= n && n <= 0x0d) || n == 0x20 || n == 0x85 || n == 0xa0 || n == 0x1680 || (0x2000 <= n
        && n <= 0x200a) || n == 0x2028 || n == 0x2029 || n == 0x202f || n == 0x205f || n == 0x3000
}

/// `t` is what is left of `s` once the white space at both ends is gone.
pub open spec fn is_trim_of(t: Seq<char>, s: Seq<char>) -> bool {
    exists|i: int, j: int|
        #![trigger s.subrange(i, j)]
        0 <= i <= j <= s.len() && t == s.subrange(i, j) && (forall|k: int|
            #![trigger s[k]]
            (0 <= k < i || j <= k < s.len()) ==> is_white_space(s[k])) && (i < j ==> (
        !is_white_space(s[i]) && !is_white_space(s[j - 1])))
}

/// The text without the white space at its ends.
pub open spec fn trim_spec(s: Seq<char>) -> Seq<char> {
    choose|t: Seq<char>| is_trim_of(t, s)
}

/// A text has at most one trimmed form.
pub proof fn lemma_trim_unique(a: Seq<char>, b: Seq<char>, s: Seq<char>)
    requires
        is_trim_of(a, s),
        is_trim_of(b, s),
    ensures
        a == b,
{
    let (i, j) = choose|i: int, j: int|
        #![trigger s.subrange(i, j)]
        0 <= i <= j <= s.len() && a == s.subrange(i, j) && (forall|k: int|
            #![trigger s[k]]
            (0 <= k < i || j <= k < s.len()) ==> is_white_space(s[k])) && (i < j ==> (
        !is_white_space(s[i]) && !is_white_space(s[j - 1])));
    let (p, q) = choose|i: int, j: int|
        #![trigger s.subrange(i, j)]
        0 <= i <= j <= s.len() && b == s.subrange(i, j) && (forall|k: int|
            #![trigger s[k]]
            (0 <= k < i || j <= k < s.len()) ==> is_white_space(s[k])) && (i < j ==> (
        !is_white_space(s[i]) && !is_white_space(s[j - 1])));
    if i < j {
        assert(!is_white_space(s[i]));
        assert(!is_white_space(s[j - 1]));
    }
    if p < q {
        assert(!is_white_space(s[p]));
        assert(!is_white_space(s[q - 1]));
    }
    assert(a =~= b);
}

/// The text without leading and trailing white space.
pub fn trim(s: &str) -> (t: String)
    ensures
        is_trim_of(t@, s@),
        t@ == trim_spec(s@),
{
    let v: Vec<char> = chars_of(s);
    let n: usize = v.len();
    let mut i: usize = 0;
    while i < n && white_space(v[i])
        invariant
            0 <= i <= n,
            n == v@.len(),
            forall|k: int| 0 <= k < i ==> is_white_space(v@[k]),
        decreases n - i,
    {
        i += 1;
    }
    let mut j: usize = n;
    while i < j && white_space(v[j - 1])
        invariant
            0 <= i <= j <= n,
            n == v@.len(),
            forall|k: int| j <= k < n ==> is_white_space(v@[k]),
        decreases j - i,
    {
        j -= 1;
    }
    let t: String = string_of_range(&v, i, j);
    proof {
        assert(t@ == s@.subrange(i as int, j as int));
        assert(is_trim_of(t@, s@));
        lemma_trim_unique(t@, trim_spec(s@), s@);
    }
    t
}

/// Whether the text is empty once trimmed, that is, holds white space only.
pub open spec fn is_blank(s: Seq<char>) -> bool {
    forall|i: int| #![trigger s[i]] 0 <= i < s.len() ==> is_white_space(s[i])
}

/// Whether the text holds white space only.
pub fn blank(s: &str) -> (r: bool)
    ensures
        r == is_blank(s@),
{
    let v: Vec<char> = chars_of(s);
    let mut i: usize = 0;
    while i < v.len()
        invariant
            0 <= i <= v@.len(),
            v@ == s@,
            forall|k: int| 0 <= k < i ==> is_white_space(v@[k]),
        decreases v@.len() - i,
    {
        if !white_space(v[i]) {
            assert(!is_white_space(s@[i as int]));
            return false;
        }
        i += 1;
    }
    true
}

/// A text is blank exactly when trimming leaves nothing of it.
pub proof fn law_blank_is_empty_trim(t: Seq<char>, s: Seq<char>)
    requires
        is_trim_of(t, s),
    ensures
        is_blank(s) <==> t.len() == 0,
{
    let (i, j) = choose|i: int, j: int|
        #![trigger s.subrange(i, j)]
        0 <= i <= j <= s.len() && t == s.subrange(i, j) && (forall|k: int|
            #![trigger s[k]]
            (0 <= k < i || j <= k < s.len()) ==> is_white_space(s[k])) && (i < j ==> (
        !is_white_space(s[i]) && !is_white_space(s[j - 1])));
    if t.len() == 0 {
        assert(i == j);
        assert(forall|k: int| 0 <= k < s.len() ==> is_white_space(s[k]));
    } else {
        assert(!is_white_space(s[i]));
    }
}

/// `needle` occurs in `hay` at position `i`.
pub open spec fn occurs_at(hay: Seq<char>, needle: Seq<char>, i: int) -> bool {
    &&& 0 <= i
    &&& i + needle.len() <= hay.len()
    &&& hay.subrange(i, i + needle.len()) == needle
}

/// `needle` occurs somewhere in `hay`.
pub open spec fn is_substring(needle: Seq<char>, hay: Seq<char>) -> bool {
    exists|i: int| occurs_at(hay, needle, i)
}

/// Whether `needle` occurs in `hay`.
pub fn contains_text(hay: &str, needle: &str) -> (r: bool)
    ensures
        r == is_substring(needle@, hay@),
{
    let h: Vec<char> = chars_of(hay);
    let p: Vec<char> = chars_of(needle);
    if p.len() > h.len() {
        assert forall|i: int| !occurs_at(hay@, needle@, i) by {};
        return false;
    }
    let hn: usize = h.len();
    let last: usize = hn - p.len();
    let mut i: usize = 0;
    while i <= last
        invariant
            0 <= i <= last + 1,
            hn == h@.len(),
            last == h@.len() - p@.len(),
            h@ == hay@,
            p@ == needle@,
            forall|k: int| 0 <= k < i ==> !occurs_at(hay@, needle@, k),
        decreases last + 1 - i,
    {
        let mut m: usize = 0;
        while m < p.len() && h[i + m] == p[m]
            invariant
                0 <= i <= last,
                hn == h@.len(),
                last == h@.len() - p@.len(),
                0 <= m <= p@.len(),
                forall|k: int| 0 <= k < m ==> h@[i + k] == p@[k],
            decreases p@.len() - m,
        {
            m += 1;
        }
        if m == p.len() {
            assert(h@.subrange(i as int, i + p@.len()) =~= p@);
            assert(occurs_at(hay@, needle@, i as int));
            return true;
        }
        assert(!occurs_at(hay@, needle@, i as int)) by {
            assert(h@.subrange(i as int, i + p@.len())[m as int] == h@[i + m]);
        }
        if i == last {
            assert forall|k: int| !occurs_at(hay@, needle@, k) by {
                if 0 <= k <= i {
                    assert(k < i || k == i);
                }
            }
            return false;
        }
        i += 1;
    }
    false
}

/// Lower-cases `text` and looks for the already lower-cased `query` in it.
pub fn contains_lowercased(text: &str, query: &str) -> (r: bool)
    ensures
        r == is_substring(query@, lowercase(text@)),
{
    let t: String = to_lowercase(text);
    contains_text(t.as_str(), query)
}

/// The lower-case form of a search text.
pub fn lower(text: &str) -> (r: String)
    ensures
        r@ == lowercase(text@),
{
    to_lowercase(text)
}

/// The text with each `from` replaced by `to`.
pub open spec fn replace_spec(s: Seq<char>, from: char, to: char) -> Seq<char> {
    s.map_values(
        |c: char|
            if c == from {
                to
            } else {
                c
            },
    )
}

/// The text with each `from` replaced by `to`.
pub fn replace_char(s: &str, from: char, to: char) -> (r: String)
    ensures
        r@ == replace_spec(s@, from, to),
{
    let v: Vec<char> = chars_of(s);
    let mut r: String = String::new();
    let mut i: usize = 0;
    while i < v.len()
        invariant
            0 <= i <= v@.len(),
            v@ == s@,
            r@ == replace_spec(s@.take(i as int), from, to),
        decreases v@.len() - i,
    {
        let c: char = v[i];
        if c == from {
            r.push(to);
        } else {
            r.push(c);
        }
        assert(s@.take(i as int + 1) =~= s@.take(i as int).push(c));
        assert(replace_spec(s@.take(i as int + 1), from, to) =~= replace_spec(
            s@.take(i as int),
            from,
            to,
        ).push(
            if c == from {
                to
            } else {
                c
            },
        ));
        i += 1;
    }
    assert(s@.take(s@.len() as int) =~= s@);
    r
}

/// The decimal digit of value `d`.
pub open spec fn digit_char(d: int) -> char {
    ('0' as int + d) as char
}

/// The decimal notation of `n`, without leading zeros.
pub open spec fn decimal(n: nat) -> Seq<char>
    decreases n,
{
    if n < 10 {
        seq![digit_char(n as int)]
    } else {
        decimal(n / 10).push(digit_char((n % 10) as int))
    }
}

fn digit(d: u64) -> (c: char)
    requires
        d < 10,
    ensures
        c == digit_char(d as int),
{
    if d == 0 {
        '0'
    } else if d == 1 {
        '1'
    } else if d == 2 {
        '2'
    } else if d == 3 {
        '3'
    } else if d == 4 {
        '4'
    } else if d == 5 {
        '5'
    } else if d == 6 {
        '6'
    } else if d == 7 {
        '7'
    } else if d == 8 {
        '8'
    } else {
        '9'
    }
}

/// The decimal notation of `n`.
pub fn decimal_text(n: u64) -> (s: String)
    ensures
        s@ == decimal(n as nat),
    decreases n,
{
    if n < 10 {
        let mut s: String = String::new();
        s.push(digit(n));
        assert(s@ =~= seq![digit_char(n as int)]);
        s
    } else {
        let mut s: String = decimal_text(n / 10);
        s.push(digit(n % 10));
        s
    }
}

/// Decimal notation is made of digits and has the value it was made from.
pub proof fn lemma_decimal(n: nat)
    ensures
        decimal(n).len() > 0,
        forall|i: int| #![trigger decimal(n)[i]] 0 <= i < decimal(n).len() ==> is_digit(decimal(n)[i]),
        digits_value(decimal(n)) == n,
    decreases n,
{
    reveal_with_fuel(digits_value, 2);
    if n < 10 {
        assert(decimal(n) =~= seq![digit_char(n as int)]);
        assert(decimal(n).drop_last() =~= Seq::<char>::empty());
    } else {
        lemma_decimal(n / 10);
        let d = decimal(n);
        let head = decimal(n / 10);
        assert(d.drop_last() =~= head);
        assert forall|i: int| #![trigger d[i]] 0 <= i < d.len() implies is_digit(d[i]) by {
            if i < head.len() {
                assert(d[i] == head[i]);
            }
        }
    }
}

/// Whether `c` is one of `0` to `9`.
pub open spec fn is_digit(c: char) -> bool {
    '0' as int <= c as int <= '9' as int
}

/// The value of a text of decimal digits.
pub open spec fn digits_value(s: Seq<char>) -> nat
    decreases s.len(),
{
    if s.len() == 0 {
        0
    } else {
        digits_value(s.drop_last()) * 10 + (s.last() as int - '0' as int) as nat
    }
}

/// The text of digits behind an optional leading plus sign.
pub open spec fn unsigned_digits(s: Seq<char>) -> Seq<char> {
    if s.len() > 0 && s[0] == '+' {
        s.subrange(1, s.len() as int)
    } else {
        s
    }
}

/// Whether the text denotes an unsigned 64-bit number: an optional plus sign,
/// then at least one digit and nothing else, with a value in range.
pub open spec fn is_u64_text(s: Seq<char>) -> bool {
    let d = unsigned_digits(s);
    &&& d.len() > 0
    &&& forall|i: int| #![trigger d[i]] 0 <= i < d.len() ==> is_digit(d[i])
    &&& digits_value(d) <= u64::MAX
}

proof fn lemma_digits_value_monotone(s: Seq<char>, i: int)
    requires
        0 <= i <= s.len(),
        forall|k: int| #![trigger s[k]] 0 <= k < s.len() ==> is_digit(s[k]),
    ensures
        digits_value(s.take(i)) <= digits_value(s),
    decreases s.len() - i,
{
    if i == s.len() {
        assert(s.take(i) =~= s);
    } else {
        lemma_digits_value_monotone(s, i + 1);
        assert(s.take(i + 1).drop_last() =~= s.take(i));
        assert(is_digit(s[i]));
        assert(s.take(i + 1).last() == s[i]);
    }
}

/// Reads an unsigned 64-bit number in decimal notation.
pub fn parse_u64(s: &str) -> (r: Option<u64>)
    ensures
        r is Some <==> is_u64_text(s@),
        r matches Some(n) ==> n as nat == digits_value(unsigned_digits(s@)),
{
    let v: Vec<char> = chars_of(s);
    let start: usize = if v.len() > 0 && v[0] == '+' {
        1
    } else {
        0
    };
    let ghost d = unsigned_digits(s@);
    assert(d =~= v@.subrange(start as int, v@.len() as int));
    if start == v.len() {
        return None;
    }
    let mut i: usize = start;
    let mut n: u64 = 0;
    while i < v.len()
        invariant
            start <= i <= v@.len(),
            d == v@.subrange(start as int, v@.len() as int),
            d == unsigned_digits(s@),
            forall|k: int| #![trigger d[k]] 0 <= k < i - start ==> is_digit(d[k]),
            n as nat == digits_value(d.take(i - start)),
        decreases v@.len() - i,
    {
        let c: u32 = code_point(v[i]);
        assert(d[i - start] == v@[i as int]);
        if c < 48 || c > 57 {
            assert(!is_digit(d[i - start]));
            return None;
        }
        let k: u64 = (c - 48) as u64;
        let ghost len = i - start;
        assert(d.take(len + 1).drop_last() =~= d.take(len));
        assert(d.take(len + 1).last() == d[len]);
        assert(digits_value(d.take(len + 1)) == digits_value(d.take(len)) * 10 + k as nat);
        if n > (u64::MAX - k) / 10 {
            proof {
                if is_u64_text(s@) {
                    lemma_digits_value_monotone(d, len + 1);
                    assert(false);
                }
            }
            return None;
        }
        n = n * 10 + k;
        i += 1;
    }
    assert(d.take(d.len() as int) =~= d);
    Some(n)
}

/// `a` comes strictly before `b` in the order of code points.
pub open spec fn text_less(a: Seq<char>, b: Seq<char>) -> bool
    decreases a.len(),
{
    if b.len() == 0 {
        false
    } else if a.len() == 0 {
        true
    } else if a[0] != b[0] {
        (a[0] as int) < (b[0] as int)
    } else {
        text_less(a.drop_first(), b.drop_first())
    }
}

/// The order of texts is transitive.
pub proof fn lemma_text_less_transitive(a: Seq<char>, b: Seq<char>, c: Seq<char>)
    requires
        text_less(a, b),
        text_less(b, c),
    ensures
        text_less(a, c),
    decreases a.len(),
{
    if a.len() > 0 && b.len() > 0 && c.len() > 0 && a[0] == b[0] && b[0] == c[0] {
        lemma_text_less_transitive(a.drop_first(), b.drop_first(), c.drop_first());
    }
}

/// Two different texts are ordered one way or the other, and never both ways.
pub proof fn lemma_text_less_total(a: Seq<char>, b: Seq<char>)
    ensures
        a == b || text_less(a, b) || text_less(b, a),
        !(text_less(a, b) && text_less(b, a)),
        !text_less(a, a),
    decreases a.len(),
{
    if a.len() == 0 && b.len() == 0 {
        assert(a =~= b);
    }
    if a.len() > 0 {
        lemma_text_less_total(a.drop_first(), a.drop_first());
        if b.len() > 0 && a[0] == b[0] {
            lemma_text_less_total(a.drop_first(), b.drop_first());
            if a.drop_first() == b.drop_first() {
                assert forall|k: int| 0 <= k < a.len() implies a[k] == b[k] by {
                    if k > 0 {
                        assert(a.drop_first()[k - 1] == b.drop_first()[k - 1]);
                    }
                }
                assert(a.len() == b.len());
                assert(a =~= b);
            }
        }
    }
}

proof fn lemma_text_less_skip(a: Seq<char>, b: Seq<char>, i: int)
    requires
        0 <= i <= a.len(),
        i <= b.len(),
        forall|k: int| #![trigger a[k]] 0 <= k < i ==> a[k] == b[k],
    ensures
        text_less(a, b) == text_less(
            a.subrange(i, a.len() as int),
            b.subrange(i, b.len() as int),
        ),
    decreases i,
{
    if i == 0 {
        assert(a.subrange(0, a.len() as int) =~= a);
        assert(b.subrange(0, b.len() as int) =~= b);
    } else {
        assert(a[0] == b[0]);
        assert forall|k: int| #![trigger a.drop_first()[k]] 0 <= k < i - 1 implies a.drop_first()[k]
            == b.drop_first()[k] by {
            assert(a[k + 1] == b[k + 1]);
        }
        lemma_text_less_skip(a.drop_first(), b.drop_first(), i - 1);
        assert(a.drop_first().subrange(i - 1, a.len() - 1) =~= a.subrange(i, a.len() as int));
        assert(b.drop_first().subrange(i - 1, b.len() - 1) =~= b.subrange(i, b.len() as int));
    }
}

/// Whether `a` comes strictly before `b`.
pub fn less_text(a: &str, b: &str) -> (r: bool)
    ensures
        r == text_less(a@, b@),
{
    let x: Vec<char> = chars_of(a);
    let y: Vec<char> = chars_of(b);
    let mut i: usize = 0;
    while i < x.len() && i < y.len() && x[i] == y[i]
        invariant
            0 <= i <= x@.len(),
            i <= y@.len(),
            forall|k: int| #![trigger x@[k]] 0 <= k < i ==> x@[k] == y@[k],
        decreases x@.len() - i,
    {
        i += 1;
    }
    proof {
        lemma_text_less_skip(a@, b@, i as int);
    }
    if i == y.len() {
        false
    } else if i == x.len() {
        true
    } else {
        code_point(x[i]) < code_point(y[i])
    }
}

/// The two texts one behind the other.
pub fn joined(a: &str, b: &str) -> (r: String)
    ensures
        r@ == a@ + b@,
{
    let mut s: String = a.to_string();
    s.append(b);
    s
}

/// Three texts one behind the other.
pub fn joined3(a: &str, b: &str, c: &str) -> (r: String)
    ensures
        r@ == a@ + b@ + c@,
{
    let mut s: String = joined(a, b);
    s.append(c);
    s
}

/// The order of texts is that of the first place where they differ: the
/// smaller character comes first. A text comes before every longer text that
/// starts with it, and never before itself.
pub proof fn law_text_order(a: Seq<char>, b: Seq<char>, i: int)
    ensures
        0 <= i < a.len() && i < b.len() && a.take(i) == b.take(i) && a[i] != b[i] ==> (text_less(
            a,
            b,
        ) <==> a[i] < b[i]),
        a.is_prefix_of(b) ==> (text_less(a, b) <==> a.len() < b.len()),
        b.is_prefix_of(a) ==> !text_less(a, b),
        !text_less(a, a),
        text_less(a, b) ==> !text_less(b, a),
        a != b ==> text_less(a, b) || text_less(b, a),
{
    lemma_text_less_total(a, b);
    if 0 <= i < a.len() && i < b.len() && a.take(i) == b.take(i) && a[i] != b[i] {
        assert forall|k: int| #![trigger a[k]] 0 <= k < i implies a[k] == b[k] by {
            assert(a.take(i)[k] == b.take(i)[k]);
        }
        lemma_text_less_skip(a, b, i);
    }
    if a.is_prefix_of(b) {
        let n = a.len() as int;
        assert forall|k: int| #![trigger a[k]] 0 <= k < n implies a[k] == b[k] by {}
        lemma_text_less_skip(a, b, n);
    }
    if b.is_prefix_of(a) {
        let n = b.len() as int;
        assert forall|k: int| #![trigger a[k]] 0 <= k < n implies a[k] == b[k] by {
            assert(b[k] == a.subrange(0, n)[k]);
        }
        lemma_text_less_skip(a, b, n);
    }
}

/// The value of decimal digits: one digit counts its distance from zero, and of
/// two texts one behind the other the first counts ten times for each
/// character of the second.
pub proof fn law_digits_value(c: char, s: Seq<char>, t: Seq<char>)
    ensures
        is_digit(c) ==> digits_value(seq![c]) == c as int - '0' as int,
        digits_value(Seq::empty()) == 0,
        digits_value(s + t) == digits_value(s) * vstd::arithmetic::power::pow(10, t.len())
            + digits_value(t),
    decreases t.len(),
{
    reveal_with_fuel(digits_value, 2);
    assert(seq![c].drop_last() =~= Seq::empty());
    vstd::arithmetic::power::lemma_pow0(10);
    if t.len() == 0 {
        assert(s + t =~= s);
    } else {
        law_digits_value(c, s, t.drop_last());
        assert((s + t).drop_last() =~= s + t.drop_last());
        vstd::arithmetic::power::lemma_pow_adds(10, (t.len() - 1) as nat, 1);
        vstd::arithmetic::power::lemma_pow1(10);
        let a = digits_value(s) as int;
        let p = vstd::arithmetic::power::pow(10, (t.len() - 1) as nat);
        let b = digits_value(t.drop_last()) as int;
        assert((a * p + b) * 10 == a * (p * 10) + b * 10) by (nonlinear_arith);
    }
}

/// A digit is one of ten characters.
pub proof fn law_digits(c: char)
    ensures
        is_digit(c) <==> seq!['0', '1', '2', '3', '4', '5', '6', '7', '8', '9'].contains(c),
{
    let all = seq!['0', '1', '2', '3', '4', '5', '6', '7', '8', '9'];
    if is_digit(c) {
        assert(all[c as int - '0' as int] == c);
    }
}

/// Decimal notation gives the number back when read, has no needless leading
/// zero, and is read with or without a plus sign before it.
pub proof fn law_decimal_round_trip(n: u64)
    ensures
        is_u64_text(decimal(n as nat)),
        digits_value(unsigned_digits(decimal(n as nat))) == n,
        is_u64_text(seq!['+'] + decimal(n as nat)),
        digits_value(unsigned_digits(seq!['+'] + decimal(n as nat))) == n,
        n == 0 ==> decimal(n as nat) == seq!['0'],
        n > 0 ==> decimal(n as nat)[0] != '0',
{
    let d = decimal(n as nat);
    lemma_decimal(n as nat);
    assert(is_digit(d[0]));
    assert((seq!['+'] + d).subrange(1, d.len() as int + 1) =~= d);
    lemma_decimal_leads(n as nat);
}

proof fn lemma_decimal_leads(n: nat)
    ensures
        n == 0 ==> decimal(n) == seq!['0'],
        n > 0 ==> decimal(n)[0] != '0',
    decreases n,
{
    if n >= 10 {
        lemma_decimal(n / 10);
        lemma_decimal_leads(n / 10);
    }
}

/// What can be read as a number: a plus sign counts for nothing, other
/// characters than digits spoil it, and so does having no digit at all.
pub proof fn law_number_texts(s: Seq<char>, i: int)
    ensures
        unsigned_digits(seq!['+'] + s) == s,
        s.len() > 0 && s[0] != '+' ==> unsigned_digits(s) == s,
        !is_u64_text(Seq::empty()),
        !is_u64_text(seq!['+']),
        0 < i < s.len() && !is_digit(s[i]) ==> !is_u64_text(s),
        s.len() > 0 && !is_digit(s[0]) && s[0] != '+' ==> !is_u64_text(s),
        unsigned_digits(s).len() > 0 && (forall|k: int|
            #![trigger unsigned_digits(s)[k]]
            0 <= k < unsigned_digits(s).len() ==> is_digit(unsigned_digits(s)[k])) ==> (is_u64_text(s)
            <==> digits_value(unsigned_digits(s)) <= 0xffff_ffff_ffff_ffff),
{
    assert((seq!['+'] + s).subrange(1, s.len() as int + 1) =~= s);
    let d = unsigned_digits(s);
    if 0 < i < s.len() && !is_digit(s[i]) {
        if s[0] == '+' {
            assert(d[i - 1] == s[i]);
        } else {
            assert(d[i] == s[i]);
        }
    }
}

/// The characters that count as white space.
pub proof fn law_white_space(c: char)
    ensures
        c == ' ' || c == '\t' || c == '\n' || c == '\r' ==> is_white_space(c),
        (c as int) < 0x80 ==> (is_white_space(c) <==> c == ' ' || c == '\t' || c == '\n' || c
            == '\u{b}' || c == '\u{c}' || c == '\r'),
        (c as int) >= 0x80 ==> (is_white_space(c) <==> c == '\u{85}' || c == '\u{a0}' || c
            == '\u{1680}' || '\u{2000}' <= c <= '\u{200a}' || c == '\u{2028}' || c == '\u{2029}'
            || c == '\u{202f}' || c == '\u{205f}' || c == '\u{3000}'),
{
}

/// A text is white space, its trimmed form, and white space again, and the
/// trimmed form has no white space at either end. Nothing else is its trimmed
/// form, and a trimmed text is its own.
pub proof fn law_trim(left: Seq<char>, t: Seq<char>, right: Seq<char>)
    requires
        forall|k: int| #![trigger left[k]] 0 <= k < left.len() ==> is_white_space(left[k]),
        forall|k: int| #![trigger right[k]] 0 <= k < right.len() ==> is_white_space(right[k]),
        t.len() > 0 ==> !is_white_space(t[0]) && !is_white_space(t.last()),
    ensures
        trim_spec(left + t + right) == t,
        is_trim_of(t, left + t + right),
        is_blank(left + t + right) <==> t.len() == 0,
{
    let s = left + t + right;
    let i = left.len() as int;
    let j = (left + t).len() as int;
    assert(s.subrange(i, j) =~= t);
    assert forall|k: int|
        #![trigger s[k]]
        (0 <= k < i || j <= k < s.len()) implies is_white_space(s[k]) by {
        if k < i {
            assert(s[k] == left[k]);
        } else {
            assert(s[k] == right[k - j]);
        }
    }
    assert(is_trim_of(t, s));
    let u = trim_spec(s);
    assert(is_trim_of(u, s));
    lemma_trim_unique(t, u, s);
    law_blank_is_empty_trim(t, s);
}

/// One text stands in another exactly where the other is some text, then the
/// one, then some text.
pub proof fn law_substring(needle: Seq<char>, hay: Seq<char>, before: Seq<char>, after: Seq<char>)
    ensures
        is_substring(needle, before + needle + after),
        is_substring(needle, hay) <==> exists|a: Seq<char>, b: Seq<char>|
            #![trigger a + needle + b]
            hay == a + needle + b,
        is_substring(Seq::empty(), hay),
        is_substring(needle, hay) ==> needle.len() <= hay.len(),
{
    let all = before + needle + after;
    assert(all.subrange(before.len() as int, before.len() as int + needle.len()) =~= needle);
    assert(occurs_at(all, needle, before.len() as int));
    assert(hay.subrange(0, 0) =~= Seq::empty());
    assert(occurs_at(hay, Seq::empty(), 0));
    if is_substring(needle, hay) {
        let i = choose|i: int| occurs_at(hay, needle, i);
        let a = hay.take(i);
        let b = hay.skip(i + needle.len());
        assert(hay =~= a + needle + b) by {
            assert forall|k: int| 0 <= k < hay.len() implies hay[k] == (a + needle + b)[k] by {
                if i <= k < i + needle.len() {
                    assert(hay.subrange(i, i + needle.len())[k - i] == hay[k]);
                }
            }
        }
    }
    if exists|a: Seq<char>, b: Seq<char>| #![trigger a + needle + b] hay == a + needle + b {
        let (a, b) = choose|a: Seq<char>, b: Seq<char>|
            #![trigger a + needle + b]
            hay == a + needle + b;
        assert(hay.subrange(a.len() as int, a.len() as int + needle.len()) =~= needle);
        assert(occurs_at(hay, needle, a.len() as int));
    }
}

/// Replacing a character touches its own places only, and all of them.
pub proof fn law_replace(s: Seq<char>, from: char, to: char, i: int)
    requires
        0 <= i < s.len(),
    ensures
        replace_spec(s, from, to).len() == s.len(),
        s[i] == from ==> replace_spec(s, from, to)[i] == to,
        s[i] != from ==> replace_spec(s, from, to)[i] == s[i],
{
}

} // verus!
