use vstd::prelude::*;
use vstd::string::StringSliceAdditionalSpecFns;
use vstd::utf8::{decode_utf8, valid_utf8};

verus! {

/// The error of `core::str::from_utf8`; nothing is read from it.
#[verifier::external_type_specification]
#[verifier::external_body]
pub struct ExUtf8Error(core::str::Utf8Error);

/// `core::str::from_utf8` accepts exactly the byte sequences that are well-formed UTF-8,
/// and the string slice it hands back is made of the very bytes it was given.
pub assume_specification[ core::str::from_utf8 ](v: &[u8]) -> (res: Result<
    &str,
    core::str::Utf8Error,
>)
    ensures
        res is Ok <==> valid_utf8(v@),
        res matches Ok(s) ==> s.spec_bytes() == v@,
;

/// The text that `bytes` encode in UTF-8, where they encode one.
pub open spec fn utf8_text(bytes: Seq<u8>) -> Option<Seq<char>> {
    if valid_utf8(bytes) {
        Some(decode_utf8(bytes))
    } else {
        None
    }
}

/// Whether `c` has the Unicode property White_Space.
pub open spec fn white_space(c: char) -> bool {
    let u = c as u32;
    ||| 0x09 <= u <= 0x0D
    ||| u == 0x20
    ||| u == 0x85
    ||| u == 0xA0
    ||| u == 0x1680
    ||| 0x2000 <= u <= 0x200A
    ||| u == 0x2028
    ||| u == 0x2029
    ||| u == 0x202F
    ||| u == 0x205F
    ||| u == 0x3000
}

/// `s` without its leading white space.
pub open spec fn trimmed_start(s: Seq<char>) -> Seq<char>
    decreases s.len(),
{
    if s.len() > 0 && white_space(s[0]) {
        trimmed_start(s.drop_first())
    } else {
        s
    }
}

/// `s` without its trailing white space.
pub open spec fn trimmed_end(s: Seq<char>) -> Seq<char>
    decreases s.len(),
{
    if s.len() > 0 && white_space(s.last()) {
        trimmed_end(s.drop_last())
    } else {
        s
    }
}

/// `s` without its leading and trailing white space.
pub open spec fn trimmed(s: Seq<char>) -> Seq<char> {
    trimmed_end(trimmed_start(s))
}

/// What is left of `s` without its leading white space does not begin with white space.
pub proof fn lemma_trimmed_start(s: Seq<char>)
    ensures
        trimmed_start(s).len() == 0 || !white_space(trimmed_start(s)[0]),
    decreases s.len(),
{
    if s.len() > 0 && white_space(s[0]) {
        lemma_trimmed_start(s.drop_first());
    }
}

/// What is left of `s` without its leading white space is the end of `s`.
pub proof fn lemma_trimmed_start_is_end(s: Seq<char>)
    ensures
        trimmed_start(s).len() <= s.len(),
        trimmed_start(s) == s.skip(s.len() - trimmed_start(s).len()),
    decreases s.len(),
{
    if s.len() > 0 && white_space(s[0]) {
        let rest = s.drop_first();
        lemma_trimmed_start_is_end(rest);
        let kept = trimmed_start(s);
        assert(kept =~= s.skip(s.len() - kept.len()));
    } else {
        assert(s =~= s.skip(0));
    }
}

/// What is left of `s` without its trailing white space is the beginning of `s`, and
/// does not end with white space.
pub proof fn lemma_trimmed_end(s: Seq<char>)
    ensures
        trimmed_end(s).len() <= s.len(),
        trimmed_end(s) == s.take(trimmed_end(s).len() as int),
        trimmed_end(s).len() == 0 || !white_space(trimmed_end(s).last()),
    decreases s.len(),
{
    if s.len() > 0 && white_space(s.last()) {
        lemma_trimmed_end(s.drop_last());
    }
}

/// Trimming keeps a stretch of `s`: a character that `s` does not hold is not in what is
/// left.
pub proof fn lemma_trimmed_holds_no_other(s: Seq<char>, c: char)
    requires
        forall|j: int| 0 <= j < s.len() ==> s[j] != c,
    ensures
        forall|j: int| 0 <= j < trimmed(s).len() ==> trimmed(s)[j] != c,
{
    let start = trimmed_start(s);
    lemma_trimmed_start_is_end(s);
    lemma_trimmed_end(start);
    assert forall|j: int| 0 <= j < trimmed(s).len() implies trimmed(s)[j] != c by {
        assert(trimmed(s)[j] == start.take(trimmed(s).len() as int)[j]);
        assert(start[j] == s[s.len() - start.len() + j]);
    }
}

/// Trimming what is trimmed changes nothing.
pub proof fn lemma_trimmed_twice(s: Seq<char>)
    ensures
        trimmed(trimmed(s)) == trimmed(s),
{
    lemma_trimmed_start(s);
    lemma_trimmed_end(trimmed_start(s));
}

/// The index of the first `c` in `s`, or the length of `s` where it holds none.
pub open spec fn position(s: Seq<char>, c: char) -> int
    decreases s.len(),
{
    if s.len() == 0 || s[0] == c {
        0
    } else {
        1 + position(s.drop_first(), c)
    }
}

/// The pieces into which the occurrences of `sep` cut `s`: one more than there are
/// occurrences, none of them holding `sep`.
pub open spec fn fields(s: Seq<char>, sep: char) -> Seq<Seq<char>>
    decreases s.len(),
{
    let i = position(s, sep);
    if 0 <= i < s.len() {
        seq![s.take(i)] + fields(s.skip(i + 1), sep)
    } else {
        seq![s]
    }
}

/// `position` is the least index at which `c` stands.
pub proof fn lemma_position(s: Seq<char>, c: char)
    ensures
        0 <= position(s, c) <= s.len(),
        position(s, c) < s.len() ==> s[position(s, c)] == c,
        forall|j: int| 0 <= j < position(s, c) ==> s[j] != c,
    decreases s.len(),
{
    if s.len() > 0 && s[0] != c {
        let rest = s.drop_first();
        lemma_position(rest, c);
        assert forall|j: int| 0 <= j < position(s, c) implies s[j] != c by {
            if j > 0 {
                assert(s[j] == rest[j - 1]);
            }
        }
    }
}

/// Cutting gives at least one piece.
pub proof fn lemma_fields_nonempty(s: Seq<char>, sep: char)
    ensures
        fields(s, sep).len() >= 1,
    decreases s.len(),
{
    let i = position(s, sep);
    if 0 <= i < s.len() {
        lemma_fields_nonempty(s.skip(i + 1), sep);
    }
}

/// An index before which no `c` stands and at which one does, or which is the length, is
/// the `position` of `c`.
pub proof fn lemma_position_is(s: Seq<char>, c: char, i: int)
    requires
        0 <= i <= s.len(),
        forall|j: int| 0 <= j < i ==> s[j] != c,
        i < s.len() ==> s[i] == c,
    ensures
        position(s, c) == i,
{
    lemma_position(s, c);
}

/// The pieces of `parts` in one sequence, with `sep` between each two neighbours.
pub open spec fn joined(parts: Seq<Seq<char>>, sep: Seq<char>) -> Seq<char>
    decreases parts.len(),
{
    if parts.len() == 0 {
        Seq::empty()
    } else if parts.len() == 1 {
        parts[0]
    } else {
        joined(parts.drop_last(), sep) + sep + parts.last()
    }
}

/// No piece of a cut holds the separator.
pub proof fn lemma_fields_hold_no_separator(s: Seq<char>, sep: char)
    ensures
        forall|k: int, j: int|
            0 <= k < fields(s, sep).len() && 0 <= j < fields(s, sep)[k].len() ==> fields(
                s,
                sep,
            )[k][j] != sep,
    decreases s.len(),
{
    lemma_position(s, sep);
    let i = position(s, sep);
    if i < s.len() {
        let rest = fields(s.skip(i + 1), sep);
        lemma_fields_hold_no_separator(s.skip(i + 1), sep);
        assert forall|k: int, j: int|
            0 <= k < fields(s, sep).len() && 0 <= j < fields(s, sep)[k].len() implies fields(
            s,
            sep,
        )[k][j] != sep by {
            if k == 0 {
                assert(s.take(i)[j] == s[j]);
            } else {
                assert(fields(s, sep)[k] == rest[k - 1]);
            }
        }
    }
}

/// A text that is put together of two, with a separator between them, is cut into the
/// pieces of the first and then those of the second.
pub proof fn lemma_fields_of_two(x: Seq<char>, y: Seq<char>, sep: char)
    ensures
        fields(x + seq![sep] + y, sep) == fields(x, sep) + fields(y, sep),
    decreases x.len(),
{
    let whole = x + seq![sep] + y;
    lemma_position(x, sep);
    let i = position(x, sep);
    assert forall|j: int| 0 <= j < i implies whole[j] != sep by {
        assert(whole[j] == x[j]);
    }
    if i < x.len() {
        assert(whole[i] == x[i]);
        lemma_position_is(whole, sep, i);
        assert(whole.take(i) =~= x.take(i));
        assert(whole.skip(i + 1) =~= x.skip(i + 1) + seq![sep] + y);
        lemma_fields_of_two(x.skip(i + 1), y, sep);
        assert(fields(whole, sep) =~= fields(x, sep) + fields(y, sep));
    } else {
        assert(whole[i] == sep);
        lemma_position_is(whole, sep, i);
        assert(whole.take(i) =~= x);
        assert(whole.skip(i + 1) =~= y);
        assert(fields(whole, sep) =~= fields(x, sep) + fields(y, sep));
    }
}

/// Pieces that hold no separator, joined by separators and cut again, are the same
/// pieces.
pub proof fn lemma_fields_of_joined(parts: Seq<Seq<char>>, sep: char)
    requires
        parts.len() >= 1,
        forall|k: int, j: int|
            0 <= k < parts.len() && 0 <= j < parts[k].len() ==> parts[k][j] != sep,
    ensures
        fields(joined(parts, seq![sep]), sep) == parts,
    decreases parts.len(),
{
    let last = parts.last();
    assert forall|j: int| 0 <= j < last.len() implies last[j] != sep by {
        assert(last == parts[parts.len() - 1]);
    }
    lemma_position_is(last, sep, last.len() as int);
    assert(fields(last, sep) =~= seq![last]);
    if parts.len() > 1 {
        let init = parts.drop_last();
        assert forall|k: int, j: int|
            0 <= k < init.len() && 0 <= j < init[k].len() implies init[k][j] != sep by {
            assert(init[k] == parts[k]);
        }
        lemma_fields_of_joined(init, sep);
        lemma_fields_of_two(joined(init, seq![sep]), last, sep);
        assert(init + seq![last] =~= parts);
    } else {
        assert(seq![last] =~= parts);
    }
}

/// Whether `pat` stands in `s` from index `i` on.
pub open spec fn occurs_at(s: Seq<char>, pat: Seq<char>, i: int) -> bool {
    0 <= i && i + pat.len() <= s.len() && s.subrange(i, i + pat.len()) == pat
}

/// Whether `pat` stands somewhere in `s`.
pub open spec fn occurs_in(s: Seq<char>, pat: Seq<char>) -> bool {
    exists|i: int| occurs_at(s, pat, i)
}

/// Whether `c` is one of the ten ASCII digits.
pub open spec fn is_digit(c: char) -> bool {
    '0' <= c <= '9'
}

/// The number that the decimal digits `s` write, most significant digit first.
pub open spec fn decimal_value(s: Seq<char>) -> nat
    decreases s.len(),
{
    if s.len() == 0 {
        0
    } else {
        (decimal_value(s.drop_last()) * 10 + (s.last() as u32 - '0' as u32)) as nat
    }
}

/// The `u32` that `s` writes in decimal: an optional `+`, then at least one digit and
/// nothing else, the number within the range of `u32`.
pub open spec fn decimal_u32(s: Seq<char>) -> Option<u32> {
    let digits = without_plus(s);
    if digits.len() > 0 && all_digits(digits) && decimal_value(digits) <= u32::MAX {
        Some(decimal_value(digits) as u32)
    } else {
        None
    }
}

/// `s` without the `+` that it may begin with.
pub open spec fn without_plus(s: Seq<char>) -> Seq<char> {
    if s.len() > 0 && s[0] == '+' {
        s.drop_first()
    } else {
        s
    }
}

/// Whether `s` holds digits only.
pub open spec fn all_digits(s: Seq<char>) -> bool {
    forall|i: int| 0 <= i < s.len() ==> is_digit(#[trigger] s[i])
}

/// `c` with an ASCII capital letter replaced by its small letter.
pub open spec fn ascii_lowered(c: char) -> char {
    if 'A' <= c <= 'Z' {
        ((c as u8) + 32u8) as char
    } else {
        c
    }
}

/// Whether `a` and `b` are equal but for the case of their ASCII letters.
pub open spec fn same_ignoring_ascii_case(a: Seq<char>, b: Seq<char>) -> bool {
    a.len() == b.len() && forall|i: int|
        0 <= i < a.len() ==> ascii_lowered(#[trigger] a[i]) == ascii_lowered(b[i])
}

/// A number does not get smaller as digits are written behind it.
pub proof fn lemma_decimal_value_grows(s: Seq<char>, k: int)
    requires
        0 <= k <= s.len(),
        all_digits(s),
    ensures
        decimal_value(s.take(k)) <= decimal_value(s),
    decreases s.len() - k,
{
    if k < s.len() {
        let init = s.drop_last();
        if k < init.len() {
            lemma_decimal_value_grows(init, k);
            assert(init.take(k) =~= s.take(k));
        }
    } else {
        assert(s.take(k) =~= s);
    }
}

/// Reads `bytes` as UTF-8.
pub fn decode(bytes: &[u8]) -> (out: Option<&str>)
    ensures
        out is Some <==> valid_utf8(bytes@),
        out matches Some(s) ==> utf8_text(bytes@) == Some(s@),
{
    match core::str::from_utf8(bytes) {
        Ok(s) => {
            proof {
                vstd::utf8::encode_utf8_decode_utf8(s@);
            }
            Some(s)
        },
        Err(_) => None,
    }
}

/// The characters of `s`, in order.
pub fn chars_of(s: &str) -> (out: Vec<char>)
    ensures
        out@ == s@,
{
    let mut out: Vec<char> = Vec::new();
    for c in it: s.chars()
        invariant
            out@ == it.seq().take(it.index@ as int),
    {
        out.push(c);
    }
    out
}

/// Tests a character for white space.
pub fn is_whitespace(c: char) -> (b: bool)
    ensures
        b == white_space(c),
{
    let u: u32 = c as u32;
    (0x09 <= u && u <= 0x0D) || u == 0x20 || u == 0x85 || u == 0xA0 || u == 0x1680 || (0x2000 <= u
        && u <= 0x200A) || u == 0x2028 || u == 0x2029 || u == 0x202F || u == 0x205F || u == 0x3000
}

/// The slice of `s` that is left when leading and trailing white space is cut off.
pub fn trim(s: &str) -> (out: &str)
    ensures
        out@ == trimmed(s@),
{
    let cs = chars_of(s);
    let n: usize = cs.len();
    let mut start: usize = 0;
    assert(s@.subrange(0, n as int) =~= s@);
    while start < n && is_whitespace(cs[start])
        invariant
            cs@ == s@,
            n == cs@.len(),
            start <= n,
            trimmed_start(s@) == trimmed_start(s@.subrange(start as int, n as int)),
        decreases n - start,
    {
        proof {
            let cur = s@.subrange(start as int, n as int);
            assert(cur.drop_first() =~= s@.subrange(start as int + 1, n as int));
        }
        start += 1;
    }
    let mut end: usize = n;
    while end > start && is_whitespace(cs[end - 1])
        invariant
            cs@ == s@,
            n == cs@.len(),
            start <= end <= n,
            trimmed_start(s@) == s@.subrange(start as int, n as int),
            trimmed(s@) == trimmed_end(s@.subrange(start as int, end as int)),
        decreases end - start,
    {
        proof {
            let cur = s@.subrange(start as int, end as int);
            assert(cur.drop_last() =~= s@.subrange(start as int, end as int - 1));
        }
        end -= 1;
    }
    s.substring_char(start, end)
}

/// Cuts `s` at every `sep`.
pub fn split(s: &str, sep: char) -> (out: Vec<String>)
    ensures
        out.deep_view() == fields(s@, sep),
{
    let cs = chars_of(s);
    let n: usize = cs.len();
    let mut out: Vec<String> = Vec::new();
    let mut from: usize = 0;
    let mut i: usize = 0;
    assert(s@.skip(0) =~= s@);
    while i < n
        invariant
            cs@ == s@,
            n == cs@.len(),
            from <= i <= n,
            forall|j: int| from <= j < i ==> s@[j] != sep,
            fields(s@, sep) == out.deep_view() + fields(s@.skip(from as int), sep),
        decreases n - i,
    {
        if cs[i] == sep {
            let piece = s.substring_char(from, i).to_owned();
            proof {
                let rest = s@.skip(from as int);
                lemma_position_is(rest, sep, i - from);
                assert(rest.take(i - from) =~= s@.subrange(from as int, i as int));
                assert(rest.skip(i - from + 1) =~= s@.skip(i + 1));
            }
            out.push(piece);
            from = i + 1;
        }
        i += 1;
    }
    let piece = s.substring_char(from, n).to_owned();
    proof {
        let rest = s@.skip(from as int);
        lemma_position_is(rest, sep, n - from);
    }
    out.push(piece);
    out
}

/// Whether two strings hold the same characters.
pub fn same(a: &str, b: &str) -> (r: bool)
    ensures
        r == (a@ == b@),
{
    let x = chars_of(a);
    let y = chars_of(b);
    if x.len() != y.len() {
        return false;
    }
    let n: usize = x.len();
    let mut i: usize = 0;
    while i < n
        invariant
            x@ == a@,
            y@ == b@,
            n == x@.len(),
            n == y@.len(),
            i <= n,
            forall|j: int| 0 <= j < i ==> a@[j] == b@[j],
        decreases n - i,
    {
        if x[i] != y[i] {
            return false;
        }
        i += 1;
    }
    assert(a@ =~= b@);
    true
}

/// Whether `pat` stands in `cs` from index `i` on.
fn stands_at(cs: &Vec<char>, pat: &Vec<char>, i: usize) -> (r: bool)
    ensures
        r == occurs_at(cs@, pat@, i as int),
{
    let n: usize = cs.len();
    let m: usize = pat.len();
    if m > n || i > n - m {
        return false;
    }
    let mut k: usize = 0;
    while k < m
        invariant
            n == cs@.len(),
            m == pat@.len(),
            i + m <= n,
            k <= m,
            forall|j: int| 0 <= j < k ==> cs@[i + j] == pat@[j],
        decreases m - k,
    {
        if cs[i + k] != pat[k] {
            return false;
        }
        k += 1;
    }
    assert(cs@.subrange(i as int, i + m) =~= pat@);
    true
}

/// Whether `s` begins with `prefix`.
pub fn starts_with(s: &str, prefix: &str) -> (r: bool)
    ensures
        r == prefix@.is_prefix_of(s@),
{
    let cs = chars_of(s);
    let ps = chars_of(prefix);
    stands_at(&cs, &ps, 0)
}

/// Whether `pat` stands somewhere in `s`.
pub fn contains(s: &str, pat: &str) -> (r: bool)
    ensures
        r == occurs_in(s@, pat@),
{
    let cs = chars_of(s);
    let ps = chars_of(pat);
    let n: usize = cs.len();
    let mut i: usize = 0;
    while i < n
        invariant
            cs@ == s@,
            ps@ == pat@,
            n == cs@.len(),
            i <= n,
            forall|j: int| 0 <= j < i ==> !occurs_at(s@, pat@, j),
        decreases n - i,
    {
        if stands_at(&cs, &ps, i) {
            return true;
        }
        i += 1;
    }
    stands_at(&cs, &ps, n)
}

/// The pieces of `parts` in one string, with `sep` between each two neighbours.
pub fn join(parts: &Vec<String>, sep: &str) -> (out: String)
    ensures
        out@ == joined(parts.deep_view(), sep@),
{
    let mut out = String::new();
    let n: usize = parts.len();
    let mut i: usize = 0;
    while i < n
        invariant
            n == parts@.len(),
            i <= n,
            out@ == joined(parts.deep_view().take(i as int), sep@),
        decreases n - i,
    {
        proof {
            let next = parts.deep_view().take(i + 1);
            assert(next.drop_last() =~= parts.deep_view().take(i as int));
        }
        if i > 0 {
            out.append(sep);
        }
        out.append(parts[i].as_str());
        i += 1;
    }
    assert(parts.deep_view().take(n as int) =~= parts.deep_view());
    out
}

/// Reads `s` as a `u32` written in decimal.
pub fn parse_u32(s: &str) -> (r: Option<u32>)
    ensures
        r == decimal_u32(s@),
{
    let cs = chars_of(s);
    let n: usize = cs.len();
    let first: usize = if n > 0 && cs[0] == '+' {
        1
    } else {
        0
    };
    let ghost digits = without_plus(s@);
    if first == n {
        return None;
    }
    let mut value: u64 = 0;
    let mut i: usize = first;
    while i < n
        invariant
            cs@ == s@,
            n == cs@.len(),
            first <= i <= n,
            digits == s@.skip(first as int),
            digits == without_plus(s@),
            forall|j: int| 0 <= j < i - first ==> is_digit(#[trigger] digits[j]),
            value == decimal_value(digits.take(i - first)),
            value <= u32::MAX,
        decreases n - i,
    {
        let c = cs[i];
        assert(digits[i - first] == c);
        if !('0' <= c && c <= '9') {
            return None;
        }
        let d: u64 = (c as u32 - '0' as u32) as u64;
        proof {
            let next = digits.take(i - first + 1);
            assert(next.drop_last() =~= digits.take(i - first));
        }
        value = value * 10 + d;
        if value > 0xffff_ffff {
            proof {
                if all_digits(digits) {
                    lemma_decimal_value_grows(digits, i - first + 1);
                }
            }
            return None;
        }
        i += 1;
    }
    assert(digits.take(n - first) =~= digits);
    Some(value as u32)
}

/// Puts an ASCII capital letter into lower case.
pub fn ascii_lower(c: char) -> (r: char)
    ensures
        r == ascii_lowered(c),
{
    if 'A' <= c && c <= 'Z' {
        ((c as u8) + 32u8) as char
    } else {
        c
    }
}

/// Whether two strings are equal but for the case of their ASCII letters.
pub fn same_ignoring_case(a: &str, b: &str) -> (r: bool)
    ensures
        r == same_ignoring_ascii_case(a@, b@),
{
    let x = chars_of(a);
    let y = chars_of(b);
    if x.len() != y.len() {
        return false;
    }
    let n: usize = x.len();
    let mut i: usize = 0;
    while i < n
        invariant
            x@ == a@,
            y@ == b@,
            n == x@.len(),
            n == y@.len(),
            i <= n,
            forall|j: int| 0 <= j < i ==> ascii_lowered(#[trigger] a@[j]) == ascii_lowered(b@[j]),
        decreases n - i,
    {
        if ascii_lower(x[i]) != ascii_lower(y[i]) {
            return false;
        }
        i += 1;
    }
    true
}

} // verus!
