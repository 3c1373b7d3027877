//! Small shared helpers: building strings character by character, decimal
//! rendering and parsing of integers.

use vstd::prelude::*;

verus! {

/// Relies on `String::push`: appends exactly the given character.
#[verifier::external_body]
pub fn push_char(s: &mut String, c: char)
    ensures
        final(s)@ == old(s)@.push(c),
{
    s.push(c)
}

/// Character for a single decimal digit.
pub open spec fn spec_digit_char(d: int) -> char {
    ((48 + d) as u8) as char
}

/// Decimal digit sequence of a natural number, most significant first.
pub open spec fn spec_u64_digits(n: nat) -> Seq<char>
    decreases n,
{
    if n < 10 {
        seq![spec_digit_char(n as int)]
    } else {
        spec_u64_digits(n / 10).push(spec_digit_char((n % 10) as int))
    }
}

/// Decimal rendering of a signed number: a minus sign for negative values,
/// then the digits of the magnitude.
pub open spec fn spec_i64_digits(v: int) -> Seq<char> {
    if v < 0 {
        seq!['-'] + spec_u64_digits((-v) as nat)
    } else {
        spec_u64_digits(v as nat)
    }
}

fn digit_char(d: u8) -> (c: char)
    requires
        d < 10,
    ensures
        c == spec_digit_char(d as int),
{
    (48 + d) as char
}

/// Decimal rendering of an unsigned number.
pub fn u64_to_string(n: u64) -> (r: String)
    ensures
        r@ == spec_u64_digits(n as nat),
    decreases n,
{
    if n < 10 {
        let mut s = String::new();
        push_char(&mut s, digit_char(n as u8));
        s
    } else {
        let mut s = u64_to_string(n / 10);
        push_char(&mut s, digit_char((n % 10) as u8));
        s
    }
}

/// Decimal rendering of a signed number.
pub fn i64_to_string(v: i64) -> (r: String)
    ensures
        r@ == spec_i64_digits(v as int),
{
    if v < 0 {
        let mag: u64 = (-(v as i128)) as u64;
        let mut s = String::new();
        push_char(&mut s, '-');
        let digits = u64_to_string(mag);
        let mut out = s;
        out.append(digits.as_str());
        assert(out@ =~= spec_i64_digits(v as int));
        out
    } else {
        u64_to_string(v as u64)
    }
}

/// Character-wise string equality.
pub fn str_eq(a: &str, b: &str) -> (r: bool)
    ensures
        r == (a@ == b@),
{
    let na = a.unicode_len();
    let nb = b.unicode_len();
    if na != nb {
        return false;
    }
    let mut i: usize = 0;
    while i < na
        invariant
            i <= na == a@.len(),
            na == nb == b@.len(),
            forall|j: int| 0 <= j < i ==> a@[j] == b@[j],
        decreases na - i,
    {
        if a.get_char(i) != b.get_char(i) {
            return false;
        }
        i += 1;
    }
    proof {
        assert(a@ =~= b@);
    }
    true
}

/// Whether the character is a decimal digit.
pub open spec fn spec_is_digit(c: char) -> bool {
    48 <= c as int <= 57
}

/// Whether the sequence is entirely decimal digits.
pub open spec fn spec_all_digits(s: Seq<char>) -> bool {
    forall|i: int| 0 <= i < s.len() ==> spec_is_digit(#[trigger] s[i])
}

/// Numeric value of a digit sequence, read in base ten.
pub open spec fn spec_digits_value(s: Seq<char>) -> int
    decreases s.len(),
{
    if s.len() == 0 {
        0
    } else {
        spec_digits_value(s.drop_last()) * 10 + (s.last() as int - 48)
    }
}

/// Whether the sequence is a well-formed decimal integer literal:
/// an optional minus sign followed by at least one digit.
pub open spec fn spec_is_int_literal(s: Seq<char>) -> bool {
    if s.len() > 0 && s[0] == '-' {
        s.len() >= 2 && spec_all_digits(s.subrange(1, s.len() as int))
    } else {
        s.len() >= 1 && spec_all_digits(s)
    }
}

/// Numeric value of a well-formed decimal integer literal.
pub open spec fn spec_int_literal_value(s: Seq<char>) -> int {
    if s.len() > 0 && s[0] == '-' {
        -spec_digits_value(s.subrange(1, s.len() as int))
    } else {
        spec_digits_value(s)
    }
}

proof fn lemma_digits_value_nonneg(s: Seq<char>)
    requires
        spec_all_digits(s),
    ensures
        spec_digits_value(s) >= 0,
    decreases s.len(),
{
    if s.len() > 0 {
        assert(spec_all_digits(s.drop_last())) by {
            assert(forall|i: int|
                0 <= i < s.len() - 1 ==> spec_is_digit(#[trigger] s.drop_last()[i]));
        }
        lemma_digits_value_nonneg(s.drop_last());
    }
}

/// Parses an optional minus sign followed by decimal digits. Returns the
/// value exactly when the text is a well-formed literal whose value fits
/// in an `i32`.
pub fn parse_i32(s: &str) -> (r: Option<i32>)
    ensures
        r matches Some(v) ==> spec_is_int_literal(s@) && v as int == spec_int_literal_value(s@),
        r is None ==> !spec_is_int_literal(s@) || spec_int_literal_value(s@) < i32::MIN
            || spec_int_literal_value(s@) > i32::MAX,
{
    let n = s.unicode_len();
    if n == 0 {
        return None;
    }
    let neg = s.get_char(0) == '-';
    let start: usize = if neg {
        1
    } else {
        0
    };
    if start >= n {
        return None;
    }
    let ghost digits = s@.subrange(start as int, n as int);
    let mut mag: u64 = 0;
    let mut i: usize = start;
    while i < n
        invariant
            start <= i <= n,
            0 < n == s@.len(),
            start == if neg { 1int } else { 0int },
            neg <==> s@[0] == '-',
            digits == s@.subrange(start as int, n as int),
            spec_all_digits(s@.subrange(start as int, i as int)),
            mag == spec_digits_value(s@.subrange(start as int, i as int)),
            mag <= 0x8000_0000,
        decreases n - i,
    {
        let c = s.get_char(i);
        let u = c as u32;
        if u < 48 || u > 57 {
            proof {
                assert(!spec_is_digit(s@[i as int]));
                if spec_is_int_literal(s@) {
                    if neg {
                        assert(spec_is_digit(s@.subrange(1, s@.len() as int)[i - 1]));
                    } else {
                        assert(spec_all_digits(s@));
                        assert(spec_is_digit(s@[i as int]));
                    }
                }
            }
            return None;
        }
        let d: u64 = (u - 48) as u64;
        proof {
            assert(s@.subrange(start as int, i + 1).drop_last() =~= s@.subrange(
                start as int,
                i as int,
            ));
            assert(s@.subrange(start as int, i + 1).last() == s@[i as int]);
        }
        if mag > 214748364 || (mag == 214748364 && d > 8) {
            // The prefix already exceeds the i32 range; appending further
            // digits can only increase the magnitude.
            proof {
                let pre = s@.subrange(start as int, i + 1);
                assert(spec_digits_value(pre) == mag * 10 + d);
                if spec_is_int_literal(s@) {
                    if neg {
                        assert(spec_all_digits(s@.subrange(1, s@.len() as int)));
                        assert(digits =~= s@.subrange(1, s@.len() as int));
                    } else {
                        assert(digits =~= s@);
                    }
                    lemma_digits_prefix_monotone(s@, start as int, i + 1);
                    assert(spec_digits_value(digits) >= spec_digits_value(pre));
                    if neg {
                        assert(spec_int_literal_value(s@) == -spec_digits_value(digits));
                    } else {
                        assert(spec_int_literal_value(s@) == spec_digits_value(digits));
                    }
                }
            }
            return None;
        }
        mag = mag * 10 + d;
        i += 1;
    }
    proof {
        assert(s@.subrange(start as int, n as int) =~= digits);
        if neg {
            assert(s@.subrange(1, s@.len() as int) =~= digits);
        } else {
            assert(s@.subrange(0, s@.len() as int) =~= s@);
        }
        assert(spec_is_int_literal(s@));
    }
    if neg {
        if mag > 0x8000_0000 {
            return None;
        }
        Some((-(mag as i64)) as i32)
    } else {
        if mag > 0x7fff_ffff {
            return None;
        }
        Some(mag as i32)
    }
}

/// The value of a digit prefix never exceeds the value of the digits it
/// prefixes.
proof fn lemma_digits_prefix_monotone(s: Seq<char>, start: int, mid: int)
    requires
        0 <= start <= mid <= s.len(),
        spec_all_digits(s.subrange(start, s.len() as int)),
    ensures
        spec_digits_value(s.subrange(start, s.len() as int)) >= spec_digits_value(
            s.subrange(start, mid),
        ),
        spec_digits_value(s.subrange(start, s.len() as int)) >= 0,
    decreases s.len() - mid,
{
    let full = s.subrange(start, s.len() as int);
    assert(spec_all_digits(s.subrange(start, mid))) by {
        assert(forall|i: int|
            0 <= i < mid - start ==> s.subrange(start, mid)[i] == #[trigger] full[i]);
    }
    lemma_digits_value_nonneg(s.subrange(start, mid));
    if mid == s.len() {
        assert(s.subrange(start, mid) =~= full);
    } else {
        assert(s.subrange(start, mid + 1).drop_last() =~= s.subrange(start, mid));
        assert(spec_is_digit(full[mid - start]));
        assert(s.subrange(start, mid + 1).last() == full[mid - start]);
        assert(spec_digits_value(s.subrange(start, mid + 1)) >= spec_digits_value(
            s.subrange(start, mid),
        ));
        lemma_digits_prefix_monotone(s, start, mid + 1);
    }
}

/// Whether the character counts as whitespace (the Unicode white-space
/// set).
pub open spec fn spec_is_ws(c: char) -> bool {
    ||| 9 <= c as u32 <= 13
    ||| c as u32 == 32
    ||| c as u32 == 0x85
    ||| c as u32 == 0xA0
    ||| c as u32 == 0x1680
    ||| 0x2000 <= c as u32 <= 0x200A
    ||| c as u32 == 0x2028
    ||| c as u32 == 0x2029
    ||| c as u32 == 0x202F
    ||| c as u32 == 0x205F
    ||| c as u32 == 0x3000
}

/// Whether the character counts as whitespace.
#[verifier::when_used_as_spec(spec_is_ws)]
pub fn is_ws(c: char) -> (r: bool)
    ensures
        r == spec_is_ws(c),
{
    let u = c as u32;
    (9 <= u && u <= 13) || u == 32 || u == 0x85 || u == 0xA0 || u == 0x1680 || (0x2000 <= u && u
        <= 0x200A) || u == 0x2028 || u == 0x2029 || u == 0x202F || u == 0x205F || u == 0x3000
}

/// The sequence with every maximal whitespace run collapsed to a single
/// space.
pub open spec fn spec_collapse_ws(s: Seq<char>) -> Seq<char>
    decreases s.len(),
{
    if s.len() == 0 {
        s
    } else {
        let p = spec_collapse_ws(s.drop_last());
        if spec_is_ws(s.last()) {
            if s.len() >= 2 && spec_is_ws(s[s.len() - 2]) {
                p
            } else {
                p.push(' ')
            }
        } else {
            p.push(s.last())
        }
    }
}

/// Collapses every whitespace run of the text to a single space.
pub fn collapse_ws(s: &str) -> (r: String)
    ensures
        r@ == spec_collapse_ws(s@),
{
    let n = s.unicode_len();
    let mut out = String::new();
    let mut prev_ws = false;
    let mut i: usize = 0;
    while i < n
        invariant
            i <= n == s@.len(),
            prev_ws == (i > 0 && spec_is_ws(s@[i - 1])),
            out@ == spec_collapse_ws(s@.subrange(0, i as int)),
        decreases n - i,
    {
        proof {
            assert(s@.subrange(0, i + 1).drop_last() =~= s@.subrange(0, i as int));
            assert(s@.subrange(0, i + 1).last() == s@[i as int]);
            if i > 0 {
                assert(s@.subrange(0, i + 1)[i - 1] == s@[i - 1]);
            }
        }
        let c = s.get_char(i);
        if is_ws(c) {
            if !prev_ws {
                push_char(&mut out, ' ');
            }
            prev_ws = true;
        } else {
            push_char(&mut out, c);
            prev_ws = false;
        }
        i += 1;
    }
    proof {
        assert(s@.subrange(0, n as int) =~= s@);
    }
    out
}

/// The text cut to the character budget: an over-long text keeps its
/// first `approx` characters and gains a truncation marker.
pub open spec fn spec_truncate(s: Seq<char>, approx: int) -> Seq<char> {
    if s.len() <= approx {
        s
    } else {
        s.subrange(0, approx) + "[...]"@
    }
}

/// Cuts the text to the character budget, appending a truncation marker
/// when something was cut.
pub fn dc_truncate(s: &str, approx_chars: usize) -> (r: String)
    ensures
        r@ == spec_truncate(s@, approx_chars as int),
{
    let n = s.unicode_len();
    if n <= approx_chars {
        s.to_owned()
    } else {
        let mut out = s.substring_char(0, approx_chars).to_owned();
        out.append("[...]");
        out
    }
}

/// Longest suffix of the sequence free of the stop character.
pub open spec fn spec_tail_after_last(t: Seq<char>, stop: char) -> Seq<char>
    decreases t.len(),
{
    if t.len() == 0 {
        t
    } else if t.last() == stop {
        Seq::empty()
    } else {
        spec_tail_after_last(t.drop_last(), stop).push(t.last())
    }
}

/// The suffix after the last stop character is the subrange following it.
proof fn lemma_tail_after_last(t: Seq<char>, stop: char, k: int)
    requires
        0 <= k <= t.len(),
        forall|j: int| k <= j < t.len() ==> t[j] != stop,
        k > 0 ==> t[k - 1] == stop,
    ensures
        spec_tail_after_last(t, stop) == t.subrange(k, t.len() as int),
    decreases t.len(),
{
    if k == t.len() {
        if k > 0 {
            assert(t.last() == stop);
        }
        assert(t.subrange(k, t.len() as int).len() == 0);
        assert(spec_tail_after_last(t, stop) =~= t.subrange(k, t.len() as int));
    } else {
        assert(t.last() != stop);
        let rest = t.drop_last();
        assert(forall|j: int| k <= j < rest.len() ==> #[trigger] rest[j] != stop);
        lemma_tail_after_last(rest, stop, k);
        assert(spec_tail_after_last(t, stop) == rest.subrange(k, rest.len() as int).push(
            t.last(),
        ));
        assert(rest.subrange(k, rest.len() as int).push(t.last()) =~= t.subrange(
            k,
            t.len() as int,
        ));
    }
}

/// The locator without its trailing slashes.
pub open spec fn spec_strip_trailing_slashes(s: Seq<char>) -> Seq<char>
    decreases s.len(),
{
    if s.len() > 0 && s.last() == '/' {
        spec_strip_trailing_slashes(s.drop_last())
    } else {
        s
    }
}

/// Stripping trailing slashes keeps exactly the prefix before them.
proof fn lemma_strip_trailing(s: Seq<char>, end: int)
    requires
        0 <= end <= s.len(),
        forall|j: int| end <= j < s.len() ==> s[j] == '/',
        end > 0 ==> s[end - 1] != '/',
    ensures
        spec_strip_trailing_slashes(s) == s.subrange(0, end),
    decreases s.len(),
{
    if end == s.len() {
        assert(s.subrange(0, end) =~= s);
        if s.len() > 0 {
            assert(s.last() != '/');
        }
    } else {
        assert(s.last() == '/');
        let rest = s.drop_last();
        assert(forall|j: int| end <= j < rest.len() ==> #[trigger] rest[j] == '/');
        lemma_strip_trailing(rest, end);
        assert(rest.subrange(0, end) =~= s.subrange(0, end));
    }
}

/// File-name component of a locator: the part after the last slash, with
/// trailing slashes ignored; nothing for an empty locator or a parent
/// reference.
pub open spec fn spec_file_name(s: Seq<char>) -> Option<Seq<char>> {
    let t = spec_strip_trailing_slashes(s);
    if t.len() == 0 {
        None
    } else {
        let tail = spec_tail_after_last(t, '/');
        if tail == ".."@ {
            None
        } else {
            Some(tail)
        }
    }
}

/// Extracts the file-name component of a locator.
pub fn file_name_part(s: &str) -> (r: Option<String>)
    ensures
        r matches Some(v) ==> spec_file_name(s@) == Some(v@),
        r is None ==> spec_file_name(s@) is None,
{
    let n = s.unicode_len();
    let mut end: usize = n;
    while end > 0 && s.get_char(end - 1) == '/'
        invariant
            0 <= end <= n == s@.len(),
            forall|j: int| end <= j < n ==> s@[j] == '/',
        decreases end,
    {
        end -= 1;
    }
    proof {
        lemma_strip_trailing(s@, end as int);
    }
    if end == 0 {
        return None;
    }
    let mut k: usize = end;
    while k > 0 && s.get_char(k - 1) != '/'
        invariant
            0 <= k <= end <= s@.len(),
            forall|j: int| k <= j < end ==> s@[j] != '/',
        decreases k,
    {
        k -= 1;
    }
    let tail = s.substring_char(k, end);
    proof {
        let t = s@.subrange(0, end as int);
        assert(forall|j: int| k <= j < t.len() ==> #[trigger] t[j] != '/');
        if k > 0 {
            assert(t[k - 1] == '/');
        }
        lemma_tail_after_last(t, '/', k as int);
        assert(t.subrange(k as int, end as int) =~= s@.subrange(k as int, end as int));
    }
    if str_eq(tail, "..") {
        return None;
    }
    Some(tail.to_owned())
}

/// Lower-case form of an ASCII letter; other characters are untouched.
pub open spec fn spec_lower_char(c: char) -> char {
    if 65 <= c as u32 <= 90 {
        ((c as u32 + 32) as u8) as char
    } else {
        c
    }
}

/// The sequence with ASCII letters folded to lower case.
pub open spec fn spec_ascii_lower(s: Seq<char>) -> Seq<char> {
    Seq::new(s.len(), |i: int| spec_lower_char(s[i]))
}

/// Folds ASCII letters of the text to lower case.
pub fn ascii_lowercase(s: &str) -> (r: String)
    ensures
        r@ == spec_ascii_lower(s@),
{
    let n = s.unicode_len();
    let mut out = String::new();
    let mut i: usize = 0;
    while i < n
        invariant
            i <= n == s@.len(),
            out@ =~= spec_ascii_lower(s@).subrange(0, i as int),
        decreases n - i,
    {
        let c = s.get_char(i);
        let u = c as u32;
        let lc: char = if 65 <= u && u <= 90 {
            ((u + 32) as u8) as char
        } else {
            c
        };
        proof {
            assert(lc == spec_lower_char(s@[i as int]));
            assert(spec_ascii_lower(s@).subrange(0, i + 1) =~= spec_ascii_lower(s@).subrange(
                0,
                i as int,
            ).push(spec_lower_char(s@[i as int])));
        }
        push_char(&mut out, lc);
        i += 1;
    }
    proof {
        assert(spec_ascii_lower(s@).subrange(0, n as int) =~= spec_ascii_lower(s@));
    }
    out
}

/// Extension of a file name: the part after the last dot, absent when
/// there is no dot past the first character.
pub open spec fn spec_extension(f: Seq<char>) -> Option<Seq<char>> {
    if exists|i: int| 1 <= i < f.len() && f[i] == '.' {
        Some(spec_tail_after_last(f, '.'))
    } else {
        None
    }
}

/// Extracts the extension of a file name.
pub fn extension_part(f: &str) -> (r: Option<String>)
    ensures
        r matches Some(v) ==> spec_extension(f@) == Some(v@),
        r is None ==> spec_extension(f@) is None,
{
    let m = f.unicode_len();
    let mut k: usize = m;
    while k > 0 && f.get_char(k - 1) != '.'
        invariant
            0 <= k <= m == f@.len(),
            forall|j: int| k <= j < m ==> f@[j] != '.',
        decreases k,
    {
        k -= 1;
    }
    if k <= 1 {
        proof {
            if exists|i: int| 1 <= i < f@.len() && f@[i] == '.' {
                let w = choose|i: int| 1 <= i < f@.len() && f@[i] == '.';
                assert(f@[w] != '.');
            }
        }
        return None;
    }
    proof {
        assert(f@[k - 1] == '.');
        lemma_tail_after_last(f@, '.', k as int);
    }
    Some(f.substring_char(k, m).to_owned())
}

/// The sequence without leading whitespace.
pub open spec fn spec_trim_start(s: Seq<char>) -> Seq<char>
    decreases s.len(),
{
    if s.len() > 0 && spec_is_ws(s[0]) {
        spec_trim_start(s.drop_first())
    } else {
        s
    }
}

/// The sequence without trailing whitespace.
pub open spec fn spec_trim_end(s: Seq<char>) -> Seq<char>
    decreases s.len(),
{
    if s.len() > 0 && spec_is_ws(s.last()) {
        spec_trim_end(s.drop_last())
    } else {
        s
    }
}

/// The sequence without leading and trailing whitespace.
pub open spec fn spec_trim(s: Seq<char>) -> Seq<char> {
    spec_trim_end(spec_trim_start(s))
}

proof fn lemma_trim_start(s: Seq<char>, a: int)
    requires
        0 <= a <= s.len(),
        forall|j: int| 0 <= j < a ==> spec_is_ws(s[j]),
        a < s.len() ==> !spec_is_ws(s[a]),
    ensures
        spec_trim_start(s) == s.subrange(a, s.len() as int),
    decreases a,
{
    if a == 0 {
        assert(s.subrange(0, s.len() as int) =~= s);
    } else {
        let rest = s.drop_first();
        assert(forall|j: int| 0 <= j < a - 1 ==> spec_is_ws(#[trigger] rest[j]));
        lemma_trim_start(rest, a - 1);
        assert(rest.subrange(a - 1, rest.len() as int) =~= s.subrange(a, s.len() as int));
    }
}

proof fn lemma_trim_end(s: Seq<char>, b: int)
    requires
        0 <= b <= s.len(),
        forall|j: int| b <= j < s.len() ==> spec_is_ws(s[j]),
        b > 0 ==> !spec_is_ws(s[b - 1]),
    ensures
        spec_trim_end(s) == s.subrange(0, b),
    decreases s.len(),
{
    if b == s.len() {
        assert(s.subrange(0, b) =~= s);
        if s.len() > 0 {
            assert(!spec_is_ws(s.last()));
        }
    } else {
        assert(spec_is_ws(s.last()));
        let rest = s.drop_last();
        assert(forall|j: int| b <= j < rest.len() ==> spec_is_ws(#[trigger] rest[j]));
        lemma_trim_end(rest, b);
        assert(rest.subrange(0, b) =~= s.subrange(0, b));
    }
}

/// Removes leading and trailing whitespace.
pub fn trim_ws(s: &str) -> (r: String)
    ensures
        r@ == spec_trim(s@),
{
    let n = s.unicode_len();
    let mut a: usize = 0;
    while a < n && is_ws(s.get_char(a))
        invariant
            0 <= a <= n == s@.len(),
            forall|j: int| 0 <= j < a ==> spec_is_ws(s@[j]),
        decreases n - a,
    {
        a += 1;
    }
    let mut b: usize = n;
    while b > a && is_ws(s.get_char(b - 1))
        invariant
            a <= b <= n == s@.len(),
            forall|j: int| b <= j < n ==> spec_is_ws(s@[j]),
            forall|j: int| 0 <= j < a ==> spec_is_ws(s@[j]),
            a < n ==> !spec_is_ws(s@[a as int]),
        decreases b,
    {
        b -= 1;
    }
    proof {
        lemma_trim_start(s@, a as int);
        let t = s@.subrange(a as int, n as int);
        assert(forall|j: int| b - a <= j < t.len() ==> spec_is_ws(#[trigger] t[j]));
        if b > a {
            assert(t[b - a - 1] == s@[b - 1]);
        }
        lemma_trim_end(t, b - a);
        assert(t.subrange(0, b - a) =~= s@.subrange(a as int, b as int));
    }
    s.substring_char(a, b).to_owned()
}

} // verus!
