//! Text as sequences of characters: the pieces a line is split into, the
//! whitespace trimmed off its ends, and the numbers written in it.
//!
//! Every function here works on `Vec<char>` and is stated over the `Seq<char>`
//! it holds, so the callers can say what they do to a string in the same
//! terms `str`'s own methods are documented in.

use vstd::prelude::*;

verus! {

// ------------------------------------------------------------ characters

/// Whether a character is white space in Unicode's sense, which is the sense
/// `char::is_whitespace`, `str::trim` and `str::split_whitespace` use.
pub open spec fn is_ws(c: char) -> bool {
    ||| ('\u{9}' <= c && c <= '\u{d}')
    ||| c == ' '
    ||| c == '\u{85}'
    ||| c == '\u{a0}'
    ||| c == '\u{1680}'
    ||| ('\u{2000}' <= c && c <= '\u{200a}')
    ||| c == '\u{2028}'
    ||| c == '\u{2029}'
    ||| c == '\u{202f}'
    ||| c == '\u{205f}'
    ||| c == '\u{3000}'
}

/// Executable form of [`is_ws`].
pub fn is_whitespace(c: char) -> (r: bool)
    ensures
        r == is_ws(c),
{
    ('\u{9}' <= c && c <= '\u{d}') || c == ' ' || c == '\u{85}' || c == '\u{a0}' || c == '\u{1680}'
        || ('\u{2000}' <= c && c <= '\u{200a}') || c == '\u{2028}' || c == '\u{2029}' || c
        == '\u{202f}' || c == '\u{205f}' || c == '\u{3000}'
}

/// `char::is_ascii_hexdigit`.
pub open spec fn is_hex(c: char) -> bool {
    ||| ('0' <= c && c <= '9')
    ||| ('a' <= c && c <= 'f')
    ||| ('A' <= c && c <= 'F')
}

/// `char::to_ascii_lowercase`: the capital ASCII letters move down, every other
/// character stays as it is.
pub open spec fn lower(c: char) -> char {
    if 'A' <= c && c <= 'Z' {
        ((c as u32) + 32) as char
    } else {
        c
    }
}

pub fn to_lower(c: char) -> (r: char)
    ensures
        r == lower(c),
{
    if 'A' <= c && c <= 'Z' {
        let code: u32 = (c as u32) + 32;
        proof {
            assert(0x61 <= code <= 0x7a);
        }
        char_from_ascii(code)
    } else {
        c
    }
}

/// The character with a code below 128.
pub fn char_from_ascii(code: u32) -> (c: char)
    requires
        code < 128,
    ensures
        c == code as char,
{
    let b: u8 = code as u8;
    b as char
}

/// Every character of a sequence passed through [`lower`].
pub open spec fn lowered(s: Seq<char>) -> Seq<char> {
    s.map_values(|c: char| lower(c))
}

/// Every character passed through [`to_lower`].
pub fn lower_all(s: &Vec<char>) -> (r: Vec<char>)
    ensures
        r@ == lowered(s@),
{
    let mut r: Vec<char> = Vec::new();
    let mut i: usize = 0;
    while i < s.len()
        invariant
            i <= s.len(),
            r@ == lowered(s@.take(i as int)),
        decreases s.len() - i,
    {
        r.push(to_lower(s[i]));
        i += 1;
        proof {
            assert(lowered(s@.take(i as int)) =~= lowered(s@.take(i - 1)).push(lower(s@[i - 1])));
        }
    }
    proof {
        assert(s@.take(s.len() as int) =~= s@);
    }
    r
}

// ------------------------------------------------------------ getting chars

/// The characters of a string, in order.
pub fn chars_of(s: &str) -> (v: Vec<char>)
    ensures
        v@ == s@,
{
    let n = s.unicode_len();
    let mut v: Vec<char> = Vec::new();
    let mut i: usize = 0;
    while i < n
        invariant
            n == s@.len(),
            i <= n,
            v@ == s@.take(i as int),
        decreases n - i,
    {
        let c = s.get_char(i);
        v.push(c);
        i += 1;
        proof {
            assert(v@ =~= s@.take(i as int));
        }
    }
    proof {
        assert(s@.take(n as int) =~= s@);
    }
    v
}

/// `String::push`, which appends one character.
#[verifier::external_body]
pub(crate) fn push_char(s: &mut String, c: char)
    ensures
        final(s)@ == old(s)@.push(c),
{
    s.push(c);
}

/// The string holding exactly these characters.
pub fn string_of(v: &Vec<char>) -> (s: String)
    ensures
        s@ == v@,
{
    let mut s = String::new();
    let mut i: usize = 0;
    while i < v.len()
        invariant
            i <= v.len(),
            s@ == v@.take(i as int),
        decreases v.len() - i,
    {
        push_char(&mut s, v[i]);
        i += 1;
        proof {
            assert(s@ =~= v@.take(i as int));
        }
    }
    proof {
        assert(v@.take(v.len() as int) =~= v@);
    }
    s
}

/// Whether two strings hold the same characters.
pub fn same_text(a: &str, b: &str) -> (r: bool)
    ensures
        r == (a@ == b@),
{
    let x = chars_of(a);
    let y = chars_of(b);
    same_chars(&x, &y)
}

/// Whether two character vectors hold the same characters.
pub fn same_chars(a: &Vec<char>, b: &Vec<char>) -> (r: bool)
    ensures
        r == (a@ == b@),
{
    if a.len() != b.len() {
        return false;
    }
    let mut i: usize = 0;
    while i < a.len()
        invariant
            a.len() == b.len(),
            i <= a.len(),
            forall|k: int| 0 <= k < i ==> a@[k] == b@[k],
        decreases a.len() - i,
    {
        if a[i] != b[i] {
            return false;
        }
        i += 1;
    }
    proof {
        assert(a@ =~= b@);
    }
    true
}

/// The characters from `from` up to `to`.
pub fn slice_chars(s: &Vec<char>, from: usize, to: usize) -> (r: Vec<char>)
    requires
        from <= to <= s.len(),
    ensures
        r@ == s@.subrange(from as int, to as int),
{
    let mut r: Vec<char> = Vec::new();
    let mut i = from;
    while i < to
        invariant
            from <= i <= to <= s.len(),
            r@ == s@.subrange(from as int, i as int),
        decreases to - i,
    {
        r.push(s[i]);
        i += 1;
        proof {
            assert(r@ =~= s@.subrange(from as int, i as int));
        }
    }
    r
}

// ------------------------------------------------------------ splitting

/// What each of a list of character vectors holds.
pub open spec fn views(v: Seq<Vec<char>>) -> Seq<Seq<char>> {
    Seq::new(v.len(), |i: int| v[i]@)
}

pub proof fn lemma_views_push(v: Seq<Vec<char>>, x: Vec<char>)
    ensures
        views(v.push(x)) == views(v).push(x@),
{
    assert(views(v.push(x)) =~= views(v).push(x@));
}

/// The pieces of `s` between occurrences of `sep`, as `str::split` gives them:
/// always at least one piece, and an empty piece either side of a separator
/// with nothing beside it.
pub open spec fn split(s: Seq<char>, sep: char) -> Seq<Seq<char>>
    decreases s.len(),
{
    if s.len() == 0 {
        seq![Seq::<char>::empty()]
    } else {
        let before = split(s.drop_last(), sep);
        if s.last() == sep {
            before.push(Seq::<char>::empty())
        } else {
            before.update(before.len() - 1, before.last().push(s.last()))
        }
    }
}

pub proof fn lemma_split_nonempty(s: Seq<char>, sep: char)
    ensures
        split(s, sep).len() >= 1,
    decreases s.len(),
{
    if s.len() > 0 {
        lemma_split_nonempty(s.drop_last(), sep);
    }
}

/// `str::split` on one character.
pub fn split_chars(s: &Vec<char>, sep: char) -> (r: Vec<Vec<char>>)
    ensures
        views(r@) == split(s@, sep),
{
    let mut done: Vec<Vec<char>> = Vec::new();
    let mut cur: Vec<char> = Vec::new();
    let mut i: usize = 0;
    while i < s.len()
        invariant
            i <= s.len(),
            views(done@).push(cur@) == split(s@.take(i as int), sep),
        decreases s.len() - i,
    {
        let c = s[i];
        let ghost before = views(done@).push(cur@);
        proof {
            assert(s@.take(i + 1).drop_last() =~= s@.take(i as int));
            assert(s@.take(i + 1).last() == c);
        }
        if c == sep {
            proof {
                lemma_views_push(done@, cur);
            }
            done.push(cur);
            cur = Vec::new();
            proof {
                assert(views(done@).push(cur@) =~= before.push(Seq::<char>::empty()));
            }
        } else {
            cur.push(c);
            proof {
                assert(views(done@).push(cur@) =~= before.update(
                    before.len() - 1,
                    before.last().push(c),
                ));
            }
        }
        i += 1;
    }
    proof {
        assert(s@.take(s.len() as int) =~= s@);
    }
    proof {
        lemma_views_push(done@, cur);
    }
    done.push(cur);
    done
}

/// The runs of non-white-space characters in `s`, as `str::split_whitespace`
/// gives them.
pub open spec fn fields(s: Seq<char>) -> Seq<Seq<char>>
    decreases s.len(),
{
    if s.len() == 0 {
        Seq::empty()
    } else {
        let before = fields(s.drop_last());
        if is_ws(s.last()) {
            before
        } else if s.len() >= 2 && !is_ws(s[s.len() - 2]) {
            before.update(before.len() - 1, before.last().push(s.last()))
        } else {
            before.push(seq![s.last()])
        }
    }
}

/// `str::split_whitespace`.
pub fn fields_of(s: &Vec<char>) -> (r: Vec<Vec<char>>)
    ensures
        views(r@) == fields(s@),
{
    let mut done: Vec<Vec<char>> = Vec::new();
    let mut cur: Vec<char> = Vec::new();
    let mut i: usize = 0;
    while i < s.len()
        invariant
            i <= s.len(),
            cur@.len() > 0 ==> i > 0 && !is_ws(s@[i - 1]),
            cur@.len() == 0 ==> (i == 0 || is_ws(s@[i - 1])),
            (if cur@.len() > 0 {
                views(done@).push(cur@)
            } else {
                views(done@)
            }) == fields(s@.take(i as int)),
        decreases s.len() - i,
    {
        let c = s[i];
        let ghost pre = s@.take(i as int);
        proof {
            assert(s@.take(i + 1).drop_last() =~= pre);
            assert(s@.take(i + 1).last() == c);
            if i > 0 {
                assert(s@.take(i + 1)[i - 1] == s@[i - 1]);
            }
        }
        if is_whitespace(c) {
            if cur.len() > 0 {
                proof {
                    lemma_views_push(done@, cur);
                }
                done.push(cur);
                cur = Vec::new();
            }
        } else {
            let ghost had = cur@;
            let ghost before = views(done@);
            cur.push(c);
            proof {
                if had.len() > 0 {
                    assert(before.push(had) == fields(pre));
                    assert(before.push(cur@) =~= before.push(had).update(
                        before.push(had).len() - 1,
                        before.push(had).last().push(c),
                    ));
                } else {
                    assert(cur@ =~= seq![c]);
                }
            }
        }
        i += 1;
    }
    proof {
        assert(s@.take(s.len() as int) =~= s@);
    }
    if cur.len() > 0 {
        proof {
            lemma_views_push(done@, cur);
        }
        done.push(cur);
    }
    done
}

// ------------------------------------------------------------ trimming

/// `s` without the white space at its start.
pub open spec fn trim_start(s: Seq<char>) -> Seq<char>
    decreases s.len(),
{
    if s.len() > 0 && is_ws(s[0]) {
        trim_start(s.skip(1))
    } else {
        s
    }
}

/// `s` without the white space at its end.
pub open spec fn trim_end(s: Seq<char>) -> Seq<char>
    decreases s.len(),
{
    if s.len() > 0 && is_ws(s.last()) {
        trim_end(s.drop_last())
    } else {
        s
    }
}

/// `str::trim`.
pub open spec fn trim(s: Seq<char>) -> Seq<char> {
    trim_end(trim_start(s))
}

/// `s` without any run of `c` at its start, as `str::trim_start_matches` with a
/// character gives it.
pub open spec fn strip_all_leading(s: Seq<char>, c: char) -> Seq<char>
    decreases s.len(),
{
    if s.len() > 0 && s[0] == c {
        strip_all_leading(s.skip(1), c)
    } else {
        s
    }
}

proof fn lemma_trim_start_skip(s: Seq<char>, i: int)
    requires
        0 <= i < s.len(),
        is_ws(s[i]),
    ensures
        trim_start(s.skip(i)) == trim_start(s.skip(i + 1)),
{
    assert(s.skip(i).skip(1) =~= s.skip(i + 1));
}

proof fn lemma_strip_skip(s: Seq<char>, i: int, c: char)
    requires
        0 <= i < s.len(),
        s[i] == c,
    ensures
        strip_all_leading(s.skip(i), c) == strip_all_leading(s.skip(i + 1), c),
{
    assert(s.skip(i).skip(1) =~= s.skip(i + 1));
}

/// `str::trim`.
pub fn trim_chars(s: &Vec<char>) -> (r: Vec<char>)
    ensures
        r@ == trim(s@),
{
    let (a, b) = trim_bounds(s);
    slice_chars(s, a, b)
}

/// Where the text `str::trim` keeps starts and ends.
pub fn trim_bounds(s: &Vec<char>) -> (r: (usize, usize))
    ensures
        r.0 <= r.1 <= s.len(),
        trim(s@) == s@.subrange(r.0 as int, r.1 as int),
{
    let n = s.len();
    let mut a: usize = 0;
    proof {
        assert(s@.skip(0) =~= s@);
    }
    while a < n && is_whitespace(s[a])
        invariant
            n == s.len(),
            a <= n,
            trim_start(s@) == trim_start(s@.skip(a as int)),
        decreases n - a,
    {
        proof {
            lemma_trim_start_skip(s@, a as int);
        }
        a += 1;
    }
    proof {
        assert(trim_start(s@.skip(a as int)) == s@.skip(a as int));
        assert(s@.skip(a as int) =~= s@.subrange(a as int, n as int));
    }
    let mut b: usize = n;
    while b > a && is_whitespace(s[b - 1])
        invariant
            n == s.len(),
            a <= b <= n,
            trim_start(s@) == s@.subrange(a as int, n as int),
            trim_end(s@.subrange(a as int, n as int)) == trim_end(s@.subrange(a as int, b as int)),
        decreases b - a,
    {
        proof {
            assert(s@.subrange(a as int, b as int).drop_last() =~= s@.subrange(
                a as int,
                b - 1,
            ));
        }
        b -= 1;
    }
    (a, b)
}

/// `str::trim_start_matches` with one character.
pub fn strip_leading_chars(s: &Vec<char>, c: char) -> (r: Vec<char>)
    ensures
        r@ == strip_all_leading(s@, c),
{
    let n = s.len();
    let mut a: usize = 0;
    proof {
        assert(s@.skip(0) =~= s@);
    }
    while a < n && s[a] == c
        invariant
            n == s.len(),
            a <= n,
            strip_all_leading(s@, c) == strip_all_leading(s@.skip(a as int), c),
        decreases n - a,
    {
        proof {
            lemma_strip_skip(s@, a as int, c);
        }
        a += 1;
    }
    proof {
        assert(s@.skip(a as int) =~= s@.subrange(a as int, n as int));
    }
    slice_chars(s, a, n)
}

/// Whether `needle` occurs anywhere in `s`.
pub open spec fn contains(s: Seq<char>, needle: Seq<char>) -> bool {
    exists|i: int| 0 <= i && i + needle.len() <= s.len() && #[trigger] s.subrange(i, i + needle.len()) == needle
}

/// `str::contains` with a string.
pub fn contains_chars(s: &Vec<char>, needle: &Vec<char>) -> (r: bool)
    ensures
        r == contains(s@, needle@),
{
    if needle.len() > s.len() {
        return false;
    }
    if needle.len() == 0 {
        proof {
            assert(s@.subrange(0int, 0int + needle@.len()) =~= needle@);
        }
        return true;
    }
    let count = s.len() - needle.len() + 1;
    let mut i: usize = 0;
    while i < count
        invariant
            count + needle.len() == s.len() + 1,
            i <= count,
            forall|k: int| 0 <= k < i ==> #[trigger] s@.subrange(k, k + needle.len()) != needle@,
        decreases count - i,
    {
        let mut j: usize = 0;
        while j < needle.len() && s[i + j] == needle[j]
            invariant
                i < count,
                count + needle.len() == s.len() + 1,
                j <= needle.len(),
                forall|k: int| 0 <= k < j ==> s@[i + k] == needle@[k],
            decreases needle.len() - j,
        {
            j += 1;
        }
        if j == needle.len() {
            proof {
                assert(s@.subrange(i as int, i + needle.len()) =~= needle@);
            }
            return true;
        }
        proof {
            assert(s@.subrange(i as int, i + needle.len())[j as int] != needle@[j as int]);
        }
        i += 1;
    }
    proof {
        assert forall|k: int| 0 <= k && k + needle.len() <= s.len() implies #[trigger] s@.subrange(
            k,
            k + needle.len(),
        ) != needle@ by {
            assert(k < count);
        }
    }
    false
}

/// Whether `s` ends with `tail`.
pub open spec fn ends_with(s: Seq<char>, tail: Seq<char>) -> bool {
    s.len() >= tail.len() && s.subrange(s.len() - tail.len(), s.len() as int) == tail
}

/// Whether `s` starts with `head`.
pub open spec fn starts_with(s: Seq<char>, head: Seq<char>) -> bool {
    s.len() >= head.len() && s.subrange(0, head.len() as int) == head
}

pub fn ends_with_chars(s: &Vec<char>, tail: &Vec<char>) -> (r: bool)
    ensures
        r == ends_with(s@, tail@),
{
    if s.len() < tail.len() {
        return false;
    }
    let off = s.len() - tail.len();
    let mut i: usize = 0;
    while i < tail.len()
        invariant
            off + tail.len() == s.len(),
            i <= tail.len(),
            forall|k: int| 0 <= k < i ==> s@[off + k] == tail@[k],
        decreases tail.len() - i,
    {
        if s[off + i] != tail[i] {
            proof {
                assert(s@.subrange(off as int, s.len() as int)[i as int] != tail@[i as int]);
            }
            return false;
        }
        i += 1;
    }
    proof {
        assert(s@.subrange(off as int, s.len() as int) =~= tail@);
    }
    true
}

pub fn starts_with_chars(s: &Vec<char>, head: &Vec<char>) -> (r: bool)
    ensures
        r == starts_with(s@, head@),
{
    if s.len() < head.len() {
        return false;
    }
    let mut i: usize = 0;
    while i < head.len()
        invariant
            head.len() <= s.len(),
            i <= head.len(),
            forall|k: int| 0 <= k < i ==> s@[k] == head@[k],
        decreases head.len() - i,
    {
        if s[i] != head[i] {
            proof {
                assert(s@.subrange(0, head.len() as int)[i as int] != head@[i as int]);
            }
            return false;
        }
        i += 1;
    }
    proof {
        assert(s@.subrange(0, head.len() as int) =~= head@);
    }
    true
}

// ------------------------------------------------------------ numbers

/// The value of a digit in a radix of at most ten, if it is one.
pub open spec fn digit_value(c: char, radix: nat) -> Option<nat> {
    if '0' <= c && c <= '9' && (c as nat) - ('0' as nat) < radix {
        Some(((c as nat) - ('0' as nat)) as nat)
    } else {
        None
    }
}

pub open spec fn all_digits(s: Seq<char>, radix: nat) -> bool {
    forall|i: int| 0 <= i < s.len() ==> digit_value(#[trigger] s[i], radix) is Some
}

/// The number a run of digits writes, most significant first.
pub open spec fn digits_value(s: Seq<char>, radix: nat) -> nat
    decreases s.len(),
{
    if s.len() == 0 {
        0
    } else {
        digits_value(s.drop_last(), radix) * radix + match digit_value(s.last(), radix) {
            Some(d) => d,
            None => 0,
        }
    }
}

/// What an unsigned integer's `from_str_radix` reads from `s`: an optional
/// `+`, then one or more digits, whose value must not pass `max`.
pub open spec fn parse_unsigned(s: Seq<char>, radix: nat, max: nat) -> Option<nat> {
    let digits = if s.len() > 0 && s[0] == '+' {
        s.skip(1)
    } else {
        s
    };
    if digits.len() > 0 && all_digits(digits, radix) && digits_value(digits, radix) <= max {
        Some(digits_value(digits, radix))
    } else {
        None
    }
}

proof fn lemma_digits_value_grows(s: Seq<char>, radix: nat, k: int)
    requires
        0 <= k <= s.len(),
        radix >= 1,
    ensures
        digits_value(s.take(k), radix) <= digits_value(s, radix),
    decreases s.len() - k,
{
    if k < s.len() {
        lemma_digits_value_grows(s, radix, k + 1);
        let p = s.take(k + 1);
        assert(p.drop_last() =~= s.take(k));
        let v = digits_value(s.take(k), radix);
        assert(v * radix >= v) by (nonlinear_arith)
            requires
                radix >= 1,
        ;
    } else {
        assert(s.take(k) =~= s);
    }
}

/// `u64::from_str` and `usize::from_str_radix` share this reading.
fn parse_digits(s: &Vec<char>, radix: u64, max: u64) -> (r: Option<u64>)
    requires
        2 <= radix <= 10,
    ensures
        r == (match parse_unsigned(s@, radix as nat, max as nat) {
            Some(v) => Some(v as u64),
            None => None,
        }),
{
    let start: usize = if s.len() > 0 && s[0] == '+' {
        1
    } else {
        0
    };
    let ghost digits = if s@.len() > 0 && s@[0] == '+' {
        s@.skip(1)
    } else {
        s@
    };
    proof {
        assert(digits =~= s@.subrange(start as int, s.len() as int));
    }
    if start == s.len() {
        return None;
    }
    let mut value: u64 = 0;
    let mut i = start;
    let mut overflowed = false;
    while i < s.len()
        invariant
            start <= i <= s.len(),
            digits == s@.subrange(start as int, s.len() as int),
            digits == (if s@.len() > 0 && s@[0] == '+' {
                s@.skip(1)
            } else {
                s@
            }),
            2 <= radix <= 10,
            forall|k: int| start <= k < i ==> digit_value(#[trigger] s@[k], radix as nat) is Some,
            !overflowed ==> value as nat == digits_value(digits.take(i - start), radix as nat),
            !overflowed ==> value <= max,
            overflowed ==> digits_value(digits.take(i - start), radix as nat) > max,
        decreases s.len() - i,
    {
        let c = s[i];
        if !('0' <= c && c <= '9') {
            proof {
                assert(digits[i - start] == c);
                assert(digit_value(digits[i - start], radix as nat) is None);
                assert(!all_digits(digits, radix as nat));
                assert(parse_unsigned(s@, radix as nat, max as nat) is None);
            }
            return None;
        }
        let d: u64 = (c as u64) - ('0' as u64);
        if d >= radix {
            proof {
                assert(digits[i - start] == c);
            }
            return None;
        }
        proof {
            assert(digits.take(i - start + 1).drop_last() =~= digits.take(i - start));
            assert(digits.take(i - start + 1).last() == c);
            assert(digit_value(c, radix as nat) == Some(d as nat));
        }
        if !overflowed {
            let next = match value.checked_mul(radix) {
                Some(m) => m.checked_add(d),
                None => None,
            };
            match next {
                Some(n) if n <= max => {
                    value = n;
                },
                _ => {
                    overflowed = true;
                    proof {
                        assert(value as nat * radix as nat + d as nat > max as nat);
                    }
                },
            }
        } else {
            proof {
                let old = digits_value(digits.take(i - start), radix as nat);
                assert(old * radix as nat >= old) by (nonlinear_arith)
                    requires
                        radix >= 1,
                ;
            }
        }
        i += 1;
    }
    proof {
        assert(digits.take(i - start) =~= digits);
        assert(all_digits(digits, radix as nat));
    }
    if overflowed {
        None
    } else {
        Some(value)
    }
}

/// `u64::from_str`.
pub fn parse_u64(s: &Vec<char>) -> (r: Option<u64>)
    ensures
        r == (match parse_unsigned(s@, 10, u64::MAX as nat) {
            Some(v) => Some(v as u64),
            None => None,
        }),
{
    parse_digits(s, 10, u64::MAX)
}

/// `usize::from_str_radix(s, 8)`.
pub fn parse_octal(s: &Vec<char>) -> (r: Option<usize>)
    ensures
        r == (match parse_unsigned(s@, 8, usize::MAX as nat) {
            Some(v) => Some(v as usize),
            None => None,
        }),
{
    match parse_digits(s, 8, usize::MAX as u64) {
        Some(v) => Some(v as usize),
        None => None,
    }
}

/// The decimal digits of `n`, as `u64`'s `Display` writes them.
pub open spec fn decimal(n: nat) -> Seq<char>
    decreases n,
{
    if n < 10 {
        seq![(('0' as nat) + n) as char]
    } else {
        decimal(n / 10).push((('0' as nat) + n % 10) as char)
    }
}

/// A signed number written out, with a minus sign when it is below nought.
pub open spec fn signed_decimal(n: int) -> Seq<char> {
    if n < 0 {
        "-"@ + decimal((-n) as nat)
    } else {
        decimal(n as nat)
    }
}

/// `n.to_string()` for a signed number.
pub fn signed_string(n: i64) -> (s: String)
    ensures
        s@ == signed_decimal(n as int),
{
    if n < 0 {
        let magnitude: u64 = ((-(n + 1)) as u64) + 1;
        let mut s = String::from_str("-");
        let digits = decimal_string(magnitude);
        s.append(digits.as_str());
        s
    } else {
        decimal_string(n as u64)
    }
}

/// `n.to_string()`.
pub fn decimal_string(n: u64) -> (s: String)
    ensures
        s@ == decimal(n as nat),
    decreases n,
{
    if n < 10 {
        let mut s = String::new();
        push_char(&mut s, char_from_ascii((n + 48) as u32));
        proof {
            assert(s@ =~= decimal(n as nat));
        }
        s
    } else {
        let mut s = decimal_string(n / 10);
        push_char(&mut s, char_from_ascii((n % 10 + 48) as u32));
        s
    }
}

} // verus!
