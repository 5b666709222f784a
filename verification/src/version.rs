//! Release versions, and the order semantic versioning puts them in.
//!
//! Two things make this more than comparing text. `1.0.10` is newer than
//! `1.0.9`, which comparing text gets backwards. And a pre-release comes
//! *before* the same numbers without one, so `1.0.0-beta` is older than
//! `1.0.0`.

use vstd::prelude::*;
use crate::text::{
    all_digits, chars_of, digit_value, digits_value, lemma_split_nonempty, parse_u64, parse_unsigned, slice_chars,
    split, split_chars, string_of, trim, trim_chars, trim_end, trim_start, views,
};

verus! {

/// Which way round two things fall.
#[derive(Debug, Clone, Copy, PartialEq, Eq, Structural)]
pub enum Order {
    Less,
    Equal,
    Greater,
}

/// The same comparison asked the other way round.
pub open spec fn flip(o: Order) -> Order {
    match o {
        Order::Less => Order::Greater,
        Order::Equal => Order::Equal,
        Order::Greater => Order::Less,
    }
}

pub open spec fn num_order(a: int, b: int) -> Order {
    if a < b {
        Order::Less
    } else if a > b {
        Order::Greater
    } else {
        Order::Equal
    }
}

/// `u64::from_str`.
pub open spec fn parse10(s: Seq<char>) -> Option<u64> {
    match parse_unsigned(s, 10, u64::MAX as nat) {
        Some(v) => Some(v as u64),
        None => None,
    }
}

// ------------------------------------------------------------ finding

/// Where `c` first occurs in `s`.
pub open spec fn find(s: Seq<char>, c: char) -> Option<nat>
    decreases s.len(),
{
    if s.len() == 0 {
        None
    } else if s[0] == c {
        Some(0)
    } else {
        match find(s.skip(1), c) {
            Some(i) => Some(i + 1),
            None => None,
        }
    }
}

pub proof fn lemma_find(s: Seq<char>, c: char)
    ensures
        match find(s, c) {
            Some(i) => i < s.len() && s[i as int] == c && forall|k: int| 0 <= k < i ==> s[k] != c,
            None => forall|k: int| 0 <= k < s.len() ==> s[k] != c,
        },
    decreases s.len(),
{
    if s.len() > 0 && s[0] != c {
        lemma_find(s.skip(1), c);
        match find(s.skip(1), c) {
            Some(i) => {
                assert forall|k: int| 0 <= k < i + 1 implies s[k] != c by {
                    if k > 0 {
                        assert(s[k] == s.skip(1)[k - 1]);
                    }
                }
            },
            None => {
                assert forall|k: int| 0 <= k < s.len() implies s[k] != c by {
                    if k > 0 {
                        assert(s[k] == s.skip(1)[k - 1]);
                    }
                }
            },
        }
    }
}

/// The text before the first `c`, or all of it when there is none: what
/// `s.split(c).next()` gives.
pub open spec fn before_first(s: Seq<char>, c: char) -> Seq<char> {
    match find(s, c) {
        Some(i) => s.take(i as int),
        None => s,
    }
}

pub fn find_char(s: &Vec<char>, c: char) -> (r: Option<usize>)
    ensures
        r == (match find(s@, c) {
            Some(i) => Some(i as usize),
            None => None,
        }),
{
    proof {
        lemma_find(s@, c);
    }
    let mut i: usize = 0;
    while i < s.len()
        invariant
            i <= s.len(),
            forall|k: int| 0 <= k < i ==> s@[k] != c,
        decreases s.len() - i,
    {
        if s[i] == c {
            proof {
                lemma_find(s@, c);
                match find(s@, c) {
                    Some(j) => {
                        if j < i {
                            assert(s@[j as int] != c);
                        } else if j > i {
                            assert(s@[i as int] != c);
                        }
                    },
                    None => {
                        assert(s@[i as int] != c);
                    },
                }
            }
            return Some(i);
        }
        i += 1;
    }
    proof {
        lemma_find(s@, c);
        match find(s@, c) {
            Some(j) => {
                assert(s@[j as int] != c);
            },
            None => {},
        }
    }
    None
}

// ------------------------------------------------------------ the pieces

/// A version split into the pieces that are compared: three numbers and the
/// pre-release, if there is one.
pub type Parts = (u64, u64, u64, Option<String>);

pub type SpecParts = (u64, u64, u64, Option<Seq<char>>);

/// What an optional string holds.
pub open spec fn opt_view(o: Option<String>) -> Option<Seq<char>> {
    match o {
        Some(s) => Some(s@),
        None => None,
    }
}

pub open spec fn parts_view(p: Parts) -> SpecParts {
    (p.0, p.1, p.2, opt_view(p.3))
}

/// The core and the pre-release of a version with its build metadata gone:
/// split at the first `-`, where something follows it.
pub open spec fn core_and_pre(v: Seq<char>) -> (Seq<char>, Option<Seq<char>>) {
    match find(v, '-') {
        Some(i) if v.skip(i as int + 1).len() > 0 => (v.take(i as int), Some(v.skip(i as int + 1))),
        _ => (v, None),
    }
}

/// `1.2.3-beta` as its numbers and its pre-release, or nothing when it is not a
/// version at all. A missing minor or patch number reads as zero, so `2` is
/// `2.0.0`; a fourth number makes it not a version. Build metadata, after a
/// `+`, takes no part.
pub open spec fn parts(version: Seq<char>) -> Option<SpecParts> {
    let v = trim(before_first(version, '+'));
    let (core, pre) = core_and_pre(v);
    let nums = split(core, '.');
    let major = parse10(nums[0]);
    let minor = if nums.len() > 1 {
        parse10(nums[1])
    } else {
        Some(0u64)
    };
    let patch = if nums.len() > 2 {
        parse10(nums[2])
    } else {
        Some(0u64)
    };
    if nums.len() > 3 {
        None
    } else {
        match (major, minor, patch) {
            (Some(a), Some(b), Some(c)) => Some((a, b, c, pre)),
            _ => None,
        }
    }
}

/// Split a version into the pieces that are compared, or nothing when it is not
/// a version at all.
pub fn parts_of(version: &str) -> (r: Option<Parts>)
    ensures
        match r {
            Some(p) => parts(version@) == Some(parts_view(p)),
            None => parts(version@) is None,
        },
{
    let all = chars_of(version);
    proof {
        lemma_find(all@, '+');
    }
    let head = match find_char(&all, '+') {
        Some(i) => slice_chars(&all, 0, i),
        None => slice_chars(&all, 0, all.len()),
    };
    proof {
        assert(all@.subrange(0, all@.len() as int) =~= all@);
    }
    let v = trim_chars(&head);
    proof {
        lemma_find(v@, '-');
    }
    let (core, pre) = match find_char(&v, '-') {
        Some(i) if i < v.len() && i + 1 < v.len() => {
            let core = slice_chars(&v, 0, i);
            let pre = slice_chars(&v, i + 1, v.len());
            proof {
                assert(v@.skip(i + 1) =~= pre@);
            }
            (core, Some(string_of(&pre)))
        },
        _ => {
            proof {
                match find(v@, '-') {
                    Some(i) => {
                        lemma_find(v@, '-');
                        assert(v@.skip(i as int + 1).len() == 0);
                    },
                    None => {},
                }
            }
            (slice_chars(&v, 0, v.len()), None)
        },
    };
    proof {
        assert(v@.subrange(0, v@.len() as int) =~= v@);
        lemma_find(v@, '-');
        assert((core@, opt_view(pre)) == core_and_pre(v@));
    }
    let nums = split_chars(&core, '.');
    proof {
        lemma_split_nonempty(core@, '.');
    }
    if nums.len() > 3 {
        return None;
    }
    let major = parse_u64(&nums[0]);
    let zero = vec!['0'];
    proof {
        assert(zero@ =~= seq!['0']);
        assert(parse_unsigned(zero@, 10, u64::MAX as nat) == Some(0nat)) by {
            assert(zero@.len() > 0 && zero@[0] != '+');
            assert(all_digits(zero@, 10));
            assert(zero@.drop_last() =~= Seq::<char>::empty());
            assert(digit_value('0', 10) == Some(0nat));
            assert(zero@.last() == '0');
            assert(digits_value(Seq::<char>::empty(), 10) == 0);
            assert(digits_value(zero@, 10) == 0);
        }
    }
    let minor = if nums.len() > 1 {
        parse_u64(&nums[1])
    } else {
        parse_u64(&zero)
    };
    let patch = if nums.len() > 2 {
        parse_u64(&nums[2])
    } else {
        parse_u64(&zero)
    };
    proof {
        assert(views(nums@)[0] == nums@[0]@);
        if nums.len() > 1 {
            assert(views(nums@)[1] == nums@[1]@);
        }
        if nums.len() > 2 {
            assert(views(nums@)[2] == nums@[2]@);
        }
    }
    match (major, minor, patch) {
        (Some(a), Some(b), Some(c)) => Some((a, b, c, pre)),
        _ => None,
    }
}

// ------------------------------------------------------------ ordering

/// Text ordered the way `str`'s `Ord` orders it: character by character, and
/// a text that runs out first is the smaller.
pub open spec fn lex(a: Seq<char>, b: Seq<char>) -> Order
    decreases a.len(),
{
    if a.len() == 0 && b.len() == 0 {
        Order::Equal
    } else if a.len() == 0 {
        Order::Less
    } else if b.len() == 0 {
        Order::Greater
    } else if a[0] < b[0] {
        Order::Less
    } else if a[0] > b[0] {
        Order::Greater
    } else {
        lex(a.skip(1), b.skip(1))
    }
}

/// One pre-release identifier against another: numbers as numbers, a number
/// below any word, and words as text.
pub open spec fn ident_order(a: Seq<char>, b: Seq<char>) -> Order {
    match (parse10(a), parse10(b)) {
        (Some(x), Some(y)) => num_order(x as int, y as int),
        (Some(_), None) => Order::Less,
        (None, Some(_)) => Order::Greater,
        (None, None) => lex(a, b),
    }
}

/// Identifier lists compared in turn; fewer identifiers is the earlier release
/// when all else is equal.
pub open spec fn idents_order(a: Seq<Seq<char>>, b: Seq<Seq<char>>) -> Order
    decreases a.len(),
{
    if a.len() == 0 && b.len() == 0 {
        Order::Equal
    } else if a.len() == 0 {
        Order::Less
    } else if b.len() == 0 {
        Order::Greater
    } else if ident_order(a[0], b[0]) != Order::Equal {
        ident_order(a[0], b[0])
    } else {
        idents_order(a.skip(1), b.skip(1))
    }
}

/// Two pre-release strings, identifier by identifier.
pub open spec fn pre_order(a: Seq<char>, b: Seq<char>) -> Order {
    idents_order(split(a, '.'), split(b, '.'))
}

/// Two versions, the way semantic versioning orders them. Anything that is not
/// a version compares equal to everything, so it is never newer.
pub open spec fn version_order(a: Seq<char>, b: Seq<char>) -> Order {
    match (parts(a), parts(b)) {
        (Some(l), Some(r)) => {
            let numbers = if l.0 != r.0 {
                num_order(l.0 as int, r.0 as int)
            } else if l.1 != r.1 {
                num_order(l.1 as int, r.1 as int)
            } else {
                num_order(l.2 as int, r.2 as int)
            };
            if numbers != Order::Equal {
                numbers
            } else {
                match (l.3, r.3) {
                    (None, None) => Order::Equal,
                    (None, Some(_)) => Order::Greater,
                    (Some(_), None) => Order::Less,
                    (Some(x), Some(y)) => pre_order(x, y),
                }
            }
        },
        _ => Order::Equal,
    }
}

fn order_of(a: u64, b: u64) -> (r: Order)
    ensures
        r == num_order(a as int, b as int),
{
    if a < b {
        Order::Less
    } else if a > b {
        Order::Greater
    } else {
        Order::Equal
    }
}

fn lex_chars(a: &Vec<char>, b: &Vec<char>) -> (r: Order)
    ensures
        r == lex(a@, b@),
{
    let mut i: usize = 0;
    proof {
        assert(a@.skip(0) =~= a@);
        assert(b@.skip(0) =~= b@);
    }
    while i < a.len() && i < b.len()
        invariant
            i <= a.len(),
            i <= b.len(),
            lex(a@, b@) == lex(a@.skip(i as int), b@.skip(i as int)),
        decreases a.len() - i,
    {
        if a[i] < b[i] {
            return Order::Less;
        }
        if a[i] > b[i] {
            return Order::Greater;
        }
        proof {
            assert(a@.skip(i as int).skip(1) =~= a@.skip(i + 1));
            assert(b@.skip(i as int).skip(1) =~= b@.skip(i + 1));
        }
        i += 1;
    }
    if i == a.len() && i == b.len() {
        Order::Equal
    } else if i == a.len() {
        Order::Less
    } else {
        Order::Greater
    }
}

fn compare_ident(a: &Vec<char>, b: &Vec<char>) -> (r: Order)
    ensures
        r == ident_order(a@, b@),
{
    match (parse_u64(a), parse_u64(b)) {
        (Some(x), Some(y)) => order_of(x, y),
        (Some(_), None) => Order::Less,
        (None, Some(_)) => Order::Greater,
        (None, None) => lex_chars(a, b),
    }
}

/// Compare two pre-release strings identifier by identifier.
///
/// Numeric identifiers compare as numbers, so `beta.10` is after `beta.9`
/// rather than before it, and a numeric identifier ranks below a textual one.
pub fn compare_pre(a: &str, b: &str) -> (r: Order)
    ensures
        r == pre_order(a@, b@),
{
    let left = split_chars(&chars_of(a), '.');
    let right = split_chars(&chars_of(b), '.');
    let ghost l = views(left@);
    let ghost rr = views(right@);
    let mut i: usize = 0;
    proof {
        assert(l.skip(0) =~= l);
        assert(rr.skip(0) =~= rr);
    }
    while i < left.len() && i < right.len()
        invariant
            i <= left.len(),
            i <= right.len(),
            l == views(left@),
            rr == views(right@),
            l == split(a@, '.'),
            rr == split(b@, '.'),
            idents_order(l, rr) == idents_order(l.skip(i as int), rr.skip(i as int)),
        decreases left.len() - i,
    {
        let order = compare_ident(&left[i], &right[i]);
        proof {
            assert(l.skip(i as int)[0] == left@[i as int]@);
            assert(rr.skip(i as int)[0] == right@[i as int]@);
            assert(l.skip(i as int).len() > 0);
            assert(rr.skip(i as int).len() > 0);
        }
        if order != Order::Equal {
            return order;
        }
        proof {
            assert(l.skip(i as int).skip(1) =~= l.skip(i + 1));
            assert(rr.skip(i as int).skip(1) =~= rr.skip(i + 1));
        }
        i += 1;
    }
    if i == left.len() && i == right.len() {
        Order::Equal
    } else if i == left.len() {
        Order::Less
    } else {
        Order::Greater
    }
}

/// Order two versions the way semantic versioning does.
pub fn compare(a: &str, b: &str) -> (r: Order)
    ensures
        r == version_order(a@, b@),
{
    let (left, right) = match (parts_of(a), parts_of(b)) {
        (Some(left), Some(right)) => (left, right),
        _ => {
            return Order::Equal;
        },
    };
    let numbers = if left.0 != right.0 {
        order_of(left.0, right.0)
    } else if left.1 != right.1 {
        order_of(left.1, right.1)
    } else {
        order_of(left.2, right.2)
    };
    if numbers != Order::Equal {
        return numbers;
    }
    match (&left.3, &right.3) {
        (None, None) => Order::Equal,
        (None, Some(_)) => Order::Greater,
        (Some(_), None) => Order::Less,
        (Some(l), Some(r)) => compare_pre(l.as_str(), r.as_str()),
    }
}

/// Whether `candidate` is a release worth offering to somebody on `current`.
pub fn is_newer(candidate: &str, current: &str) -> (r: bool)
    ensures
        r == (version_order(candidate@, current@) == Order::Greater),
{
    compare(candidate, current) == Order::Greater
}

// ------------------------------------------------------------ laws

proof fn lemma_lex_flip(a: Seq<char>, b: Seq<char>)
    ensures
        lex(b, a) == flip(lex(a, b)),
    decreases a.len(),
{
    if a.len() > 0 && b.len() > 0 && a[0] == b[0] {
        lemma_lex_flip(a.skip(1), b.skip(1));
    }
}

proof fn lemma_lex_equal(a: Seq<char>, b: Seq<char>)
    ensures
        lex(a, b) == Order::Equal <==> a == b,
    decreases a.len(),
{
    if a.len() > 0 && b.len() > 0 && a[0] == b[0] {
        lemma_lex_equal(a.skip(1), b.skip(1));
        if a.skip(1) == b.skip(1) {
            assert(a =~= seq![a[0]] + a.skip(1));
            assert(b =~= seq![b[0]] + b.skip(1));
        }
    }
    if a == b && a.len() > 0 {
        assert(a.skip(1) == b.skip(1));
        lemma_lex_equal(a.skip(1), b.skip(1));
    }
    if a.len() == 0 && b.len() == 0 {
        assert(a =~= b);
    }
}

proof fn lemma_lex_trans(a: Seq<char>, b: Seq<char>, c: Seq<char>)
    requires
        lex(a, b) == Order::Greater,
        lex(b, c) == Order::Greater,
    ensures
        lex(a, c) == Order::Greater,
    decreases a.len(),
{
    if a.len() > 0 && b.len() > 0 && c.len() > 0 && a[0] == b[0] && b[0] == c[0] {
        lemma_lex_trans(a.skip(1), b.skip(1), c.skip(1));
    }
}

proof fn lemma_ident_flip(a: Seq<char>, b: Seq<char>)
    ensures
        ident_order(b, a) == flip(ident_order(a, b)),
{
    lemma_lex_flip(a, b);
}

proof fn lemma_ident_same(a: Seq<char>, b: Seq<char>, c: Seq<char>)
    requires
        ident_order(a, b) == Order::Equal,
    ensures
        ident_order(a, c) == ident_order(b, c),
{
    lemma_lex_equal(a, b);
}

proof fn lemma_ident_trans(a: Seq<char>, b: Seq<char>, c: Seq<char>)
    requires
        ident_order(a, b) == Order::Greater,
        ident_order(b, c) == Order::Greater,
    ensures
        ident_order(a, c) == Order::Greater,
{
    if parse10(a) is None && parse10(b) is None && parse10(c) is None {
        lemma_lex_trans(a, b, c);
    }
}

proof fn lemma_idents_flip(a: Seq<Seq<char>>, b: Seq<Seq<char>>)
    ensures
        idents_order(b, a) == flip(idents_order(a, b)),
    decreases a.len(),
{
    if a.len() > 0 && b.len() > 0 {
        lemma_ident_flip(a[0], b[0]);
        lemma_idents_flip(a.skip(1), b.skip(1));
    }
}

proof fn lemma_idents_refl(a: Seq<Seq<char>>)
    ensures
        idents_order(a, a) == Order::Equal,
    decreases a.len(),
{
    if a.len() > 0 {
        lemma_lex_equal(a[0], a[0]);
        lemma_idents_refl(a.skip(1));
    }
}

proof fn lemma_idents_same(a: Seq<Seq<char>>, b: Seq<Seq<char>>, c: Seq<Seq<char>>)
    requires
        idents_order(a, b) == Order::Equal,
    ensures
        idents_order(a, c) == idents_order(b, c),
    decreases a.len(),
{
    if a.len() > 0 && b.len() > 0 && c.len() > 0 {
        lemma_ident_same(a[0], b[0], c[0]);
        lemma_idents_same(a.skip(1), b.skip(1), c.skip(1));
    }
}

proof fn lemma_idents_trans(a: Seq<Seq<char>>, b: Seq<Seq<char>>, c: Seq<Seq<char>>)
    requires
        idents_order(a, b) == Order::Greater,
        idents_order(b, c) == Order::Greater,
    ensures
        idents_order(a, c) == Order::Greater,
    decreases a.len(),
{
    if a.len() > 0 && b.len() > 0 && c.len() > 0 {
        let x = ident_order(a[0], b[0]);
        let y = ident_order(b[0], c[0]);
        if x == Order::Greater && y == Order::Greater {
            lemma_ident_trans(a[0], b[0], c[0]);
        } else if x == Order::Greater {
            lemma_ident_flip(b[0], c[0]);
            lemma_ident_same(c[0], b[0], a[0]);
            lemma_ident_flip(c[0], a[0]);
            lemma_ident_flip(b[0], a[0]);
        } else {
            lemma_ident_same(a[0], b[0], c[0]);
            if y == Order::Equal {
                lemma_idents_trans(a.skip(1), b.skip(1), c.skip(1));
            }
        }
    }
}

proof fn lemma_pre_flip(a: Seq<char>, b: Seq<char>)
    ensures
        pre_order(b, a) == flip(pre_order(a, b)),
{
    lemma_idents_flip(split(a, '.'), split(b, '.'));
}

/// No version is newer than itself, and every version is equal to itself.
pub proof fn no_version_is_newer_than_itself(a: Seq<char>)
    ensures
        version_order(a, a) == Order::Equal,
{
    match parts(a) {
        Some(l) => {
            match l.3 {
                Some(p) => lemma_idents_refl(split(p, '.')),
                None => {},
            }
        },
        None => {},
    }
}

/// Asking the other way round gives the opposite answer, so of two versions
/// at most one is newer than the other.
pub proof fn newer_is_one_way(a: Seq<char>, b: Seq<char>)
    ensures
        version_order(b, a) == flip(version_order(a, b)),
        !(version_order(a, b) == Order::Greater && version_order(b, a) == Order::Greater),
{
    match (parts(a), parts(b)) {
        (Some(l), Some(r)) => {
            match (l.3, r.3) {
                (Some(x), Some(y)) => lemma_pre_flip(x, y),
                _ => {},
            }
        },
        _ => {},
    }
}

/// Newer than something newer is newer still.
pub proof fn newer_is_transitive(a: Seq<char>, b: Seq<char>, c: Seq<char>)
    requires
        version_order(a, b) == Order::Greater,
        version_order(b, c) == Order::Greater,
    ensures
        version_order(a, c) == Order::Greater,
{
    let l = parts(a)->0;
    let m = parts(b)->0;
    let r = parts(c)->0;
    match (l.3, m.3, r.3) {
        (Some(x), Some(y), Some(z)) => {
            if pre_order(x, y) == Order::Greater && pre_order(y, z) == Order::Greater {
                lemma_idents_trans(split(x, '.'), split(y, '.'), split(z, '.'));
            }
        },
        _ => {},
    }
}

/// Something that is not a version is never newer, and nothing is newer than
/// it.
pub proof fn not_a_version_is_never_newer(a: Seq<char>, b: Seq<char>)
    requires
        parts(a) is None,
    ensures
        version_order(a, b) == Order::Equal,
        version_order(b, a) == Order::Equal,
{
}

/// Whether two versions carry the same three numbers.
pub open spec fn same_numbers(l: SpecParts, r: SpecParts) -> bool {
    l.0 == r.0 && l.1 == r.1 && l.2 == r.2
}

/// A pre-release comes before the release with the same numbers.
pub proof fn a_pre_release_comes_first(release: Seq<char>, pre_release: Seq<char>)
    requires
        parts(release) matches Some(r) && r.3 is None,
        parts(pre_release) matches Some(p) && p.3 is Some,
        same_numbers(parts(release)->0, parts(pre_release)->0),
    ensures
        version_order(release, pre_release) == Order::Greater,
{
}

/// Between two versions without a pre-release, the numbers decide, compared
/// as numbers: major first, then minor, then patch.
pub proof fn numbers_compare_as_numbers(a: Seq<char>, b: Seq<char>)
    requires
        parts(a) matches Some(l) && l.3 is None,
        parts(b) matches Some(r) && r.3 is None,
    ensures
        version_order(a, b) == Order::Greater <==> ({
            let l = parts(a)->0;
            let r = parts(b)->0;
            ||| l.0 > r.0
            ||| (l.0 == r.0 && l.1 > r.1)
            ||| (l.0 == r.0 && l.1 == r.1 && l.2 > r.2)
        }),
{
}

proof fn lemma_find_at(s: Seq<char>, c: char, i: int)
    requires
        0 <= i < s.len(),
        s[i] == c,
        forall|k: int| 0 <= k < i ==> s[k] != c,
    ensures
        find(s, c) == Some(i as nat),
{
    lemma_find(s, c);
    match find(s, c) {
        Some(j) => {
            if j < i {
                assert(s[j as int] == c);
            }
        },
        None => {
            assert(s[i] == c);
        },
    }
}

proof fn lemma_metadata_cut(version: Seq<char>, metadata: Seq<char>)
    requires
        forall|k: int| 0 <= k < version.len() ==> version[k] != '+',
    ensures
        before_first(version + "+"@ + metadata, '+') == before_first(version, '+'),
{
    reveal_strlit("+");
    let tagged = version + "+"@ + metadata;
    assert(tagged[version.len() as int] == '+');
    assert forall|k: int| 0 <= k < version.len() implies tagged[k] != '+' by {
        assert(tagged[k] == version[k]);
    }
    lemma_find_at(tagged, '+', version.len() as int);
    assert(tagged.take(version.len() as int) =~= version);
    lemma_find(version, '+');
    match find(version, '+') {
        Some(j) => {
            assert(version[j as int] == '+');
        },
        None => {},
    }
}

/// Build metadata takes no part: a version with `+` and anything after it
/// reads as the version without, so it compares with every other version as
/// that one does.
pub proof fn build_metadata_takes_no_part(version: Seq<char>, metadata: Seq<char>, other: Seq<char>)
    requires
        forall|k: int| 0 <= k < version.len() ==> version[k] != '+',
    ensures
        parts(version + "+"@ + metadata) == parts(version),
        version_order(version + "+"@ + metadata, other) == version_order(version, other),
        version_order(other, version + "+"@ + metadata) == version_order(other, version),
        version_order(version + "+"@ + metadata, version) == Order::Equal,
{
    lemma_metadata_cut(version, metadata);
    let tagged = version + "+"@ + metadata;
    assert(parts(tagged) == parts(version));
    no_version_is_newer_than_itself(version);
}

pub open spec fn is_digit(c: char) -> bool {
    '0' <= c && c <= '9'
}

proof fn lemma_split_whole(s: Seq<char>, sep: char)
    requires
        forall|k: int| 0 <= k < s.len() ==> s[k] != sep,
    ensures
        split(s, sep) == seq![s],
    decreases s.len(),
{
    if s.len() > 0 {
        let shorter = s.drop_last();
        lemma_split_whole(shorter, sep);
        assert(shorter.push(s.last()) =~= s);
        assert(s[s.len() - 1] != sep);
        assert(seq![shorter].update(0, shorter.push(s.last())) =~= seq![s]);
    } else {
        assert(s =~= Seq::<char>::empty());
    }
}

proof fn lemma_split_piece(s: Seq<char>, t: Seq<char>, sep: char)
    requires
        forall|k: int| 0 <= k < t.len() ==> t[k] != sep,
    ensures
        split(s + seq![sep] + t, sep) == split(s, sep).push(t),
    decreases t.len(),
{
    let whole = s + seq![sep] + t;
    if t.len() == 0 {
        assert(whole.drop_last() =~= s);
        assert(whole.last() == sep);
        assert(t =~= Seq::<char>::empty());
    } else {
        let shorter = t.drop_last();
        lemma_split_piece(s, shorter, sep);
        assert(whole.drop_last() =~= s + seq![sep] + shorter);
        assert(whole.last() == t.last());
        assert(t[t.len() - 1] != sep);
        assert(shorter.push(t.last()) =~= t);
        assert(split(s, sep).push(shorter).update(split(s, sep).len() as int, shorter.push(t.last()))
            =~= split(s, sep).push(t));
    }
}

proof fn lemma_not_found(s: Seq<char>, c: char)
    requires
        forall|k: int| 0 <= k < s.len() ==> s[k] != c,
    ensures
        find(s, c) is None,
{
    lemma_find(s, c);
    match find(s, c) {
        Some(i) => {
            assert(s[i as int] == c);
        },
        None => {},
    }
}

/// The numbers of a version that has nothing cut from it, read from its
/// pieces between dots.
pub open spec fn numbers_read(nums: Seq<Seq<char>>) -> Option<SpecParts> {
    let major = parse10(nums[0]);
    let minor = if nums.len() > 1 {
        parse10(nums[1])
    } else {
        Some(0u64)
    };
    let patch = if nums.len() > 2 {
        parse10(nums[2])
    } else {
        Some(0u64)
    };
    if nums.len() > 3 {
        None
    } else {
        match (major, minor, patch) {
            (Some(a), Some(b), Some(c)) => Some((a, b, c, None)),
            _ => None,
        }
    }
}

/// A version written with digits and dots only, starting and ending with a
/// digit, is read whole: nothing cut at a `+` or a `-`, nothing trimmed.
proof fn lemma_plain_core(v: Seq<char>)
    requires
        v.len() > 0,
        is_digit(v[0]),
        is_digit(v.last()),
        forall|k: int| 0 <= k < v.len() ==> is_digit(v[k]) || v[k] == '.',
    ensures
        parts(v) == numbers_read(split(v, '.')),
{
    lemma_not_found(v, '+');
    lemma_not_found(v, '-');
    assert(trim_start(v) == v);
    assert(trim_end(v) == v);
    assert(trim(before_first(v, '+')) == v);
    assert(core_and_pre(v) == (v, None::<Seq<char>>));
}

/// A missing minor or patch number reads as nought: a major number alone,
/// or with one `.0`, is the same version as with `.0.0` after it.
pub proof fn a_missing_number_reads_as_nought(major: Seq<char>)
    requires
        major.len() > 0,
        forall|k: int| 0 <= k < major.len() ==> is_digit(#[trigger] major[k]),
    ensures
        parts(major) == parts(major + ".0"@),
        parts(major) == parts(major + ".0.0"@),
        version_order(major, major + ".0.0"@) == Order::Equal,
        version_order(major + ".0"@, major + ".0.0"@) == Order::Equal,
{
    reveal_strlit(".0");
    reveal_strlit(".0.0");
    let zero = seq!['0'];
    let one = major + ".0"@;
    let two = major + ".0.0"@;
    assert(one =~= major + seq!['.'] + zero);
    assert(two =~= one + seq!['.'] + zero);
    assert(major.last() == major[major.len() - 1]);
    lemma_plain_core(major);
    assert forall|k: int| 0 <= k < one.len() implies is_digit(one[k]) || one[k] == '.' by {
        if k < major.len() {
            assert(one[k] == major[k]);
        }
    }
    assert forall|k: int| 0 <= k < two.len() implies is_digit(two[k]) || two[k] == '.' by {
        if k < major.len() {
            assert(two[k] == major[k]);
        }
    }
    assert(one[0] == major[0]);
    assert(two[0] == major[0]);
    lemma_plain_core(one);
    lemma_plain_core(two);
    assert forall|k: int| 0 <= k < major.len() implies major[k] != '.' by {
        assert(is_digit(major[k]));
    }
    lemma_split_whole(major, '.');
    lemma_split_piece(major, zero, '.');
    lemma_split_piece(one, zero, '.');
    assert(seq![major].push(zero) =~= seq![major, zero]);
    assert(seq![major, zero].push(zero) =~= seq![major, zero, zero]);
    assert(parse10(zero) == Some(0u64)) by {
        assert(zero.drop_last() =~= Seq::<char>::empty());
        assert(digits_value(zero.drop_last(), 10) == 0);
        assert(zero.last() == '0');
        assert(digit_value('0', 10) == Some(0nat));
        assert(all_digits(zero, 10));
        assert(digits_value(zero, 10) == 0);
    }
    no_version_is_newer_than_itself(major);
    no_version_is_newer_than_itself(one);
}

proof fn lemma_idents_after_common(common: Seq<Seq<char>>, x: Seq<char>, y: Seq<char>)
    ensures
        idents_order(common.push(x), common.push(y)) == ident_order(x, y),
    decreases common.len(),
{
    if common.len() == 0 {
        assert(seq![x].skip(1) =~= Seq::<Seq<char>>::empty());
        assert(seq![y].skip(1) =~= Seq::<Seq<char>>::empty());
        assert(common.push(x) =~= seq![x]);
        assert(common.push(y) =~= seq![y]);
        assert(idents_order(seq![x].skip(1), seq![y].skip(1)) == Order::Equal);
    } else {
        lemma_lex_equal(common[0], common[0]);
        assert(ident_order(common[0], common[0]) == Order::Equal);
        lemma_idents_after_common(common.skip(1), x, y);
        assert(common.push(x).skip(1) =~= common.skip(1).push(x));
        assert(common.push(y).skip(1) =~= common.skip(1).push(y));
        assert(common.push(x)[0] == common[0]);
        assert(common.push(y)[0] == common[0]);
    }
}

/// A numeric pre-release identifier ranks below a textual one: wherever
/// two pre-releases first differ, one holding a number there comes before
/// one holding a word, whatever the number and the word, so a release with
/// the number is never the newer.
pub proof fn a_number_ranks_below_a_word(common: Seq<char>, number: Seq<char>, word: Seq<char>)
    requires
        parse10(number) is Some,
        parse10(word) is None,
        forall|k: int| 0 <= k < number.len() ==> number[k] != '.',
        forall|k: int| 0 <= k < word.len() ==> word[k] != '.',
    ensures
        pre_order(common + "."@ + number, common + "."@ + word) == Order::Less,
        pre_order(common + "."@ + word, common + "."@ + number) == Order::Greater,
        pre_order(number, word) == Order::Less,
        pre_order(word, number) == Order::Greater,
{
    reveal_strlit(".");
    assert(common + "."@ + number =~= common + seq!['.'] + number);
    assert(common + "."@ + word =~= common + seq!['.'] + word);
    lemma_split_piece(common, number, '.');
    lemma_split_piece(common, word, '.');
    lemma_idents_after_common(split(common, '.'), number, word);
    lemma_idents_after_common(split(common, '.'), word, number);
    lemma_split_whole(number, '.');
    lemma_split_whole(word, '.');
    lemma_idents_after_common(Seq::empty(), number, word);
    lemma_idents_after_common(Seq::empty(), word, number);
    assert(Seq::<Seq<char>>::empty().push(number) =~= seq![number]);
    assert(Seq::<Seq<char>>::empty().push(word) =~= seq![word]);
}

/// Numeric pre-release identifiers compare by their values: where two
/// pre-releases first differ in numbers, the one with the smaller number
/// comes first, so `beta.2` comes before `beta.10`.
pub proof fn pre_release_numbers_compare_by_value(common: Seq<char>, a: Seq<char>, b: Seq<char>)
    requires
        parse10(a) is Some,
        parse10(b) is Some,
        forall|k: int| 0 <= k < a.len() ==> a[k] != '.',
        forall|k: int| 0 <= k < b.len() ==> b[k] != '.',
    ensures
        pre_order(common + "."@ + a, common + "."@ + b) == Order::Less <==> parse10(a)->0
            < parse10(b)->0,
        pre_order(common + "."@ + a, common + "."@ + b) == Order::Equal <==> parse10(a)->0
            == parse10(b)->0,
{
    reveal_strlit(".");
    assert(common + "."@ + a =~= common + seq!['.'] + a);
    assert(common + "."@ + b =~= common + seq!['.'] + b);
    lemma_split_piece(common, a, '.');
    lemma_split_piece(common, b, '.');
    lemma_idents_after_common(split(common, '.'), a, b);
}

} // verus!
