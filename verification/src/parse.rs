//! Reading text: words, numbers and network addresses.

use vstd::prelude::*;

use crate::addr::{Ipv4Addr, Ipv6Addr};
use crate::bytes;
use crate::bytes::join16;

verus! {

// ---------------------------------------------------------------------------
// Characters
// ---------------------------------------------------------------------------

/// The characters of a string.
pub fn chars_of(s: &str) -> (r: Vec<char>)
    ensures
        r@ == s@,
{
    let mut r: Vec<char> = Vec::new();
    for c in it: s.chars()
        invariant
            it.seq() == s@,
            r@ == s@.take(it.index()),
    {
        r.push(c);
        assert(r@ =~= s@.take(it.index() + 1));
    }
    assert(r@ =~= s@);
    r
}

/// The value of a digit in base 16, `None` for other characters.
pub open spec fn digit_value(c: char) -> Option<int> {
    if '0' <= c <= '9' {
        Some(c as int - '0' as int)
    } else if 'a' <= c <= 'f' {
        Some(c as int - 'a' as int + 10)
    } else if 'A' <= c <= 'F' {
        Some(c as int - 'A' as int + 10)
    } else {
        None
    }
}

/// Whether a character is a digit in a base up to 16.
pub open spec fn is_digit(c: char, base: int) -> bool {
    digit_value(c) matches Some(v) && v < base
}

/// Whether a character is white space.
pub open spec fn is_space(c: char) -> bool {
    let n = c as int;
    ||| 0x9 <= n <= 0xD
    ||| n == 0x20
    ||| n == 0x85
    ||| n == 0xA0
    ||| n == 0x1680
    ||| 0x2000 <= n <= 0x200A
    ||| n == 0x2028
    ||| n == 0x2029
    ||| n == 0x202F
    ||| n == 0x205F
    ||| n == 0x3000
}

fn value_of_digit(c: char, base: u64) -> (r: Option<u64>)
    requires
        base <= 16,
    ensures
        r is Some <==> is_digit(c, base as int),
        r matches Some(v) ==> digit_value(c) == Some(v as int) && v < base,
{
    let n = c as u32;
    let v: u32 = if '0' as u32 <= n && n <= '9' as u32 {
        n - '0' as u32
    } else if 'a' as u32 <= n && n <= 'f' as u32 {
        n - 'a' as u32 + 10
    } else if 'A' as u32 <= n && n <= 'F' as u32 {
        n - 'A' as u32 + 10
    } else {
        return None;
    };
    if (v as u64) < base {
        Some(v as u64)
    } else {
        None
    }
}

fn space(c: char) -> (r: bool)
    ensures
        r == is_space(c),
{
    let n = c as u32;
    (0x9 <= n && n <= 0xD) || n == 0x20 || n == 0x85 || n == 0xA0 || n == 0x1680 || (0x2000 <= n && n
        <= 0x200A) || n == 0x2028 || n == 0x2029 || n == 0x202F || n == 0x205F || n == 0x3000
}

// ---------------------------------------------------------------------------
// Parts of a text
// ---------------------------------------------------------------------------

/// The texts of a vector of character vectors.
pub open spec fn texts(parts: Seq<Vec<char>>) -> Seq<Seq<char>> {
    parts.map_values(|p: Vec<char>| p@)
}

/// The parts of a text between separators.
pub open spec fn split(t: Seq<char>, sep: char) -> Seq<Seq<char>>
    decreases t.len(),
{
    if t.len() == 0 {
        seq![Seq::<char>::empty()]
    } else {
        let before = split(t.drop_last(), sep);
        if t.last() == sep {
            before.push(Seq::<char>::empty())
        } else {
            before.drop_last().push(before.last().push(t.last()))
        }
    }
}

/// There is always a first part.
pub proof fn lemma_split_nonempty(t: Seq<char>, sep: char)
    ensures
        split(t, sep).len() > 0,
    decreases t.len(),
{
    if t.len() > 0 {
        lemma_split_nonempty(t.drop_last(), sep);
    }
}

/// The words of a text: its longest runs of characters other than white space.
pub open spec fn words(t: Seq<char>) -> Seq<Seq<char>>
    decreases t.len(),
{
    if t.len() == 0 {
        Seq::<Seq<char>>::empty()
    } else {
        let before = words(t.drop_last());
        if is_space(t.last()) {
            before
        } else if in_word(t.drop_last()) && before.len() > 0 {
            before.drop_last().push(before.last().push(t.last()))
        } else {
            before.push(seq![t.last()])
        }
    }
}

/// Whether a text ends inside a word.
pub open spec fn in_word(t: Seq<char>) -> bool {
    t.len() > 0 && !is_space(t.last())
}

/// Splits a text at a separator.
pub fn split_text(t: &Vec<char>, sep: char) -> (r: Vec<Vec<char>>)
    ensures
        texts(r@) == split(t@, sep),
{
    let mut done: Vec<Vec<char>> = Vec::new();
    let mut part: Vec<char> = Vec::new();
    let mut i: usize = 0;
    assert(t@.take(0) =~= Seq::<char>::empty());
    assert(texts(done@).push(part@) =~= split(t@.take(0), sep));
    while i < t.len()
        invariant
            i <= t@.len(),
            texts(done@).push(part@) == split(t@.take(i as int), sep),
        decreases t@.len() - i,
    {
        let c = t[i];
        let ghost before = texts(done@);
        let ghost old_part = part@;
        proof {
            assert(t@.take(i + 1).drop_last() =~= t@.take(i as int));
            assert(before.push(old_part).drop_last() =~= before);
        }
        if c == sep {
            done.push(part);
            part = Vec::new();
            assert(texts(done@) =~= before.push(old_part));
            assert(part@ =~= Seq::<char>::empty());
        } else {
            part.push(c);
        }
        i = i + 1;
        assert(texts(done@).push(part@) =~= split(t@.take(i as int), sep));
    }
    assert(t@.take(t@.len() as int) =~= t@);
    let ghost before = texts(done@);
    let ghost last = part@;
    done.push(part);
    assert(texts(done@) =~= before.push(last));
    done
}

/// Splits a text into its words.
pub fn split_words(t: &Vec<char>) -> (r: Vec<Vec<char>>)
    ensures
        texts(r@) == words(t@),
{
    let mut done: Vec<Vec<char>> = Vec::new();
    let mut part: Vec<char> = Vec::new();
    let mut inside: bool = false;
    let mut i: usize = 0;
    assert(t@.take(0) =~= Seq::<char>::empty());
    assert(texts(done@) =~= words(t@.take(0)));
    while i < t.len()
        invariant
            i <= t@.len(),
            inside == in_word(t@.take(i as int)),
            inside ==> texts(done@).push(part@) == words(t@.take(i as int)),
            !inside ==> texts(done@) == words(t@.take(i as int)) && part@.len() == 0,
        decreases t@.len() - i,
    {
        let c = t[i];
        let ghost before = texts(done@);
        let ghost old_part = part@;
        proof {
            assert(t@.take(i + 1).drop_last() =~= t@.take(i as int));
            assert(before.push(old_part).drop_last() =~= before);
        }
        if space(c) {
            if inside {
                done.push(part);
                part = Vec::new();
                assert(texts(done@) =~= before.push(old_part));
            }
            inside = false;
        } else {
            part.push(c);
            assert(!in_word(t@.take(i as int)) ==> part@ =~= seq![c]);
            inside = true;
        }
        i = i + 1;
        assert(inside ==> texts(done@).push(part@) =~= words(t@.take(i as int)));
    }
    assert(t@.take(t@.len() as int) =~= t@);
    if inside {
        let ghost before = texts(done@);
        let ghost last = part@;
        done.push(part);
        assert(texts(done@) =~= before.push(last));
    }
    done
}

// ---------------------------------------------------------------------------
// Numbers
// ---------------------------------------------------------------------------

/// Whether every character is a digit, and there is one.
pub open spec fn all_digits(t: Seq<char>, base: int) -> bool {
    t.len() > 0 && forall|i: int| 0 <= i < t.len() ==> #[trigger] is_digit(t[i], base)
}

/// The number that a row of digits stands for.
pub open spec fn digits_value(t: Seq<char>, base: int) -> int
    decreases t.len(),
{
    if t.len() == 0 {
        0
    } else {
        digits_value(t.drop_last(), base) * base + digit_value(t.last()).unwrap()
    }
}

/// The number that a row of digits stands for, if it is one and is no greater than
/// `max`.
pub open spec fn digits_upto(t: Seq<char>, base: int, max: int) -> Option<int> {
    if all_digits(t, base) && digits_value(t, base) <= max {
        Some(digits_value(t, base))
    } else {
        None
    }
}

/// The number that a text stands for, if it is digits with at most one plus sign in
/// front and is no greater than `max`.
pub open spec fn number_upto(t: Seq<char>, base: int, max: int) -> Option<int> {
    if t.len() > 0 && t[0] == '+' {
        digits_upto(t.skip(1), base, max)
    } else {
        digits_upto(t, base, max)
    }
}

/// More digits make no smaller number.
proof fn lemma_digits_grow(t: Seq<char>, k: int, base: int)
    requires
        base >= 1,
        0 <= k <= t.len(),
        forall|i: int| 0 <= i < t.len() ==> #[trigger] is_digit(t[i], base),
    ensures
        0 <= digits_value(t.take(k), base) <= digits_value(t, base),
    decreases t.len(),
{
    if t.len() > 0 {
        let rest = t.drop_last();
        assert(forall|i: int| 0 <= i < rest.len() ==> rest[i] == t[i]);
        assert forall|i: int| 0 <= i < rest.len() implies #[trigger] is_digit(rest[i], base) by {
            assert(is_digit(t[i], base));
        }
        assert(is_digit(t[t.len() - 1], base));
        let d = digit_value(t.last()).unwrap();
        lemma_digits_grow(rest, if k < t.len() { k } else { k - 1 }, base);
        lemma_digits_grow(rest, 0, base);
        assert(digits_value(rest, base) <= digits_value(rest, base) * base + d) by (nonlinear_arith)
            requires
                digits_value(rest, base) >= 0,
                base >= 1,
                d >= 0,
        ;
        if k < t.len() {
            assert(t.take(k) =~= rest.take(k));
        } else {
            assert(t.take(k) =~= t);
        }
    } else {
        assert(t.take(k) =~= t);
    }
}

/// Reads a row of digits from position `from` on.
fn parse_digits(t: &Vec<char>, from: usize, base: u64, max: u64) -> (r: Option<u64>)
    requires
        from <= t@.len(),
        2 <= base <= 16,
        max <= 0xFFFF_FFFF,
    ensures
        match r {
            Some(v) => digits_upto(t@.skip(from as int), base as int, max as int) == Some(v as int),
            None => digits_upto(t@.skip(from as int), base as int, max as int) is None,
        },
{
    let ghost text = t@.skip(from as int);
    if from == t.len() {
        return None;
    }
    let mut v: u64 = 0;
    let mut i: usize = from;
    while i < t.len()
        invariant
            from <= i <= t@.len(),
            from < t@.len(),
            text == t@.skip(from as int),
            2 <= base <= 16,
            max <= 0xFFFF_FFFF,
            v <= max,
            v == digits_value(text.take(i - from), base as int),
            forall|k: int| 0 <= k < i - from ==> #[trigger] is_digit(text[k], base as int),
        decreases t@.len() - i,
    {
        let ghost k = i - from;
        assert(text[k] == t@[i as int]);
        let d: u64 = match value_of_digit(t[i], base) {
            Some(d) => d,
            None => return None,
        };
        proof {
            assert(text.take(k + 1).drop_last() =~= text.take(k));
            assert(0 <= v * base <= 0xFFFF_FFFF * 16) by (nonlinear_arith)
                requires
                    0 <= v <= 0xFFFF_FFFF,
                    0 <= base <= 16,
            ;
        }
        let next: u64 = v * base + d;
        if next > max {
            proof {
                if all_digits(text, base as int) {
                    lemma_digits_grow(text, k + 1, base as int);
                }
            }
            return None;
        }
        v = next;
        i = i + 1;
    }
    assert(text.take(text.len() as int) =~= text);
    Some(v)
}

/// Reads a number of at most `max`, with at most one plus sign in front.
pub fn parse_number(t: &Vec<char>, base: u64, max: u64) -> (r: Option<u64>)
    requires
        2 <= base <= 16,
        max <= 0xFFFF_FFFF,
    ensures
        match r {
            Some(v) => number_upto(t@, base as int, max as int) == Some(v as int),
            None => number_upto(t@, base as int, max as int) is None,
        },
{
    assert(t@.skip(0) =~= t@);
    if t.len() > 0 && t[0] == '+' {
        parse_digits(t, 1, base, max)
    } else {
        parse_digits(t, 0, base, max)
    }
}

// ---------------------------------------------------------------------------
// Addresses
// ---------------------------------------------------------------------------

/// The number of a dotted-decimal octet: up to three digits, without a leading zero.
pub open spec fn octet_value(t: Seq<char>) -> Option<int> {
    if t.len() <= 3 && (t.len() > 1 ==> t[0] != '0') {
        digits_upto(t, 10, 255)
    } else {
        None
    }
}

/// The IPv4 address that a text in dotted-decimal form stands for.
pub open spec fn ipv4_of(t: Seq<char>) -> Option<Ipv4Addr> {
    let parts = split(t, '.');
    if parts.len() == 4 && (forall|i: int| 0 <= i < 4 ==> #[trigger] octet_value(parts[i]) is Some) {
        Some(
            Ipv4Addr {
                a: octet_value(parts[0]).unwrap() as u8,
                b: octet_value(parts[1]).unwrap() as u8,
                c: octet_value(parts[2]).unwrap() as u8,
                d: octet_value(parts[3]).unwrap() as u8,
            },
        )
    } else {
        None
    }
}

/// The number of a group of an IPv6 address: up to four hexadecimal digits.
pub open spec fn group_value(t: Seq<char>) -> Option<int> {
    if t.len() <= 4 {
        digits_upto(t, 16, 0xFFFF)
    } else {
        None
    }
}

/// Whether the first `n` parts are groups of an IPv6 address.
pub open spec fn are_groups(parts: Seq<Seq<char>>, n: int) -> bool {
    forall|i: int| 0 <= i < n ==> #[trigger] group_value(parts[i]) is Some
}

/// The numbers of the first `n` parts.
pub open spec fn group_values(parts: Seq<Seq<char>>, n: int) -> Seq<u16> {
    Seq::new(n as nat, |i: int| group_value(parts[i]).unwrap() as u16)
}

/// The two groups that an IPv4 address fills.
pub open spec fn ipv4_groups(ip: Ipv4Addr) -> Seq<u16> {
    seq![bytes::be16(ip.a, ip.b), bytes::be16(ip.c, ip.d)]
}

/// The groups of one side of an IPv6 address, separated by colons. With `tail` the
/// last part may be an IPv4 address, which fills two groups.
pub open spec fn groups_of(t: Seq<char>, tail: bool) -> Option<Seq<u16>> {
    let parts = split(t, ':');
    let last = parts.len() - 1;
    if t.len() == 0 {
        Some(Seq::<u16>::empty())
    } else if are_groups(parts, parts.len() as int) {
        Some(group_values(parts, parts.len() as int))
    } else if tail && are_groups(parts, last) && ipv4_of(parts[last]) is Some {
        Some(group_values(parts, last) + ipv4_groups(ipv4_of(parts[last]).unwrap()))
    } else {
        None
    }
}

/// Whether the first pair of neighbouring colons is at `i`.
pub open spec fn first_gap(t: Seq<char>, i: int) -> bool {
    &&& is_gap(t, i)
    &&& forall|k: int| 0 <= k < i ==> !#[trigger] is_gap(t, k)
}

/// Whether there are two colons at `i`.
pub open spec fn is_gap(t: Seq<char>, i: int) -> bool {
    0 <= i && i + 1 < t.len() && t[i] == ':' && t[i + 1] == ':'
}

/// The IPv6 address of eight groups.
pub open spec fn ipv6_of_groups(g: Seq<u16>) -> Ipv6Addr {
    Ipv6Addr { s0: g[0], s1: g[1], s2: g[2], s3: g[3], s4: g[4], s5: g[5], s6: g[6], s7: g[7] }
}

/// The groups on both sides of a gap, which stands for at least one group of zeros.
pub open spec fn bridged(head: Seq<u16>, tail: Seq<u16>) -> Seq<u16> {
    head + Seq::new((8 - head.len() - tail.len()) as nat, |i: int| 0u16) + tail
}

/// Whether `ip` is the IPv6 address that a text stands for.
pub open spec fn is_ipv6_of(t: Seq<char>, ip: Ipv6Addr) -> bool {
    ||| {
        &&& forall|k: int| !#[trigger] is_gap(t, k)
        &&& t.len() > 0
        &&& groups_of(t, true) matches Some(g) && g.len() == 8 && ip == ipv6_of_groups(g)
    }
    ||| exists|i: int| #[trigger] first_gap(t, i) && has_sides(t, i, ip)
}

/// Whether the sides of a gap at `i` give the address `ip`.
pub open spec fn has_sides(t: Seq<char>, i: int, ip: Ipv6Addr) -> bool {
    &&& groups_of(t.take(i), false) is Some
    &&& groups_of(t.skip(i + 2), true) is Some
    &&& groups_of(t.take(i), false).unwrap().len() + groups_of(t.skip(i + 2), true).unwrap().len()
        <= 7
    &&& ip == ipv6_of_groups(
        bridged(groups_of(t.take(i), false).unwrap(), groups_of(t.skip(i + 2), true).unwrap()),
    )
}

/// A text stands for at most one IPv6 address.
pub proof fn lemma_ipv6_of_unique(t: Seq<char>, a: Ipv6Addr, b: Ipv6Addr)
    requires
        is_ipv6_of(t, a),
        is_ipv6_of(t, b),
    ensures
        a == b,
{
    if exists|i: int| first_gap(t, i) {
        let i = choose|i: int| first_gap(t, i);
        assert forall|j: int| #[trigger] first_gap(t, j) implies j == i by {
            assert(is_gap(t, j) && is_gap(t, i));
        }
        assert(is_gap(t, i));
    }
}

/// The IPv6 address that a text stands for.
pub open spec fn ipv6_of(t: Seq<char>) -> Option<Ipv6Addr> {
    if exists|ip: Ipv6Addr| is_ipv6_of(t, ip) {
        Some(choose|ip: Ipv6Addr| is_ipv6_of(t, ip))
    } else {
        None
    }
}

fn parse_octet(t: &Vec<char>) -> (r: Option<u8>)
    ensures
        match r {
            Some(v) => octet_value(t@) == Some(v as int),
            None => octet_value(t@) is None,
        },
{
    if t.len() > 3 || (t.len() > 1 && t[0] == '0') {
        return None;
    }
    assert(t@.skip(0) =~= t@);
    match parse_digits(t, 0, 10, 255) {
        Some(v) => Some(v as u8),
        None => None,
    }
}

fn parse_group(t: &Vec<char>) -> (r: Option<u16>)
    ensures
        match r {
            Some(v) => group_value(t@) == Some(v as int),
            None => group_value(t@) is None,
        },
{
    if t.len() > 4 {
        return None;
    }
    assert(t@.skip(0) =~= t@);
    match parse_digits(t, 0, 16, 0xFFFF) {
        Some(v) => Some(v as u16),
        None => None,
    }
}

/// Reads an IPv4 address in dotted-decimal form.
pub fn parse_ipv4_chars(t: &Vec<char>) -> (r: Option<Ipv4Addr>)
    ensures
        r == ipv4_of(t@),
{
    let parts = split_text(t, '.');
    let ghost views = split(t@, '.');
    if parts.len() != 4 {
        return None;
    }
    assert(forall|i: int| 0 <= i < 4 ==> views[i] == parts@[i]@);
    let a: u8 = match parse_octet(&parts[0]) {
        Some(v) => v,
        None => {
            assert(octet_value(views[0]) is None);
            return None;
        },
    };
    let b: u8 = match parse_octet(&parts[1]) {
        Some(v) => v,
        None => {
            assert(octet_value(views[1]) is None);
            return None;
        },
    };
    let c: u8 = match parse_octet(&parts[2]) {
        Some(v) => v,
        None => {
            assert(octet_value(views[2]) is None);
            return None;
        },
    };
    let d: u8 = match parse_octet(&parts[3]) {
        Some(v) => v,
        None => {
            assert(octet_value(views[3]) is None);
            return None;
        },
    };
    Some(Ipv4Addr::new(a, b, c, d))
}

/// Reads an IPv4 address in dotted-decimal form.
pub fn parse_ipv4(s: &str) -> (r: Option<Ipv4Addr>)
    ensures
        r == ipv4_of(s@),
{
    parse_ipv4_chars(&chars_of(s))
}

/// Reads the groups on one side of an IPv6 address.
fn parse_groups(t: &Vec<char>, tail: bool) -> (r: Option<Vec<u16>>)
    ensures
        match r {
            Some(g) => groups_of(t@, tail) == Some(g@),
            None => groups_of(t@, tail) is None,
        },
{
    let mut groups: Vec<u16> = Vec::new();
    if t.len() == 0 {
        assert(groups@ =~= Seq::<u16>::empty());
        return Some(groups);
    }
    let parts = split_text(t, ':');
    let ghost views = split(t@, ':');
    proof {
        lemma_split_nonempty(t@, ':');
        assert(views.len() == parts@.len());
        assert(forall|i: int| 0 <= i < views.len() ==> views[i] == parts@[i]@);
    }
    let mut i: usize = 0;
    while i < parts.len()
        invariant
            i <= parts@.len(),
            parts@.len() > 0,
            t@.len() > 0,
            views == split(t@, ':'),
            views.len() == parts@.len(),
            forall|k: int| 0 <= k < views.len() ==> views[k] == parts@[k]@,
            are_groups(views, i as int),
            groups@ == group_values(views, i as int),
        decreases parts@.len() - i,
    {
        match parse_group(&parts[i]) {
            Some(v) => {
                groups.push(v);
                assert(groups@ =~= group_values(views, i + 1));
            },
            None => {
                assert(group_value(views[i as int]) is None);
                assert(!are_groups(views, views.len() as int));
                if !tail || i + 1 != parts.len() {
                    proof {
                        if i + 1 < parts@.len() {
                            assert(!are_groups(views, views.len() - 1));
                        }
                    }
                    return None;
                }
                return match parse_ipv4_chars(&parts[i]) {
                    Some(ip) => {
                        let ghost before = groups@;
                        groups.push(join16(ip.a, ip.b));
                        groups.push(join16(ip.c, ip.d));
                        assert(groups@ =~= before + ipv4_groups(ip));
                        Some(groups)
                    },
                    None => None,
                };
            },
        }
        i = i + 1;
    }
    Some(groups)
}

/// The part of a text from `from` up to `to`.
pub fn text_between(t: &Vec<char>, from: usize, to: usize) -> (r: Vec<char>)
    requires
        from <= to <= t@.len(),
    ensures
        r@ == t@.subrange(from as int, to as int),
{
    let mut r: Vec<char> = Vec::new();
    let mut i: usize = from;
    while i < to
        invariant
            from <= i <= to <= t@.len(),
            r@ == t@.subrange(from as int, i as int),
        decreases to - i,
    {
        r.push(t[i]);
        i = i + 1;
        assert(r@ =~= t@.subrange(from as int, i as int));
    }
    r
}

fn address_of(g: &Vec<u16>) -> (r: Ipv6Addr)
    requires
        g@.len() == 8,
    ensures
        r == ipv6_of_groups(g@),
{
    Ipv6Addr::new(g[0], g[1], g[2], g[3], g[4], g[5], g[6], g[7])
}

/// Reads an IPv6 address without a gap.
fn parse_full_ipv6(t: &Vec<char>) -> (r: Option<Ipv6Addr>)
    requires
        forall|k: int| !#[trigger] is_gap(t@, k),
    ensures
        r == ipv6_of(t@),
{
    let groups = match parse_groups(t, true) {
        Some(g) => g,
        None => {
            return None;
        },
    };
    if t.len() == 0 || groups.len() != 8 {
        return None;
    }
    let ip = address_of(&groups);
    proof {
        assert(is_ipv6_of(t@, ip));
        lemma_ipv6_of_unique(t@, ip, ipv6_of(t@).unwrap());
    }
    Some(ip)
}

/// Reads an IPv6 address whose first gap is at `at`.
fn parse_gapped_ipv6(t: &Vec<char>, at: usize) -> (r: Option<Ipv6Addr>)
    requires
        first_gap(t@, at as int),
    ensures
        r == ipv6_of(t@),
{
    proof {
        assert(is_gap(t@, at as int));
        assert forall|j: int| #[trigger] first_gap(t@, j) implies j == at by {
            assert(is_gap(t@, j));
        }
        assert(t@.subrange(0, at as int) =~= t@.take(at as int));
        assert(t@.subrange(at + 2, t@.len() as int) =~= t@.skip(at + 2));
    }
    let head = match parse_groups(&text_between(t, 0, at), false) {
        Some(g) => g,
        None => return None,
    };
    let end = t.len();
    assert(at + 2 <= end);
    let tail = match parse_groups(&text_between(t, at + 2, end), true) {
        Some(g) => g,
        None => return None,
    };
    if head.len() > 7 || tail.len() > 7 - head.len() {
        return None;
    }
    let zeros = 8 - head.len() - tail.len();
    let mut all: Vec<u16> = Vec::new();
    let mut i: usize = 0;
    while i < 8
        invariant
            i <= 8,
            all@.len() == i,
            head@.len() + tail@.len() <= 7,
            zeros == 8 - head@.len() - tail@.len(),
            all@ == bridged(head@, tail@).take(i as int),
        decreases 8 - i,
    {
        if i < head.len() {
            all.push(head[i]);
        } else if i < head.len() + zeros {
            all.push(0);
        } else {
            all.push(tail[i - head.len() - zeros]);
        }
        i = i + 1;
        assert(all@ =~= bridged(head@, tail@).take(i as int));
    }
    assert(all@ =~= bridged(head@, tail@));
    let ip = address_of(&all);
    proof {
        assert(has_sides(t@, at as int, ip));
        assert(is_ipv6_of(t@, ip));
        lemma_ipv6_of_unique(t@, ip, ipv6_of(t@).unwrap());
    }
    Some(ip)
}

/// Reads an IPv6 address.
pub fn parse_ipv6_chars(t: &Vec<char>) -> (r: Option<Ipv6Addr>)
    ensures
        r == ipv6_of(t@),
{
    let mut i: usize = 0;
    while i < t.len()
        invariant
            i <= t@.len(),
            forall|k: int| 0 <= k < i ==> !#[trigger] is_gap(t@, k),
        decreases t@.len() - i,
    {
        if i < t.len() - 1 && t[i] == ':' && t[i + 1] == ':' {
            return parse_gapped_ipv6(t, i);
        }
        i = i + 1;
    }
    parse_full_ipv6(t)
}

/// Reads an IPv6 address.
pub fn parse_ipv6(s: &str) -> (r: Option<Ipv6Addr>)
    ensures
        r == ipv6_of(s@),
{
    parse_ipv6_chars(&chars_of(s))
}

/// The bytes of an Ethernet address written as six hexadecimal numbers between colons.
pub open spec fn mac_of(t: Seq<char>) -> Option<Seq<u8>> {
    let parts = split(t, ':');
    if parts.len() == 6 && (forall|i: int|
        0 <= i < 6 ==> #[trigger] number_upto(parts[i], 16, 255) is Some) {
        Some(Seq::new(6, |i: int| number_upto(parts[i], 16, 255).unwrap() as u8))
    } else {
        None
    }
}

/// Reads an Ethernet address written as six hexadecimal numbers between colons.
pub fn parse_mac_chars(t: &Vec<char>) -> (r: Option<[u8; 6]>)
    ensures
        match r {
            Some(mac) => mac_of(t@) == Some(mac@),
            None => mac_of(t@) is None,
        },
{
    let parts = split_text(t, ':');
    let ghost views = split(t@, ':');
    assert(views.len() == parts@.len());
    if parts.len() != 6 {
        return None;
    }
    let mut mac: [u8; 6] = [0, 0, 0, 0, 0, 0];
    let mut i: usize = 0;
    while i < 6
        invariant
            i <= 6,
            views == split(t@, ':'),
            texts(parts@) == views,
            parts@.len() == 6,
            forall|k: int|
                0 <= k < i ==> (#[trigger] number_upto(views[k], 16, 255) == Some(mac@[k] as int)),
        decreases 6 - i,
    {
        assert(views[i as int] == parts@[i as int]@);
        match parse_number(&parts[i], 16, 255) {
            Some(v) => {
                mac[i] = v as u8;
            },
            None => {
                assert(number_upto(views[i as int], 16, 255) is None);
                return None;
            },
        }
        i = i + 1;
    }
    proof {
        assert forall|k: int| 0 <= k < 6 implies mac@[k] == number_upto(
            views[k],
            16,
            255,
        ).unwrap() as u8 by {}
        assert(mac_of(t@).unwrap() =~= mac@);
    }
    Some(mac)
}

} // verus!
