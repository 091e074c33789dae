//! What holds of texts: parts and words, numbers, addresses, and the tables of the kernel.

use vstd::prelude::*;

use crate::addr::{Ipv4Addr, Ipv6Addr};
use crate::arp;
use crate::ipv6_addr;
use crate::ndp;
use crate::ndp::NeighView;
use crate::parse;
use crate::text;

verus! {

// ---------------------------------------------------------------------------
// Parts and words
// ---------------------------------------------------------------------------

/// A text without separators is its only part, and a separator ends the parts before it and starts
/// those behind it.
pub proof fn law_separators_part_a_text(a: Seq<char>, b: Seq<char>, sep: char)
    ensures
        !a.contains(sep) ==> parse::split(a, sep) == seq![a],
        parse::split(a + seq![sep] + b, sep) == parse::split(a, sep) + parse::split(b, sep),
    decreases a.len() + b.len(),
{
    lemma_no_separator(a, sep);
    lemma_separator(a, b, sep);
}

proof fn lemma_no_separator(a: Seq<char>, sep: char)
    ensures
        !a.contains(sep) ==> parse::split(a, sep) == seq![a],
    decreases a.len(),
{
    if !a.contains(sep) {
        if a.len() == 0 {
            assert(a =~= Seq::<char>::empty());
        } else {
            let rest = a.drop_last();
            assert forall|i: int| 0 <= i < rest.len() implies rest[i] != sep by {
                assert(a[i] == rest[i]);
            }
            lemma_no_separator(rest, sep);
            assert(a.contains(a.last()));
            assert(rest.push(a.last()) =~= a);
            assert(parse::split(a, sep) =~= seq![a]);
        }
    }
}

proof fn lemma_separator(a: Seq<char>, b: Seq<char>, sep: char)
    ensures
        parse::split(a + seq![sep] + b, sep) == parse::split(a, sep) + parse::split(b, sep),
    decreases b.len(),
{
    let t = a + seq![sep] + b;
    let first = parse::split(a, sep);
    if b.len() == 0 {
        assert(t.drop_last() =~= a);
        assert(t.last() == sep);
        assert(parse::split(b, sep) =~= seq![Seq::<char>::empty()]);
        assert(parse::split(t, sep) =~= first + parse::split(b, sep));
    } else {
        let rest = b.drop_last();
        let parts = parse::split(rest, sep);
        assert(t.drop_last() =~= a + seq![sep] + rest);
        assert(t.last() == b.last());
        lemma_separator(a, rest, sep);
        parse::lemma_split_nonempty(rest, sep);
        assert((first + parts).last() == parts.last());
        assert((first + parts).drop_last() =~= first + parts.drop_last());
        assert(parse::split(t, sep) =~= first + parse::split(b, sep));
    }
}

/// Texts with a separator between each two of them.
pub open spec fn joined_by(parts: Seq<Seq<char>>, sep: char) -> Seq<char>
    decreases parts.len(),
{
    if parts.len() == 0 {
        Seq::<char>::empty()
    } else if parts.len() == 1 {
        parts[0]
    } else {
        joined_by(parts.drop_last(), sep) + seq![sep] + parts.last()
    }
}

/// The parts of a text, with separators between them, are the text.
pub proof fn law_parts_make_up_the_text(t: Seq<char>, sep: char)
    ensures
        joined_by(parse::split(t, sep), sep) == t,
    decreases t.len(),
{
    let parts = parse::split(t, sep);
    if t.len() == 0 {
        assert(parts[0] =~= t);
    } else {
        let rest = t.drop_last();
        let before = parse::split(rest, sep);
        law_parts_make_up_the_text(rest, sep);
        parse::lemma_split_nonempty(rest, sep);
        if t.last() == sep {
            assert(parts.drop_last() =~= before);
            assert(joined_by(before, sep) + seq![sep] + Seq::<char>::empty() =~= t);
        } else {
            assert(parts.drop_last() =~= before.drop_last());
            assert(parts.last() == before.last().push(t.last()));
            if before.len() == 1 {
                assert(parts[0] =~= rest.push(t.last()));
                assert(joined_by(parts, sep) =~= t);
            } else {
                let most = joined_by(before.drop_last(), sep) + seq![sep];
                assert(rest == most + before.last());
                assert(joined_by(parts, sep) =~= most + before.last().push(t.last()));
                assert(most + before.last().push(t.last()) =~= rest.push(t.last()));
                assert(rest.push(t.last()) =~= t);
            }
        }
    }
}

/// A text without white space is its only word if it is not empty, and white space has the words
/// before it and those behind it.
pub proof fn law_white_space_parts_words(a: Seq<char>, c: char, b: Seq<char>)
    requires
        c == ' ' || c == '\t' || c == '\n',
    ensures
        parse::words(Seq::<char>::empty()) == Seq::<Seq<char>>::empty(),
        a.len() > 0 && (forall|i: int| 0 <= i < a.len() ==> !#[trigger] parse::is_space(a[i]))
            ==> parse::words(a) == seq![a],
        parse::words(a + seq![c] + b) == parse::words(a) + parse::words(b),
{
    lemma_one_word(a);
    lemma_white_space(a, c, b);
}

proof fn lemma_one_word(a: Seq<char>)
    ensures
        a.len() > 0 && (forall|i: int| 0 <= i < a.len() ==> !#[trigger] parse::is_space(a[i]))
            ==> parse::words(a) == seq![a],
    decreases a.len(),
{
    if a.len() > 0 && (forall|i: int| 0 <= i < a.len() ==> !#[trigger] parse::is_space(a[i])) {
        let rest = a.drop_last();
        assert forall|i: int| 0 <= i < rest.len() implies !#[trigger] parse::is_space(rest[i]) by {
            assert(!parse::is_space(a[i]));
        }
        lemma_one_word(rest);
        assert(!parse::is_space(a[a.len() - 1]));
        if rest.len() > 0 {
            assert(!parse::is_space(rest[rest.len() - 1]));
            assert(parse::in_word(rest));
            assert(rest.push(a.last()) =~= a);
            assert(seq![rest].drop_last().push(rest.push(a.last())) =~= seq![a]);
        } else {
            assert(seq![a.last()] =~= a);
            assert(parse::words(rest) =~= Seq::<Seq<char>>::empty());
            assert(parse::words(rest).push(seq![a.last()]) =~= seq![a]);
        }
    }
}

proof fn lemma_white_space(a: Seq<char>, c: char, b: Seq<char>)
    requires
        parse::is_space(c),
    ensures
        parse::words(a + seq![c] + b) == parse::words(a) + parse::words(b),
    decreases b.len(),
{
    let t = a + seq![c] + b;
    let first = parse::words(a);
    if b.len() == 0 {
        assert(t.drop_last() =~= a);
        assert(t.last() == c);
        assert(parse::words(t) =~= first + parse::words(b));
    } else {
        let rest = b.drop_last();
        let some = parse::words(rest);
        assert(t.drop_last() =~= a + seq![c] + rest);
        assert(t.last() == b.last());
        lemma_white_space(a, c, rest);
        lemma_words_of_a_word(rest);
        if rest.len() > 0 {
            assert((a + seq![c] + rest).last() == rest.last());
        } else {
            assert((a + seq![c] + rest).last() == c);
        }
        if some.len() > 0 {
            assert((first + some).last() == some.last());
            assert((first + some).drop_last() =~= first + some.drop_last());
        }
        assert(parse::words(t) =~= first + parse::words(b));
    }
}

/// A text that ends inside a word has a word.
proof fn lemma_words_of_a_word(t: Seq<char>)
    ensures
        parse::in_word(t) ==> parse::words(t).len() > 0,
{
}

// ---------------------------------------------------------------------------
// Numbers
// ---------------------------------------------------------------------------

/// A number reads back from its decimal and from its hexadecimal form, which have no leading zero.
/// Nothing that is greater than the bound is read.
pub proof fn law_numbers_read_back(n: nat, max: int)
    ensures
        parse::digits_upto(text::decimal(n), 10, max) == (if n <= max {
            Some(n as int)
        } else {
            None
        }),
        parse::digits_upto(text::hexadecimal(n), 16, max) == (if n <= max {
            Some(n as int)
        } else {
            None
        }),
        n > 0 ==> text::decimal(n)[0] != '0' && text::hexadecimal(n)[0] != '0',
        text::decimal(0) == seq!['0'] && text::hexadecimal(0) == seq!['0'],
        parse::number_upto(seq!['+'] + text::decimal(n), 10, max) == parse::digits_upto(
            text::decimal(n),
            10,
            max,
        ),
{
    lemma_numeral(n, 10);
    lemma_numeral(n, 16);
    assert((seq!['+'] + text::decimal(n)).skip(1) =~= text::decimal(n));
}

/// What a numeral is: digits that stand for the number, without a leading zero.
proof fn lemma_numeral(n: nat, base: nat)
    requires
        2 <= base <= 16,
    ensures
        ({
            let t = text::numeral(n, base);
            &&& parse::all_digits(t, base as int)
            &&& parse::digits_value(t, base as int) == n
            &&& n > 0 ==> t[0] != '0'
            &&& n == 0 ==> t == seq!['0']
            &&& n < base ==> t.len() == 1
        }),
    decreases n,
{
    let t = text::numeral(n, base);
    let b = base as int;
    let d = (n % base) as int;
    if n < base {
        assert(t =~= seq![text::digit(n as int)]);
        assert(t.drop_last() =~= Seq::<char>::empty());
        assert(parse::digits_value(t.drop_last(), b) == 0);
        assert(parse::is_digit(t[0], b));
    } else {
        assert(0 < n / base < n) by (nonlinear_arith)
            requires
                n >= base,
                base >= 2,
        ;
        lemma_numeral(n / base, base);
        let head = text::numeral(n / base, base);
        assert(t.drop_last() =~= head);
        assert(t.last() == text::digit(d));
        assert(0 <= d < b);
        assert forall|i: int| 0 <= i < t.len() implies #[trigger] parse::is_digit(t[i], b) by {
            if i < head.len() {
                assert(parse::is_digit(head[i], b));
            }
        }
        vstd::arithmetic::div_mod::lemma_fundamental_div_mod(n as int, b);
        assert((n / base) * b == b * (n as int / b)) by (nonlinear_arith)
            requires
                b == base,
        ;
        assert(t[0] == head[0]);
    }
}

/// Digits without a leading zero are the decimal form of the number that they stand for.
proof fn lemma_decimal_is_the_only_form(t: Seq<char>)
    requires
        parse::all_digits(t, 10),
        t.len() > 1 ==> t[0] != '0',
    ensures
        parse::digits_value(t, 10) >= 0,
        t == text::decimal(parse::digits_value(t, 10) as nat),
    decreases t.len(),
{
    let rest = t.drop_last();
    assert(parse::is_digit(t[t.len() - 1], 10));
    let d = parse::digit_value(t.last()).unwrap();
    assert(text::digit(d) == t.last());
    if t.len() == 1 {
        assert(rest =~= Seq::<char>::empty());
        assert(parse::digits_value(rest, 10) == 0);
        assert(t =~= seq![text::digit(d)]);
    } else {
        assert(parse::is_digit(t[0], 10));
        assert forall|i: int| 0 <= i < rest.len() implies #[trigger] parse::is_digit(rest[i], 10) by {
            assert(parse::is_digit(t[i], 10));
        }
        lemma_decimal_is_the_only_form(rest);
        let v = parse::digits_value(rest, 10);
        assert(rest[0] == t[0]);
        if v == 0 {
            lemma_numeral(0, 10);
            assert(rest == seq!['0']);
        }
        let n = (v * 10 + d) as nat;
        assert(n / 10 == v && n % 10 == d);
        assert(t =~= text::decimal(v as nat).push(text::digit(d)));
    }
}

// ---------------------------------------------------------------------------
// IPv4 addresses
// ---------------------------------------------------------------------------

/// A text is read as an IPv4 address exactly if it is the dotted-decimal form of the address.
pub proof fn law_what_is_an_ipv4_address(t: Seq<char>, ip: Ipv4Addr)
    ensures
        parse::ipv4_of(t) == Some(ip) <==> t == text::decimal8(ip.a) + seq!['.'] + text::decimal8(
            ip.b,
        ) + seq!['.'] + text::decimal8(ip.c) + seq!['.'] + text::decimal8(ip.d),
        text::ipv4_text(ip) == text::decimal8(ip.a) + seq!['.'] + text::decimal8(ip.b) + seq!['.']
            + text::decimal8(ip.c) + seq!['.'] + text::decimal8(ip.d),
{
    reveal_strlit(".");
    assert("."@ =~= seq!['.']);
    let a = text::decimal8(ip.a);
    let b = text::decimal8(ip.b);
    let c = text::decimal8(ip.c);
    let d = text::decimal8(ip.d);
    let dotted = a + seq!['.'] + b + seq!['.'] + c + seq!['.'] + d;
    lemma_octet(ip.a);
    lemma_octet(ip.b);
    lemma_octet(ip.c);
    lemma_octet(ip.d);
    law_separators_part_a_text(a, b, '.');
    law_separators_part_a_text(b, b, '.');
    law_separators_part_a_text(c, b, '.');
    law_separators_part_a_text(d, b, '.');
    law_separators_part_a_text(a + seq!['.'] + b, c, '.');
    law_separators_part_a_text(a + seq!['.'] + b + seq!['.'] + c, d, '.');
    assert(parse::split(dotted, '.') =~= seq![a, b, c, d]);
    assert(parse::ipv4_of(dotted) == Some(ip));
    if parse::ipv4_of(t) == Some(ip) {
        let parts = parse::split(t, '.');
        assert(parse::octet_value(parts[0]) is Some);
        assert(parse::octet_value(parts[1]) is Some);
        assert(parse::octet_value(parts[2]) is Some);
        assert(parse::octet_value(parts[3]) is Some);
        lemma_decimal_is_the_only_form(parts[0]);
        lemma_decimal_is_the_only_form(parts[1]);
        lemma_decimal_is_the_only_form(parts[2]);
        lemma_decimal_is_the_only_form(parts[3]);
        assert(parts =~= seq![a, b, c, d]);
        law_parts_make_up_the_text(t, '.');
        law_parts_make_up_the_text(dotted, '.');
    }
}

/// The decimal form of a byte is an octet of an address.
proof fn lemma_octet(n: u8)
    ensures
        parse::octet_value(text::decimal8(n)) == Some(n as int),
        !text::decimal8(n).contains('.'),
        !text::decimal8(n).contains(':'),
{
    let t = text::decimal8(n);
    lemma_numeral(n as nat, 10);
    reveal_with_fuel(text::numeral, 3);
    assert(t.len() <= 3);
    if n == 0 {
        assert(t.len() == 1);
    }
    assert forall|i: int| 0 <= i < t.len() implies t[i] != '.' && t[i] != ':' by {
        assert(parse::is_digit(t[i], 10));
    }
}

// ---------------------------------------------------------------------------
// IPv6 addresses
// ---------------------------------------------------------------------------

/// An IPv6 address reads back from its canonical form.
pub proof fn law_ipv6_addresses_read_back(ip: Ipv6Addr, t: Seq<char>)
    requires
        text::is_ipv6_text(ip, t),
    ensures
        parse::ipv6_of(t) == Some(ip),
{
    let segs = text::segments(ip);
    if text::is_ipv4_mapped(ip) {
        lemma_mapped_reads_back(ip);
    } else {
        let (start, len) = choose|start: int, len: int| #[trigger]
            text::first_longest_zero_run(segs, start, len) && t == (if len > 1 {
                text::joined(segs.take(start)) + "::"@ + text::joined(segs.skip(start + len))
            } else {
                text::joined(segs)
            });
        assert(text::zero_run(segs, start, len));
        if len > 1 {
            lemma_gap_reads_back(segs.take(start), segs.skip(start + len));
            assert(parse::bridged(segs.take(start), segs.skip(start + len)) =~= segs);
        } else {
            lemma_groups_read_back(segs, true);
            lemma_no_gap(segs);
        }
    }
    assert(parse::is_ipv6_of(t, ip));
    parse::lemma_ipv6_of_unique(t, ip, parse::ipv6_of(t).unwrap());
}

/// Groups in hexadecimal with colons between them, and with two colons in place of as many groups
/// of zeros as are missing, are read as the address of those groups.
pub proof fn law_gaps_stand_for_zeros(head: Seq<u16>, tail: Seq<u16>, ip: Ipv6Addr)
    requires
        head.len() + tail.len() <= 7,
        forall|i: int| 0 <= i < head.len() ==> text::segments(ip)[i] == head[i],
        forall|i: int| head.len() <= i < 8 - tail.len() ==> text::segments(ip)[i] == 0,
        forall|i: int|
            8 - tail.len() <= i < 8 ==> text::segments(ip)[i] == tail[i - 8 + tail.len()],
    ensures
        parse::ipv6_of(text::joined(head) + seq![':', ':'] + text::joined(tail)) == Some(ip),
{
    let t = text::joined(head) + seq![':', ':'] + text::joined(tail);
    reveal_strlit("::");
    assert("::"@ =~= seq![':', ':']);
    lemma_gap_reads_back(head, tail);
    assert(parse::bridged(head, tail) =~= text::segments(ip));
    assert(parse::is_ipv6_of(t, ip));
    parse::lemma_ipv6_of_unique(t, ip, parse::ipv6_of(t).unwrap());
}

/// The hexadecimal form of a group.
proof fn lemma_group(n: u16)
    ensures
        parse::group_value(text::hexadecimal(n as nat)) == Some(n as int),
        !text::hexadecimal(n as nat).contains(':'),
        text::hexadecimal(n as nat).len() > 0,
{
    let t = text::hexadecimal(n as nat);
    lemma_numeral(n as nat, 16);
    reveal_with_fuel(text::numeral, 4);
    assert(t.len() <= 4);
    assert forall|i: int| 0 <= i < t.len() implies t[i] != ':' by {
        assert(parse::is_digit(t[i], 16));
    }
}

/// The parts of joined groups are the groups.
proof fn lemma_parts_of_groups(segs: Seq<u16>)
    requires
        segs.len() > 0,
    ensures
        parse::split(text::joined(segs), ':') == Seq::new(
            segs.len(),
            |i: int| text::hexadecimal(segs[i] as nat),
        ),
    decreases segs.len(),
{
    reveal_strlit(":");
    assert(":"@ =~= seq![':']);
    let last = text::hexadecimal(segs.last() as nat);
    let parts = Seq::new(segs.len(), |i: int| text::hexadecimal(segs[i] as nat));
    lemma_group(segs.last());
    lemma_no_separator(last, ':');
    if segs.len() == 1 {
        assert(parts =~= seq![last]);
    } else {
        let rest = segs.drop_last();
        lemma_parts_of_groups(rest);
        lemma_separator(text::joined(rest), last, ':');
        assert(parts =~= Seq::new(rest.len(), |i: int| text::hexadecimal(rest[i] as nat)) + seq![
            last,
        ]);
    }
}

/// Joined groups are read as the groups.
proof fn lemma_groups_read_back(segs: Seq<u16>, tail: bool)
    ensures
        parse::groups_of(text::joined(segs), tail) == Some(segs),
{
    let t = text::joined(segs);
    if segs.len() == 0 {
        assert(segs =~= Seq::<u16>::empty());
    } else {
        let parts = parse::split(t, ':');
        lemma_no_gap(segs);
        lemma_parts_of_groups(segs);
        assert forall|i: int| 0 <= i < parts.len() implies #[trigger] parse::group_value(parts[i])
            == Some(segs[i] as int) by {
            lemma_group(segs[i]);
        }
        assert(parse::group_values(parts, parts.len() as int) =~= segs);
    }
}

/// Joined groups neither start nor end with a colon, and no two colons are next to each other.
proof fn lemma_no_gap(segs: Seq<u16>)
    ensures
        forall|k: int| !#[trigger] parse::is_gap(text::joined(segs), k),
        segs.len() > 0 ==> text::joined(segs).len() > 0 && text::joined(segs)[0] != ':'
            && text::joined(segs).last() != ':',
    decreases segs.len(),
{
    reveal_strlit(":");
    assert(":"@ =~= seq![':']);
    let t = text::joined(segs);
    if segs.len() > 0 {
        let last = text::hexadecimal(segs.last() as nat);
        lemma_group(segs.last());
        assert forall|i: int| 0 <= i < last.len() implies #[trigger] last[i] != ':' by {
            assert(last.contains(last[i]));
        }
        if segs.len() > 1 {
            let rest = segs.drop_last();
            let before = text::joined(rest);
            lemma_no_gap(rest);
            assert(t == before + seq![':'] + last);
            assert forall|k: int| !#[trigger] parse::is_gap(t, k) by {
                if parse::is_gap(t, k) {
                    if k + 1 < before.len() {
                        assert(t[k] == before[k] && t[k + 1] == before[k + 1]);
                        assert(parse::is_gap(before, k));
                    } else if k < before.len() {
                        assert(t[k] == before.last());
                    } else {
                        assert(t[k + 1] == last[k - before.len()]);
                    }
                }
            }
            assert(t[0] == before[0]);
            assert(t.last() == last.last());
        }
    }
}

/// Both sides of a gap are read as the groups on them.
proof fn lemma_gap_reads_back(head: Seq<u16>, tail: Seq<u16>)
    ensures
        ({
            let t = text::joined(head) + "::"@ + text::joined(tail);
            let i = text::joined(head).len() as int;
            &&& parse::first_gap(t, i)
            &&& parse::groups_of(t.take(i), false) == Some(head)
            &&& parse::groups_of(t.skip(i + 2), true) == Some(tail)
        }),
{
    reveal_strlit("::");
    assert("::"@ =~= seq![':', ':']);
    let before = text::joined(head);
    let t = before + "::"@ + text::joined(tail);
    let i = before.len() as int;
    lemma_no_gap(head);
    assert(t.take(i) =~= before);
    assert(t.skip(i + 2) =~= text::joined(tail));
    lemma_groups_read_back(head, false);
    lemma_groups_read_back(tail, true);
    assert(t[i] == ':' && t[i + 1] == ':');
    assert(parse::is_gap(t, i));
    assert forall|k: int| 0 <= k < i implies !#[trigger] parse::is_gap(t, k) by {
        assert(t[k] == before[k]);
        if k + 1 < i {
            assert(t[k + 1] == before[k + 1]);
            assert(!parse::is_gap(before, k));
        } else {
            assert(t[k] == before.last());
        }
    }
}

/// An IPv4 address mapped into IPv6 reads back.
proof fn lemma_mapped_reads_back(ip: Ipv6Addr)
    requires
        text::is_ipv4_mapped(ip),
    ensures
        parse::is_ipv6_of("::ffff:"@ + text::ipv4_text(text::mapped_ipv4(ip)), ip),
{
    reveal_strlit("::ffff:");
    let v4 = text::mapped_ipv4(ip);
    let dotted = text::ipv4_text(v4);
    let t = "::ffff:"@ + dotted;
    let word = seq!['f', 'f', 'f', 'f'];
    assert(t[0] == ':' && t[1] == ':');
    assert(parse::is_gap(t, 0));
    assert(parse::first_gap(t, 0));
    assert(t.take(0) =~= Seq::<char>::empty());
    let behind = t.skip(2);
    assert(behind =~= word + seq![':'] + dotted);
    law_what_is_an_ipv4_address(dotted, v4);
    lemma_octet(v4.a);
    lemma_octet(v4.b);
    lemma_octet(v4.c);
    lemma_octet(v4.d);
    assert(!dotted.contains(':'));
    lemma_no_separator(word, ':');
    lemma_no_separator(dotted, ':');
    lemma_separator(word, dotted, ':');
    let parts = parse::split(behind, ':');
    assert(parts =~= seq![word, dotted]);
    lemma_ffff();
    let at = text::decimal8(v4.a).len() as int;
    assert(dotted[at] == '.');
    assert(!parse::is_digit(dotted[at], 16));
    assert(parse::group_value(parts[1]) is None);
    assert(parse::group_values(parts, 1) =~= seq![0xFFFFu16]);
    let tail = seq![0xFFFFu16] + parse::ipv4_groups(v4);
    assert(parse::groups_of(behind, true) == Some(tail));
    assert(parse::groups_of(t.take(0), false) == Some(Seq::<u16>::empty()));
    assert(parse::bridged(Seq::<u16>::empty(), tail) =~= text::segments(ip));
    assert(parse::has_sides(t, 0, ip));
}

proof fn lemma_ffff()
    ensures
        parse::group_value(seq!['f', 'f', 'f', 'f']) == Some(0xFFFFint),
{
    let word = seq!['f', 'f', 'f', 'f'];
    assert(word.drop_last() =~= seq!['f', 'f', 'f']);
    assert(word.drop_last().drop_last() =~= seq!['f', 'f']);
    assert(word.drop_last().drop_last().drop_last() =~= seq!['f']);
    assert(word.drop_last().drop_last().drop_last().drop_last() =~= Seq::<char>::empty());
    reveal_with_fuel(parse::digits_value, 5);
    assert forall|i: int| 0 <= i < 4 implies #[trigger] parse::is_digit(word[i], 16) by {}
}

/// A zone stands behind a percent sign, of which the first counts, and is not empty; in front of it
/// stands the address. A text without a percent sign is an address without a zone.
pub proof fn law_what_a_scoped_address_says(
    front: Seq<char>,
    zone: Seq<char>,
    ip: Ipv6Addr,
    scope: Option<Seq<char>>,
)
    requires
        !front.contains('%'),
    ensures
        ipv6_addr::is_scoped(front, ip, scope) <==> scope is None && parse::ipv6_of(front) == Some(
            ip,
        ),
        ipv6_addr::is_scoped(front + seq!['%'] + zone, ip, scope) <==> scope == Some(zone)
            && zone.len() > 0 && parse::ipv6_of(front) == Some(ip),
{
    let t = front + seq!['%'] + zone;
    let at = front.len() as int;
    assert(t.take(at) =~= front);
    assert(t.skip(at + 1) =~= zone);
    assert(t[at] == '%');
    assert(ipv6_addr::first_percent(t, at));
    assert(t.contains('%'));
    assert forall|i: int| #[trigger] ipv6_addr::first_percent(t, i) implies i == at by {
        if i < at {
            assert(front[i] == t[i]);
        } else if at < i {
            assert(t.take(i)[at] == '%');
        }
    }
    assert forall|i: int| !#[trigger] ipv6_addr::first_percent(front, i) by {}
}

// ---------------------------------------------------------------------------
// Ethernet addresses
// ---------------------------------------------------------------------------

/// A byte as two hexadecimal digits.
pub open spec fn two_digits(b: u8) -> Seq<char> {
    seq![text::digit(b as int / 16), text::digit(b as int % 16)]
}

/// Six bytes as two hexadecimal digits each, with colons between them.
pub open spec fn mac_text(m: Seq<u8>) -> Seq<char> {
    two_digits(m[0]) + seq![':'] + two_digits(m[1]) + seq![':'] + two_digits(m[2]) + seq![':']
        + two_digits(m[3]) + seq![':'] + two_digits(m[4]) + seq![':'] + two_digits(m[5])
}

/// An Ethernet address reads back from two hexadecimal digits for each byte.
pub proof fn law_ethernet_addresses_read_back(m: Seq<u8>)
    requires
        m.len() == 6,
    ensures
        parse::mac_of(mac_text(m)) == Some(m),
        arp::hex_bytes(parse::split(mac_text(m), ':')) == m,
{
    lemma_mac_parts(m);
    let parts = parse::split(mac_text(m), ':');
    lemma_two_digits(m[0]);
    lemma_two_digits(m[1]);
    lemma_two_digits(m[2]);
    lemma_two_digits(m[3]);
    lemma_two_digits(m[4]);
    lemma_two_digits(m[5]);
    assert forall|i: int| 0 <= i < 6 implies #[trigger] parse::number_upto(parts[i], 16, 255)
        == Some(m[i] as int) by {}
    assert(parse::mac_of(mac_text(m)).unwrap() =~= m);
    lemma_hex_bytes(parts, m);
}

proof fn lemma_two_digits(b: u8)
    ensures
        parse::number_upto(two_digits(b), 16, 255) == Some(b as int),
        !two_digits(b).contains(':'),
{
    let t = two_digits(b);
    let high = b as int / 16;
    let low = b as int % 16;
    assert(parse::digit_value(text::digit(high)) == Some(high));
    assert(parse::digit_value(text::digit(low)) == Some(low));
    assert(t.drop_last() =~= seq![text::digit(high)]);
    assert(t.drop_last().drop_last() =~= Seq::<char>::empty());
    reveal_with_fuel(parse::digits_value, 3);
    assert(parse::digits_value(t, 16) == b);
    assert forall|i: int| 0 <= i < t.len() implies #[trigger] parse::is_digit(t[i], 16) by {}
}

proof fn lemma_mac_parts(m: Seq<u8>)
    requires
        m.len() == 6,
    ensures
        parse::split(mac_text(m), ':') == Seq::new(6, |i: int| two_digits(m[i])),
{
    let a = two_digits(m[0]);
    let b = two_digits(m[1]);
    let c = two_digits(m[2]);
    let d = two_digits(m[3]);
    let e = two_digits(m[4]);
    let f = two_digits(m[5]);
    lemma_two_digits(m[0]);
    lemma_two_digits(m[1]);
    lemma_two_digits(m[2]);
    lemma_two_digits(m[3]);
    lemma_two_digits(m[4]);
    lemma_two_digits(m[5]);
    lemma_no_separator(a, ':');
    lemma_no_separator(b, ':');
    lemma_no_separator(c, ':');
    lemma_no_separator(d, ':');
    lemma_no_separator(e, ':');
    lemma_no_separator(f, ':');
    let t2 = a + seq![':'] + b;
    let t3 = t2 + seq![':'] + c;
    let t4 = t3 + seq![':'] + d;
    let t5 = t4 + seq![':'] + e;
    lemma_separator(a, b, ':');
    lemma_separator(t2, c, ':');
    lemma_separator(t3, d, ':');
    lemma_separator(t4, e, ':');
    lemma_separator(t5, f, ':');
    assert(parse::split(mac_text(m), ':') =~= seq![a, b, c, d, e, f]);
    assert(seq![a, b, c, d, e, f] =~= Seq::new(6, |i: int| two_digits(m[i])));
}

proof fn lemma_hex_bytes(parts: Seq<Seq<char>>, m: Seq<u8>)
    requires
        parts.len() == m.len(),
        forall|i: int|
            0 <= i < parts.len() ==> #[trigger] parse::number_upto(parts[i], 16, 255) == Some(
                m[i] as int,
            ),
    ensures
        arp::hex_bytes(parts) == m,
    decreases parts.len(),
{
    if parts.len() == 0 {
        assert(m =~= Seq::<u8>::empty());
    } else {
        let rest = parts.drop_last();
        assert forall|i: int| 0 <= i < rest.len() implies #[trigger] parse::number_upto(
            rest[i],
            16,
            255,
        ) == Some(m.drop_last()[i] as int) by {
            assert(parse::number_upto(parts[i], 16, 255) == Some(m[i] as int));
        }
        lemma_hex_bytes(rest, m.drop_last());
        assert(parse::number_upto(parts[parts.len() - 1], 16, 255) == Some(
            m[parts.len() - 1] as int,
        ));
        assert(m.drop_last().push(m.last()) =~= m);
    }
}

// ---------------------------------------------------------------------------
// The tables of the kernel
// ---------------------------------------------------------------------------

/// A line of the ARP table that starts with an IPv4 address, a type, flags and an Ethernet address
/// is an entry of that address, unless the flags are `0x0`. A line with fewer words is none.
pub proof fn law_arp_table_line(line: Seq<char>, ip: Ipv4Addr, m: Seq<u8>)
    requires
        m.len() == 6,
    ensures
        ({
            let w = parse::words(line);
            &&& w.len() >= 4 && w[0] == text::ipv4_text(ip) && w[3] == mac_text(m) ==> {
                if w[2] == seq!['0', 'x', '0'] {
                    arp::arp_line(line) is None
                } else {
                    arp::arp_line(line) == Some((ip, m))
                }
            }
            &&& w.len() < 4 ==> arp::arp_line(line) is None
        }),
{
    law_what_is_an_ipv4_address(text::ipv4_text(ip), ip);
    law_ethernet_addresses_read_back(m);
}

/// The ARP table has the entries on its lines, in their order, but for what is on its first line.
pub proof fn law_arp_table_lines(heading: Seq<char>, a: Seq<char>, b: Seq<char>)
    requires
        !heading.contains('\n'),
    ensures
        arp::arp_table(heading) == Seq::<(Ipv4Addr, Seq<u8>)>::empty(),
        arp::arp_table(heading + seq!['\n'] + a + seq!['\n'] + b) == arp::arp_table(
            heading + seq!['\n'] + a,
        ) + arp::arp_table(heading + seq!['\n'] + b),
        !a.contains('\n') ==> arp::arp_table(heading + seq!['\n'] + a) == (match arp::arp_line(a) {
            Some(entry) => seq![entry],
            None => Seq::<(Ipv4Addr, Seq<u8>)>::empty(),
        }),
{
    let nl = '\n';
    lemma_no_separator(heading, nl);
    lemma_no_separator(a, nl);
    let pa = parse::split(a, nl);
    let pb = parse::split(b, nl);
    assert(seq![heading].skip(1) =~= Seq::<Seq<char>>::empty());
    lemma_separator(heading, a, nl);
    lemma_separator(heading, b, nl);
    lemma_separator(heading + seq![nl] + a, b, nl);
    assert((seq![heading] + pa).skip(1) =~= pa);
    assert((seq![heading] + pb).skip(1) =~= pb);
    assert((seq![heading] + pa + pb).skip(1) =~= pa + pb);
    lemma_arp_lines(pa, pb);
    if !a.contains(nl) {
        assert(seq![a].drop_last() =~= Seq::<Seq<char>>::empty());
        assert(arp::arp_lines(seq![a].drop_last()) =~= Seq::<(Ipv4Addr, Seq<u8>)>::empty());
        assert(seq![a].last() == a);
    }
}

proof fn lemma_arp_lines(a: Seq<Seq<char>>, b: Seq<Seq<char>>)
    ensures
        arp::arp_lines(a + b) == arp::arp_lines(a) + arp::arp_lines(b),
    decreases b.len(),
{
    if b.len() == 0 {
        assert(a + b =~= a);
        assert(arp::arp_lines(a) + arp::arp_lines(b) =~= arp::arp_lines(a));
    } else {
        assert((a + b).drop_last() =~= a + b.drop_last());
        assert((a + b).last() == b.last());
        lemma_arp_lines(a, b.drop_last());
        assert(arp::arp_lines(a + b) =~= arp::arp_lines(a) + arp::arp_lines(b));
    }
}

/// A line of the neighbor table with an IPv6 address, a number, an Ethernet address, a state, flags
/// and a name is an entry of that address on the interface of that name, if the state is 1 or 2 in
/// hexadecimal, with or without `0x`, and a byte of the Ethernet address is not zero. A line with
/// fewer words is none.
pub proof fn law_neighbor_table_line(line: Seq<char>, ip: Ipv6Addr, m: Seq<u8>, state: u32)
    requires
        m.len() == 6,
    ensures
        ({
            let w = parse::words(line);
            let number = text::hexadecimal(state as nat);
            let counts = (state == 1 || state == 2) && exists|k: int| 0 <= k < 6 && m[k] != 0;
            &&& w.len() >= 6 && text::is_ipv6_text(ip, w[0]) && w[2] == mac_text(m) && (w[3]
                == number || w[3] == seq!['0', 'x'] + number) ==> {
                if counts {
                    ndp::neigh_line(line) == Some((NeighView { ip, mac: m, interface: w[5] }))
                } else {
                    ndp::neigh_line(line) is None
                }
            }
            &&& w.len() < 6 ==> ndp::neigh_line(line) is None
        }),
{
    let w = parse::words(line);
    law_ethernet_addresses_read_back(m);
    lemma_state(state);
    if w.len() >= 6 && text::is_ipv6_text(ip, w[0]) {
        law_ipv6_addresses_read_back(ip, w[0]);
    }
    if !(exists|k: int| 0 <= k < 6 && m[k] != 0) {
        assert(m =~= arp::zero_mac());
    }
}

proof fn lemma_state(state: u32)
    ensures
        ndp::neigh_state(text::hexadecimal(state as nat)) == Some(state as int),
        ndp::neigh_state(seq!['0', 'x'] + text::hexadecimal(state as nat)) == Some(state as int),
{
    let t = text::hexadecimal(state as nat);
    let long = seq!['0', 'x'] + t;
    lemma_numeral(state as nat, 16);
    assert forall|i: int| 0 <= i < t.len() implies t[i] != 'x' && t[i] != '+' by {
        assert(parse::is_digit(t[i], 16));
    }
    assert(long.skip(2) =~= t);
    assert(ndp::without_0x(t) == t);
    assert(ndp::without_0x(long) == ndp::without_0x(long.skip(2)));
}

/// The neighbor table has the entries on its lines, in their order.
pub proof fn law_neighbor_table_lines(a: Seq<char>, b: Seq<char>)
    ensures
        ndp::neigh_lines(parse::split(a + seq!['\n'] + b, '\n')) == ndp::neigh_lines(
            parse::split(a, '\n'),
        ) + ndp::neigh_lines(parse::split(b, '\n')),
        !a.contains('\n') ==> ndp::neigh_lines(parse::split(a, '\n')) == (match ndp::neigh_line(
            a,
        ) {
            Some(entry) => seq![entry],
            None => Seq::<NeighView>::empty(),
        }),
{
    lemma_no_separator(a, '\n');
    lemma_separator(a, b, '\n');
    lemma_neigh_lines(parse::split(a, '\n'), parse::split(b, '\n'));
    assert(seq![a].drop_last() =~= Seq::<Seq<char>>::empty());
    assert(ndp::neigh_lines(seq![a].drop_last()) =~= Seq::<NeighView>::empty());
    assert(seq![a].last() == a);
}

proof fn lemma_neigh_lines(a: Seq<Seq<char>>, b: Seq<Seq<char>>)
    ensures
        ndp::neigh_lines(a + b) == ndp::neigh_lines(a) + ndp::neigh_lines(b),
    decreases b.len(),
{
    if b.len() == 0 {
        assert(a + b =~= a);
        assert(ndp::neigh_lines(a) + ndp::neigh_lines(b) =~= ndp::neigh_lines(a));
    } else {
        assert((a + b).drop_last() =~= a + b.drop_last());
        assert((a + b).last() == b.last());
        lemma_neigh_lines(a, b.drop_last());
        assert(ndp::neigh_lines(a + b) =~= ndp::neigh_lines(a) + ndp::neigh_lines(b));
    }
}

/// The canonical form of an IPv6 address: of the runs of at least two groups of zeros the longest,
/// and of several such the first, is written as two colons; an address without such a run is
/// written with all its groups.
pub proof fn law_longest_run_of_zeros_is_left_out(ip: Ipv6Addr, t: Seq<char>, start: int, len: int)
    requires
        text::is_ipv6_text(ip, t),
        !(ip.s0 == 0 && ip.s1 == 0 && ip.s2 == 0 && ip.s3 == 0 && ip.s4 == 0 && ip.s5 == 0xFFFF),
        0 <= start,
        0 <= len,
        start + len <= 8,
        forall|i: int| start <= i < start + len ==> text::segments(ip)[i] == 0,
        forall|s: int, l: int|
            0 <= s && 0 <= l && s + l <= 8 && (forall|i: int|
                s <= i < s + l ==> text::segments(ip)[i] == 0) ==> #[trigger] no_better(
                start,
                len,
                s,
                l,
            ),
    ensures
        len >= 2 ==> t == text::joined(text::segments(ip).take(start)) + seq![':', ':']
            + text::joined(text::segments(ip).skip(start + len)),
        len < 2 ==> t == text::joined(text::segments(ip)),
{
    reveal_strlit("::");
    assert("::"@ =~= seq![':', ':']);
    let segs = text::segments(ip);
    assert(text::zero_run(segs, start, len));
    let (s2, l2) = choose|start: int, len: int| #[trigger]
        text::first_longest_zero_run(segs, start, len) && t == (if len > 1 {
            text::joined(segs.take(start)) + "::"@ + text::joined(segs.skip(start + len))
        } else {
            text::joined(segs)
        });
    assert(text::zero_run(segs, s2, l2));
    assert(no_better(start, len, s2, l2));
    assert(l2 == len);
    assert(s2 == start);
}

/// Whether a run of `l` groups from `s` on is not longer than one of `len` from `start` on, nor as
/// long and before it.
pub open spec fn no_better(start: int, len: int, s: int, l: int) -> bool {
    l < len || l == len && start <= s
}

} // verus!
