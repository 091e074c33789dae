//! Numbers and addresses as text.

use vstd::prelude::*;
use vstd::string::StringExecFns;

use crate::addr::{Ipv4Addr, Ipv6Addr};

verus! {

/// The digit `d`, of a base up to 16.
pub open spec fn digit(d: int) -> char {
    if d == 0 {
        '0'
    } else if d == 1 {
        '1'
    } else if d == 2 {
        '2'
    } else if d == 3 {
        '3'
    } else if d == 4 {
        '4'
    } else if d == 5 {
        '5'
    } else if d == 6 {
        '6'
    } else if d == 7 {
        '7'
    } else if d == 8 {
        '8'
    } else if d == 9 {
        '9'
    } else if d == 10 {
        'a'
    } else if d == 11 {
        'b'
    } else if d == 12 {
        'c'
    } else if d == 13 {
        'd'
    } else if d == 14 {
        'e'
    } else {
        'f'
    }
}

/// `n` in base `base`, without leading zeros.
pub open spec fn numeral(n: nat, base: nat) -> Seq<char>
    decreases n,
{
    if n < base || base < 2 {
        seq![digit(n as int)]
    } else {
        proof {
            assert(n / base < n) by (nonlinear_arith)
                requires
                    n >= base,
                    base >= 2,
            ;
        }
        numeral(n / base, base).push(digit((n % base) as int))
    }
}

/// `n` in decimal.
pub open spec fn decimal(n: nat) -> Seq<char> {
    numeral(n, 10)
}

/// A byte in decimal.
pub open spec fn decimal8(n: u8) -> Seq<char> {
    decimal(n as nat)
}

/// A 16-bit number in decimal.
pub open spec fn decimal16(n: u16) -> Seq<char> {
    decimal(n as nat)
}

/// A 32-bit number in decimal.
pub open spec fn decimal32(n: u32) -> Seq<char> {
    decimal(n as nat)
}

/// `n` in hexadecimal.
pub open spec fn hexadecimal(n: nat) -> Seq<char> {
    numeral(n, 16)
}

/// The text of digit `d`.
fn digit_str(d: u32) -> (r: &'static str)
    requires
        d < 16,
    ensures
        r@ == seq![digit(d as int)],
{
    proof {
        reveal_strlit("0");
        reveal_strlit("1");
        reveal_strlit("2");
        reveal_strlit("3");
        reveal_strlit("4");
        reveal_strlit("5");
        reveal_strlit("6");
        reveal_strlit("7");
        reveal_strlit("8");
        reveal_strlit("9");
        reveal_strlit("a");
        reveal_strlit("b");
        reveal_strlit("c");
        reveal_strlit("d");
        reveal_strlit("e");
        reveal_strlit("f");
    }
    if d == 0 {
        "0"
    } else if d == 1 {
        "1"
    } else if d == 2 {
        "2"
    } else if d == 3 {
        "3"
    } else if d == 4 {
        "4"
    } else if d == 5 {
        "5"
    } else if d == 6 {
        "6"
    } else if d == 7 {
        "7"
    } else if d == 8 {
        "8"
    } else if d == 9 {
        "9"
    } else if d == 10 {
        "a"
    } else if d == 11 {
        "b"
    } else if d == 12 {
        "c"
    } else if d == 13 {
        "d"
    } else if d == 14 {
        "e"
    } else {
        "f"
    }
}

/// Appends `n` in base `base`.
pub fn append_numeral(s: &mut String, n: u64, base: u64)
    requires
        2 <= base <= 16,
    ensures
        final(s)@ == old(s)@ + numeral(n as nat, base as nat),
    decreases n,
{
    if n >= base {
        assert(n / base < n) by (nonlinear_arith)
            requires
                n >= base,
                base >= 2,
        ;
        append_numeral(s, n / base, base);
    }
    assert(n % base < base) by (nonlinear_arith)
        requires
            base >= 2,
    ;
    assert(n < base ==> n % base == n) by (nonlinear_arith)
        requires
            base >= 2,
    ;
    s.append(digit_str((n % base) as u32));
    assert(s@ =~= old(s)@ + numeral(n as nat, base as nat));
}

/// Appends `n` in decimal.
pub fn append_decimal(s: &mut String, n: u64)
    ensures
        final(s)@ == old(s)@ + decimal(n as nat),
{
    append_numeral(s, n, 10);
}

/// Appends a byte in decimal.
pub fn append_decimal8(s: &mut String, n: u8)
    ensures
        final(s)@ == old(s)@ + decimal8(n),
{
    append_decimal(s, n as u64);
}

/// Appends a 16-bit number in decimal.
pub fn append_decimal16(s: &mut String, n: u16)
    ensures
        final(s)@ == old(s)@ + decimal16(n),
{
    append_decimal(s, n as u64);
}

/// Appends a 32-bit number in decimal.
pub fn append_decimal32(s: &mut String, n: u32)
    ensures
        final(s)@ == old(s)@ + decimal32(n),
{
    append_decimal(s, n as u64);
}

/// An IPv4 address in dotted decimal.
pub open spec fn ipv4_text(ip: Ipv4Addr) -> Seq<char> {
    decimal(ip.a as nat) + "."@ + decimal(ip.b as nat) + "."@ + decimal(ip.c as nat) + "."@
        + decimal(ip.d as nat)
}

/// Appends an IPv4 address in dotted decimal.
pub fn append_ipv4(s: &mut String, ip: &Ipv4Addr)
    ensures
        final(s)@ == old(s)@ + ipv4_text(*ip),
{
    append_decimal(s, ip.a as u64);
    s.append(".");
    append_decimal(s, ip.b as u64);
    s.append(".");
    append_decimal(s, ip.c as u64);
    s.append(".");
    append_decimal(s, ip.d as u64);
    assert(s@ =~= old(s)@ + ipv4_text(*ip));
}

/// The segments of an IPv6 address.
pub open spec fn segments(ip: Ipv6Addr) -> Seq<u16> {
    seq![ip.s0, ip.s1, ip.s2, ip.s3, ip.s4, ip.s5, ip.s6, ip.s7]
}

/// Segments in hexadecimal, joined by colons.
pub open spec fn joined(segs: Seq<u16>) -> Seq<char>
    decreases segs.len(),
{
    if segs.len() == 0 {
        Seq::empty()
    } else if segs.len() == 1 {
        hexadecimal(segs[0] as nat)
    } else {
        joined(segs.drop_last()) + ":"@ + hexadecimal(segs.last() as nat)
    }
}

/// Whether the segments from `start` on, `len` of them, are all zero.
pub open spec fn zero_run(segs: Seq<u16>, start: int, len: int) -> bool {
    &&& 0 <= start
    &&& 0 <= len
    &&& start + len <= segs.len()
    &&& forall|i: int| start <= i < start + len ==> segs[i] == 0
}

/// Whether the `len` segments from `start` on are the first of the longest runs
/// of zeros.
pub open spec fn first_longest_zero_run(segs: Seq<u16>, start: int, len: int) -> bool {
    &&& zero_run(segs, start, len)
    &&& forall|s: int, l: int| #[trigger] zero_run(segs, s, l) ==> l <= len
    &&& forall|s: int| #[trigger] zero_run(segs, s, len) ==> start <= s
}

/// Whether the address is an IPv4 address mapped into IPv6.
pub open spec fn is_ipv4_mapped(ip: Ipv6Addr) -> bool {
    ip.s0 == 0 && ip.s1 == 0 && ip.s2 == 0 && ip.s3 == 0 && ip.s4 == 0 && ip.s5 == 0xFFFF
}

/// The IPv4 address in the last two segments.
pub open spec fn mapped_ipv4(ip: Ipv6Addr) -> Ipv4Addr {
    Ipv4Addr {
        a: (ip.s6 / 256) as u8,
        b: (ip.s6 % 256) as u8,
        c: (ip.s7 / 256) as u8,
        d: (ip.s7 % 256) as u8,
    }
}

/// Whether `text` is an IPv6 address in its canonical form: the first of the
/// longest runs of two or more zero segments is written `::`, and an IPv4 address
/// mapped into IPv6 ends in dotted decimal.
pub open spec fn is_ipv6_text(ip: Ipv6Addr, text: Seq<char>) -> bool {
    let segs = segments(ip);
    if is_ipv4_mapped(ip) {
        text == "::ffff:"@ + ipv4_text(mapped_ipv4(ip))
    } else {
        exists|start: int, len: int| #[trigger]
            first_longest_zero_run(segs, start, len) && text == (if len > 1 {
                joined(segs.take(start)) + "::"@ + joined(segs.skip(start + len))
            } else {
                joined(segs)
            })
    }
}

/// An IPv6 address in its canonical form.
pub open spec fn ipv6_text(ip: Ipv6Addr) -> Seq<char> {
    choose|text: Seq<char>| is_ipv6_text(ip, text)
}

/// An IPv6 address has one canonical form.
pub proof fn lemma_ipv6_text_unique(ip: Ipv6Addr, text: Seq<char>)
    requires
        is_ipv6_text(ip, text),
    ensures
        text == ipv6_text(ip),
{
    let other = ipv6_text(ip);
    assert(is_ipv6_text(ip, other));
    if !is_ipv4_mapped(ip) {
        let segs = segments(ip);
        let (s1, l1) = choose|start: int, len: int| #[trigger]
            first_longest_zero_run(segs, start, len) && text == (if len > 1 {
                joined(segs.take(start)) + "::"@ + joined(segs.skip(start + len))
            } else {
                joined(segs)
            });
        let (s2, l2) = choose|start: int, len: int| #[trigger]
            first_longest_zero_run(segs, start, len) && other == (if len > 1 {
                joined(segs.take(start)) + "::"@ + joined(segs.skip(start + len))
            } else {
                joined(segs)
            });
        assert(zero_run(segs, s1, l1));
        assert(zero_run(segs, s2, l2));
        assert(l1 == l2);
        assert(s1 == s2);
    }
}

/// Appends the segments `from` up to `to` in hexadecimal, joined by colons.
fn append_segments(s: &mut String, segs: &[u16; 8], from: usize, to: usize)
    requires
        from <= to <= 8,
    ensures
        final(s)@ == old(s)@ + joined(segs@.subrange(from as int, to as int)),
{
    let mut i: usize = from;
    let ghost before = s@;
    assert(segs@.subrange(from as int, from as int).len() == 0);
    assert(s@ =~= before + joined(segs@.subrange(from as int, i as int)));
    while i < to
        invariant
            from <= i <= to <= 8,
            s@ == before + joined(segs@.subrange(from as int, i as int)),
        decreases to - i,
    {
        if i > from {
            s.append(":");
        }
        append_numeral(s, segs[i] as u64, 16);
        proof {
            let now = segs@.subrange(from as int, i + 1);
            assert(now.drop_last() =~= segs@.subrange(from as int, i as int));
            assert(now.last() == segs@[i as int]);
            assert(s@ =~= before + joined(now));
        }
        i = i + 1;
    }
}

/// Appends an IPv6 address in its canonical form.
pub fn append_ipv6(s: &mut String, ip: &Ipv6Addr)
    ensures
        final(s)@ == old(s)@ + ipv6_text(*ip),
{
    let ghost before = s@;
    if ip.s0 == 0 && ip.s1 == 0 && ip.s2 == 0 && ip.s3 == 0 && ip.s4 == 0 && ip.s5 == 0xFFFF {
        let v4 = Ipv4Addr {
            a: (ip.s6 / 256) as u8,
            b: (ip.s6 % 256) as u8,
            c: (ip.s7 / 256) as u8,
            d: (ip.s7 % 256) as u8,
        };
        s.append("::ffff:");
        append_ipv4(s, &v4);
        proof {
            let text = "::ffff:"@ + ipv4_text(v4);
            assert(s@ =~= before + text);
            lemma_ipv6_text_unique(*ip, text);
        }
        return ;
    }
    let segs = [ip.s0, ip.s1, ip.s2, ip.s3, ip.s4, ip.s5, ip.s6, ip.s7];
    assert(segs@ =~= segments(*ip));
    let mut best: usize = 0;
    let mut best_len: usize = 0;
    let mut run: usize = 0;
    let mut i: usize = 0;
    while i < 8
        invariant
            i <= 8,
            run <= i,
            best_len <= 8,
            run <= best_len,
            segs@.len() == 8,
            best + best_len <= i,
            zero_run(segs@, i - run, run as int),
            run < i ==> segs@[i - run - 1] != 0,
            zero_run(segs@, best as int, best_len as int),
            forall|s: int, l: int| #[trigger]
                zero_run(segs@, s, l) && s + l <= i ==> l <= best_len,
            forall|s: int|
                0 <= s && s + best_len <= i && #[trigger] zero_run(segs@, s, best_len as int)
                    ==> best <= s,
        decreases 8 - i,
    {
        let ghost best0 = best as int;
        let ghost best_len0 = best_len as int;
        let ghost run0 = run as int;
        if segs[i] == 0 {
            run = run + 1;
            if run > best_len {
                best = i + 1 - run;
                best_len = run;
            }
        } else {
            run = 0;
        }
        proof {
            assert forall|s: int, l: int| #[trigger]
                zero_run(segs@, s, l) && s + l <= i + 1 implies l <= best_len by {
                if s + l == i + 1 && l > 0 {
                    assert(segs@[i as int] == 0);
                    if l > run {
                        assert(s <= i - run0 - 1 < s + l);
                        assert(segs@[i - run0 - 1] == 0);
                    }
                }
            }
            assert forall|s: int|
                0 <= s && s + best_len <= i + 1 && #[trigger] zero_run(
                    segs@,
                    s,
                    best_len as int,
                ) implies best <= s by {
                if best_len > best_len0 {
                    if s + best_len <= i {
                        assert(zero_run(segs@, s, best_len as int));
                    }
                } else if s + best_len == i + 1 {
                    assert(best0 + best_len0 <= i);
                }
            }
        }
        i = i + 1;
    }
    assert(first_longest_zero_run(segs@, best as int, best_len as int));
    if best_len > 1 {
        append_segments(s, &segs, 0, best);
        s.append("::");
        append_segments(s, &segs, best + best_len, 8);
        proof {
            let text = joined(segs@.take(best as int)) + "::"@ + joined(
                segs@.skip(best + best_len),
            );
            assert(segs@.subrange(0, best as int) =~= segs@.take(best as int));
            assert(segs@.subrange(best + best_len, 8) =~= segs@.skip(best + best_len));
            assert(s@ =~= before + text);
            lemma_ipv6_text_unique(*ip, text);
        }
    } else {
        append_segments(s, &segs, 0, 8);
        proof {
            assert(segs@.subrange(0, 8) =~= segs@);
            lemma_ipv6_text_unique(*ip, joined(segs@));
        }
    }
}

/// `String::push` of the standard library: it puts the character behind those that
/// the string holds.
pub assume_specification[ String::push ](s: &mut String, ch: char)
    ensures
        final(s)@ == old(s)@.push(ch),
;

/// The string of a row of characters.
pub fn string_of(t: &Vec<char>) -> (r: String)
    ensures
        r@ == t@,
{
    let mut r = String::new();
    let mut i: usize = 0;
    assert(r@ =~= t@.take(0));
    while i < t.len()
        invariant
            i <= t@.len(),
            r@ == t@.take(i as int),
        decreases t@.len() - i,
    {
        r.push(t[i]);
        i = i + 1;
        assert(r@ =~= t@.take(i as int));
    }
    assert(t@.take(t@.len() as int) =~= t@);
    r
}

} // verus!
