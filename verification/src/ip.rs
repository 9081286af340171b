//! The IPv4 address type: four octets, with dotted-decimal parsing and
//! formatting.

use vstd::prelude::*;

verus! {

/// An IPv4 address as four unsigned 8-bit octets.
#[derive(Clone, Copy, PartialEq, Eq, Structural, Debug)]
pub struct Ipv4 {
    pub o0: u8,
    pub o1: u8,
    pub o2: u8,
    pub o3: u8,
}

impl Ipv4 {
    pub fn new(o0: u8, o1: u8, o2: u8, o3: u8) -> (r: Ipv4)
        ensures
            r == (Ipv4 { o0, o1, o2, o3 }),
    {
        Ipv4 { o0, o1, o2, o3 }
    }
}

/// A decimal digit.
pub open spec fn is_digit(c: char) -> bool {
    48 <= c as int <= 57
}

/// The value of a decimal digit.
pub open spec fn digit_val(c: char) -> int {
    c as int - 48
}

pub open spec fn all_digits(s: Seq<char>) -> bool {
    forall|i: int| 0 <= i < s.len() ==> is_digit(s[i])
}

/// The number a string of decimal digits denotes, most significant first.
pub open spec fn octet_value(s: Seq<char>) -> int
    decreases s.len(),
{
    if s.len() == 0 {
        0
    } else {
        octet_value(s.drop_last()) * 10 + digit_val(s.last())
    }
}

/// One component of a dotted-decimal literal: one to three digits, no
/// leading zero, value at most 255.
pub open spec fn valid_octet_text(s: Seq<char>) -> bool {
    &&& 1 <= s.len() <= 3
    &&& all_digits(s)
    &&& (s.len() > 1 ==> s[0] != '0')
    &&& octet_value(s) <= 255
}

/// The indices of the `.` characters in `s`, in increasing order.
pub open spec fn dot_positions(s: Seq<char>) -> Seq<int>
    decreases s.len(),
{
    if s.len() == 0 {
        Seq::empty()
    } else if s.last() == '.' {
        dot_positions(s.drop_last()).push(s.len() - 1)
    } else {
        dot_positions(s.drop_last())
    }
}

/// What a text denotes as a dotted-decimal IPv4 literal: four valid octet
/// components separated by exactly three dots, and nothing else. Any other
/// text denotes no address.
pub open spec fn spec_parse_ipv4(s: Seq<char>) -> Option<Ipv4> {
    let d = dot_positions(s);
    if d.len() == 3 {
        let p0 = s.subrange(0, d[0]);
        let p1 = s.subrange(d[0] + 1, d[1]);
        let p2 = s.subrange(d[1] + 1, d[2]);
        let p3 = s.subrange(d[2] + 1, s.len() as int);
        if valid_octet_text(p0) && valid_octet_text(p1) && valid_octet_text(p2)
            && valid_octet_text(p3) {
            Some(
                Ipv4 {
                    o0: octet_value(p0) as u8,
                    o1: octet_value(p1) as u8,
                    o2: octet_value(p2) as u8,
                    o3: octet_value(p3) as u8,
                },
            )
        } else {
            None
        }
    } else {
        None
    }
}

proof fn lemma_octet_value_bound(s: Seq<char>)
    requires
        all_digits(s),
        s.len() <= 3,
    ensures
        0 <= octet_value(s),
        s.len() <= 1 ==> octet_value(s) <= 9,
        s.len() <= 2 ==> octet_value(s) <= 99,
        octet_value(s) <= 999,
    decreases s.len(),
{
    if s.len() > 0 {
        assert forall|i: int| 0 <= i < s.drop_last().len() implies is_digit(
            #[trigger] s.drop_last()[i],
        ) by {
            assert(s.drop_last()[i] == s[i]);
        }
        lemma_octet_value_bound(s.drop_last());
        assert(is_digit(s.last()));
    }
}

/// The value of one decimal digit character, `None` on anything else.
fn digit_of(c: char) -> (r: Option<u32>)
    ensures
        match r {
            Some(v) => is_digit(c) && v == digit_val(c),
            None => !is_digit(c),
        },
{
    match c {
        '0' => Some(0),
        '1' => Some(1),
        '2' => Some(2),
        '3' => Some(3),
        '4' => Some(4),
        '5' => Some(5),
        '6' => Some(6),
        '7' => Some(7),
        '8' => Some(8),
        '9' => Some(9),
        _ => None,
    }
}

/// Parses one component: the characters of `text` from `lo` (inclusive) to
/// `hi` (exclusive), as a decimal octet.
fn parse_octet(text: &Vec<char>, lo: usize, hi: usize) -> (r: Option<u8>)
    requires
        lo <= hi <= text@.len(),
    ensures
        match r {
            Some(v) => valid_octet_text(text@.subrange(lo as int, hi as int)) && v
                == octet_value(text@.subrange(lo as int, hi as int)),
            None => !valid_octet_text(text@.subrange(lo as int, hi as int)),
        },
{
    let ghost sub = text@.subrange(lo as int, hi as int);
    let n: usize = hi - lo;
    if n == 0 || n > 3 {
        return None;
    }
    if n > 1 && text[lo] == '0' {
        assert(sub[0] == '0');
        return None;
    }
    let mut acc: u32 = 0;
    let mut j: usize = lo;
    while j < hi
        invariant
            lo <= j <= hi <= text@.len(),
            sub == text@.subrange(lo as int, hi as int),
            hi - lo == n,
            1 <= n <= 3,
            all_digits(sub.take(j - lo)),
            acc == octet_value(sub.take(j - lo)),
            acc <= 999,
        decreases hi - j,
    {
        let c: char = text[j];
        assert(sub[j - lo] == text@[j as int]);
        let dv: u32 = match digit_of(c) {
            Some(v) => v,
            None => {
                assert(!all_digits(sub)) by {
                    assert(sub[j - lo] == c);
                    assert(!is_digit(sub[j - lo]));
                }
                return None;
            },
        };
        proof {
            let t0 = sub.take(j - lo);
            let t1 = sub.take(j + 1 - lo);
            assert(sub[j - lo] == c);
            assert(t1.drop_last() =~= t0);
            assert(t1.last() == c);
            assert forall|k: int| 0 <= k < t1.len() implies is_digit(#[trigger] t1[k]) by {
                if k < t0.len() {
                    assert(t1[k] == t0[k]);
                } else {
                    assert(t1[k] == c);
                }
            }
            lemma_octet_value_bound(t0);
            lemma_octet_value_bound(t1);
        }
        acc = acc * 10 + dv;
        j = j + 1;
    }
    assert(sub.take(hi - lo) =~= sub);
    if acc <= 255 {
        Some(acc as u8)
    } else {
        None
    }
}

/// Parses a dotted-decimal IPv4 literal, exactly as `spec_parse_ipv4`
/// describes: `None` on anything but four dot-separated octet components.
pub fn parse_ipv4(text: &Vec<char>) -> (r: Option<Ipv4>)
    ensures
        r == spec_parse_ipv4(text@),
{
    let mut dots: Vec<usize> = Vec::new();
    let mut i: usize = 0;
    while i < text.len()
        invariant
            0 <= i <= text@.len(),
            dots@.map_values(|x: usize| x as int) =~= dot_positions(text@.take(i as int)),
            forall|k: int| 0 <= k < dots@.len() ==> dots@[k] < i,
            forall|k1: int, k2: int|
                0 <= k1 < k2 < dots@.len() ==> dots@[k1] < dots@[k2],
        decreases text@.len() - i,
    {
        proof {
            assert(text@.take(i + 1).drop_last() =~= text@.take(i as int));
            assert(text@.take(i + 1).last() == text@[i as int]);
        }
        if text[i] == '.' {
            dots.push(i);
        }
        i = i + 1;
    }
    assert(text@.take(text@.len() as int) =~= text@);
    let ghost d = dot_positions(text@);
    if dots.len() != 3 {
        return None;
    }
    assert(dots@[0] as int == d[0] && dots@[1] as int == d[1] && dots@[2] as int == d[2]);
    let r0 = parse_octet(text, 0, dots[0]);
    let r1 = parse_octet(text, dots[0] + 1, dots[1]);
    let r2 = parse_octet(text, dots[1] + 1, dots[2]);
    let r3 = parse_octet(text, dots[2] + 1, text.len());
    match (r0, r1, r2, r3) {
        (Some(o0), Some(o1), Some(o2), Some(o3)) => Some(Ipv4 { o0, o1, o2, o3 }),
        _ => None,
    }
}

/// The character for one decimal digit.
pub open spec fn digit_char(d: int) -> char {
    if d == 0 {
        '0'
    } else if d == 1 {
        '1'
    } else if d == 2 {
        '2'
    } else if d == 3 {
        '3'
    } else if d == 4 {
        '4'
    } else if d == 5 {
        '5'
    } else if d == 6 {
        '6'
    } else if d == 7 {
        '7'
    } else if d == 8 {
        '8'
    } else {
        '9'
    }
}

/// The decimal rendering of a nonnegative number, most significant digit
/// first, with no leading zeros.
pub open spec fn spec_dec(n: int) -> Seq<char>
    decreases n,
{
    if n < 10 {
        seq![digit_char(n)]
    } else {
        spec_dec(n / 10).push(digit_char(n % 10))
    }
}

/// The dotted-decimal rendering of an address.
pub open spec fn spec_format_ipv4(ip: Ipv4) -> Seq<char> {
    spec_dec(ip.o0 as int) + seq!['.'] + spec_dec(ip.o1 as int) + seq!['.'] + spec_dec(
        ip.o2 as int,
    ) + seq!['.'] + spec_dec(ip.o3 as int)
}

fn char_of_digit(d: u64) -> (r: char)
    requires
        d <= 9,
    ensures
        r == digit_char(d as int),
{
    match d {
        0 => '0',
        1 => '1',
        2 => '2',
        3 => '3',
        4 => '4',
        5 => '5',
        6 => '6',
        7 => '7',
        8 => '8',
        _ => '9',
    }
}

/// Renders a number in decimal, exactly as `spec_dec` describes.
pub fn format_u64(n: u64) -> (r: Vec<char>)
    ensures
        r@ == spec_dec(n as int),
{
    if n < 10 {
        let mut out: Vec<char> = Vec::new();
        out.push(char_of_digit(n));
        assert(out@ =~= spec_dec(n as int));
        return out;
    }
    let mut rev: Vec<char> = Vec::new();
    let mut m: u64 = n;
    while m > 0
        invariant
            spec_dec(n as int) =~= (if m > 0 {
                spec_dec(m as int)
            } else {
                Seq::<char>::empty()
            }) + rev@.reverse(),
        decreases m,
    {
        let d: u64 = m % 10;
        let c: char = char_of_digit(d);
        proof {
            let prev = rev@;
            let next = rev@.push(c);
            assert(next.reverse() =~= seq![c] + prev.reverse());
            if m >= 10 {
                assert(spec_dec(m as int) == spec_dec(m as int / 10).push(digit_char(m as int % 10)));
                assert(spec_dec(m as int / 10).push(c) + prev.reverse() =~= spec_dec(m as int / 10)
                    + (seq![c] + prev.reverse()));
            } else {
                assert(spec_dec(m as int) =~= seq![c]);
            }
        }
        rev.push(c);
        m = m / 10;
    }
    let mut out: Vec<char> = Vec::new();
    let mut i: usize = 0;
    let len: usize = rev.len();
    while i < len
        invariant
            0 <= i <= len,
            len == rev@.len(),
            out@ =~= rev@.reverse().take(i as int),
        decreases len - i,
    {
        let c: char = rev[len - 1 - i];
        proof {
            assert(rev@.reverse()[i as int] == rev@[len - 1 - i]);
            assert(rev@.reverse().take(i + 1) =~= rev@.reverse().take(i as int).push(
                rev@.reverse()[i as int],
            ));
        }
        out.push(c);
        i = i + 1;
    }
    assert(rev@.reverse().take(len as int) =~= rev@.reverse());
    out
}

/// Renders an address in dotted decimal, exactly as `spec_format_ipv4`
/// describes.
pub fn format_ipv4(ip: &Ipv4) -> (r: Vec<char>)
    ensures
        r@ == spec_format_ipv4(*ip),
{
    let mut out: Vec<char> = format_u64(ip.o0 as u64);
    out.push('.');
    let mut p1: Vec<char> = format_u64(ip.o1 as u64);
    out.append(&mut p1);
    out.push('.');
    let mut p2: Vec<char> = format_u64(ip.o2 as u64);
    out.append(&mut p2);
    out.push('.');
    let mut p3: Vec<char> = format_u64(ip.o3 as u64);
    out.append(&mut p3);
    assert(out@ =~= spec_format_ipv4(*ip));
    out
}

} // verus!
