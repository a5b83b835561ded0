//! IPv4 and CIDR arithmetic: the dotted-decimal grammar, prefix masks,
//! block sizes, and enumeration of the host addresses a scan dispatches.
//!
//! An IPv4 address is held as a `u32` in network numeric order (the first
//! octet is the most significant byte), so that the display order of scan
//! results is plain integer order.

use vstd::prelude::*;

verus! {

/// `c` is an ASCII decimal digit.
pub open spec fn is_digit(c: char) -> bool {
    48 <= c as u32 && c as u32 <= 57
}

/// Numeric value of a digit character.
pub open spec fn digit_val(c: char) -> int {
    c as u32 - 48
}

/// Every character of `s` is a decimal digit.
pub open spec fn all_digits(s: Seq<char>) -> bool {
    forall|i: int| 0 <= i < s.len() ==> is_digit(#[trigger] s[i])
}

/// Value of a digit string read in the usual big-endian decimal way.
pub open spec fn dec_val(s: Seq<char>) -> int
    decreases s.len(),
{
    if s.len() == 0 {
        0
    } else {
        dec_val(s.drop_last()) * 10 + digit_val(s.last())
    }
}

/// A well-formed address octet: one to three digits, no leading zero
/// (except the single digit "0"), value at most 255.
pub open spec fn is_octet_str(s: Seq<char>) -> bool {
    &&& 1 <= s.len() <= 3
    &&& all_digits(s)
    &&& (s.len() > 1 ==> s[0] != '0')
    &&& dec_val(s) <= 255
}

/// A well-formed prefix length: one or two digits, value at most 32.
pub open spec fn is_prefix_str(s: Seq<char>) -> bool {
    &&& 1 <= s.len() <= 2
    &&& all_digits(s)
    &&& dec_val(s) <= 32
}

/// Index of the first occurrence of `ch` in `s` at or after `from`;
/// `s.len()` when there is none.
pub open spec fn find_from(s: Seq<char>, ch: char, from: int) -> int
    recommends
        0 <= from <= s.len(),
    decreases s.len() - from when 0 <= from <= s.len()
{
    if from >= s.len() {
        s.len() as int
    } else if s[from] == ch {
        from
    } else {
        find_from(s, ch, from + 1)
    }
}

/// `find_from` returns the first occurrence: it lies in `[from, s.len()]`,
/// points at `ch` when it is inside the string, and nothing in between
/// matches.
pub proof fn lemma_find_from(s: Seq<char>, ch: char, from: int)
    requires
        0 <= from <= s.len(),
    ensures
        from <= find_from(s, ch, from) <= s.len(),
        find_from(s, ch, from) < s.len() ==> s[find_from(s, ch, from)] == ch,
        forall|j: int| from <= j < find_from(s, ch, from) ==> s[j] != ch,
    decreases s.len() - from,
{
    if from < s.len() && s[from] != ch {
        lemma_find_from(s, ch, from + 1);
    }
}

/// The dotted-decimal value of `s`, when `s` consists of exactly four
/// well-formed octets separated by single dots.
pub open spec fn spec_parse_ipv4(s: Seq<char>) -> Option<u32> {
    let d1 = find_from(s, '.', 0);
    if d1 >= s.len() {
        None
    } else {
        let d2 = find_from(s, '.', d1 + 1);
        if d2 >= s.len() {
            None
        } else {
            let d3 = find_from(s, '.', d2 + 1);
            if d3 >= s.len() {
                None
            } else if find_from(s, '.', d3 + 1) != s.len() {
                None
            } else {
                let a = s.subrange(0, d1);
                let b = s.subrange(d1 + 1, d2);
                let c = s.subrange(d2 + 1, d3);
                let d = s.subrange(d3 + 1, s.len() as int);
                if is_octet_str(a) && is_octet_str(b) && is_octet_str(c) && is_octet_str(d) {
                    Some(
                        (dec_val(a) * 0x1000000 + dec_val(b) * 0x10000 + dec_val(c) * 0x100
                            + dec_val(d)) as u32,
                    )
                } else {
                    None
                }
            }
        }
    }
}

/// The address and prefix length denoted by `s`, when `s` is a dotted-decimal
/// address, one '/', and a prefix length of at most 32.
pub open spec fn spec_parse_cidr(s: Seq<char>) -> Option<(u32, u8)> {
    let k = find_from(s, '/', 0);
    if k >= s.len() {
        None
    } else if find_from(s, '/', k + 1) != s.len() {
        None
    } else {
        let ip_part = s.subrange(0, k);
        let p_part = s.subrange(k + 1, s.len() as int);
        if !is_prefix_str(p_part) {
            None
        } else {
            match spec_parse_ipv4(ip_part) {
                Some(ip) => Some((ip, dec_val(p_part) as u8)),
                None => None,
            }
        }
    }
}

/// Copy of the characters of `v` between `from` and `to`.
fn sub_vec(v: &Vec<char>, from: usize, to: usize) -> (r: Vec<char>)
    requires
        from <= to <= v@.len(),
    ensures
        r@ == v@.subrange(from as int, to as int),
{
    let mut r: Vec<char> = Vec::new();
    let mut i = from;
    while i < to
        invariant
            from <= i <= to <= v@.len(),
            r@ == v@.subrange(from as int, i as int),
        decreases to - i,
    {
        r.push(v[i]);
        i = i + 1;
        proof {
            assert(r@ =~= v@.subrange(from as int, i as int));
        }
    }
    r
}

/// Index of the first occurrence of `ch` at or after `from`, or `v.len()`.
fn find_char(v: &Vec<char>, ch: char, from: usize) -> (r: usize)
    requires
        from <= v@.len(),
    ensures
        r == find_from(v@, ch, from as int),
{
    proof {
        lemma_find_from(v@, ch, from as int);
    }
    let ghost target = find_from(v@, ch, from as int);
    let mut i = from;
    while i < v.len()
        invariant
            from <= i <= v@.len(),
            target == find_from(v@, ch, from as int),
            from as int <= target <= v@.len(),
            target < v@.len() ==> v@[target] == ch,
            forall|j: int| from <= j < target ==> v@[j] != ch,
            i <= target,
        decreases v@.len() - i,
    {
        if v[i] == ch {
            proof {
                if i < target {
                    assert(v@[i as int] != ch);
                }
            }
            return i;
        }
        proof {
            if i == target {
                assert(v@[target] == ch);
            }
        }
        i = i + 1;
    }
    i
}

/// Value of the digit run `v[from..to]` when it is a well-formed octet.
fn parse_octet(v: &Vec<char>, from: usize, to: usize) -> (r: Option<u8>)
    requires
        from <= to <= v@.len(),
    ensures
        match r {
            Some(val) => is_octet_str(v@.subrange(from as int, to as int)) && val == dec_val(
                v@.subrange(from as int, to as int),
            ),
            None => !is_octet_str(v@.subrange(from as int, to as int)),
        },
{
    let ghost s = v@.subrange(from as int, to as int);
    let len = to - from;
    if len < 1 || len > 3 {
        return None;
    }
    if len > 1 && v[from] == '0' {
        return None;
    }
    let mut val: u32 = 0;
    let mut i = from;
    while i < to
        invariant
            from <= i <= to <= v@.len(),
            s == v@.subrange(from as int, to as int),
            to - from <= 3,
            all_digits(s.take(i - from)),
            val == dec_val(s.take(i - from)),
            i - from == 0 ==> val == 0,
            i - from == 1 ==> val <= 9,
            i - from == 2 ==> val <= 99,
            i - from >= 3 ==> val <= 999,
        decreases to - i,
    {
        let c = v[i];
        let cu = c as u32;
        if cu < 48 || cu > 57 {
            assert(!is_digit(s[i - from]));
            return None;
        }
        let d = cu - 48;
        proof {
            assert(s.take(i + 1 - from).drop_last() =~= s.take(i - from));
            assert(s.take(i + 1 - from).last() == s[i - from]);
        }
        val = val * 10 + d;
        i = i + 1;
    }
    proof {
        assert(s.take(to - from) =~= s);
    }
    if val > 255 {
        return None;
    }
    Some(val as u8)
}

/// Value of the digit run `v[from..to]` when it is a well-formed prefix
/// length.
fn parse_prefix(v: &Vec<char>, from: usize, to: usize) -> (r: Option<u8>)
    requires
        from <= to <= v@.len(),
    ensures
        match r {
            Some(val) => is_prefix_str(v@.subrange(from as int, to as int)) && val == dec_val(
                v@.subrange(from as int, to as int),
            ),
            None => !is_prefix_str(v@.subrange(from as int, to as int)),
        },
{
    let ghost s = v@.subrange(from as int, to as int);
    let len = to - from;
    if len < 1 || len > 2 {
        return None;
    }
    let mut val: u32 = 0;
    let mut i = from;
    while i < to
        invariant
            from <= i <= to <= v@.len(),
            s == v@.subrange(from as int, to as int),
            to - from <= 2,
            all_digits(s.take(i - from)),
            val == dec_val(s.take(i - from)),
            i - from == 0 ==> val == 0,
            i - from == 1 ==> val <= 9,
            i - from >= 2 ==> val <= 99,
        decreases to - i,
    {
        let c = v[i];
        let cu = c as u32;
        if cu < 48 || cu > 57 {
            assert(!is_digit(s[i - from]));
            return None;
        }
        let d = cu - 48;
        proof {
            assert(s.take(i + 1 - from).drop_last() =~= s.take(i - from));
            assert(s.take(i + 1 - from).last() == s[i - from]);
        }
        val = val * 10 + d;
        i = i + 1;
    }
    proof {
        assert(s.take(to - from) =~= s);
    }
    if val > 32 {
        return None;
    }
    Some(val as u8)
}

/// Parses a dotted-decimal IPv4 address.
pub fn parse_ipv4(v: &Vec<char>) -> (r: Option<u32>)
    ensures
        r == spec_parse_ipv4(v@),
{
    let n = v.len();
    let d1 = find_char(v, '.', 0);
    proof {
        lemma_find_from(v@, '.', 0);
    }
    if d1 >= n {
        return None;
    }
    let d2 = find_char(v, '.', d1 + 1);
    proof {
        lemma_find_from(v@, '.', d1 + 1);
    }
    if d2 >= n {
        return None;
    }
    let d3 = find_char(v, '.', d2 + 1);
    proof {
        lemma_find_from(v@, '.', d2 + 1);
    }
    if d3 >= n {
        return None;
    }
    let d4 = find_char(v, '.', d3 + 1);
    proof {
        lemma_find_from(v@, '.', d3 + 1);
    }
    if d4 != n {
        return None;
    }
    let a = match parse_octet(v, 0, d1) {
        Some(x) => x,
        None => {
            return None;
        },
    };
    let b = match parse_octet(v, d1 + 1, d2) {
        Some(x) => x,
        None => {
            return None;
        },
    };
    let c = match parse_octet(v, d2 + 1, d3) {
        Some(x) => x,
        None => {
            return None;
        },
    };
    let d = match parse_octet(v, d3 + 1, n) {
        Some(x) => x,
        None => {
            return None;
        },
    };
    Some((a as u32) * 0x1000000 + (b as u32) * 0x10000 + (c as u32) * 0x100 + (d as u32))
}

/// Parses a CIDR block: a dotted-decimal address, one '/', and a prefix
/// length of at most 32.
pub fn parse_cidr(v: &Vec<char>) -> (r: Option<(u32, u8)>)
    ensures
        r == spec_parse_cidr(v@),
{
    let n = v.len();
    let k = find_char(v, '/', 0);
    proof {
        lemma_find_from(v@, '/', 0);
    }
    if k >= n {
        return None;
    }
    let k2 = find_char(v, '/', k + 1);
    proof {
        lemma_find_from(v@, '/', k + 1);
    }
    if k2 != n {
        return None;
    }
    let p = match parse_prefix(v, k + 1, n) {
        Some(x) => x,
        None => {
            return None;
        },
    };
    let ip_part = sub_vec(v, 0, k);
    let ip = match parse_ipv4(&ip_part) {
        Some(x) => x,
        None => {
            return None;
        },
    };
    Some((ip, p))
}

/// `find_from` lands on `k` when `k` holds the character and nothing before
/// it does.
proof fn lemma_find_at(s: Seq<char>, ch: char, from: int, k: int)
    requires
        0 <= from <= k < s.len(),
        s[k] == ch,
        forall|j: int| from <= j < k ==> s[j] != ch,
    ensures
        find_from(s, ch, from) == k,
{
    lemma_find_from(s, ch, from);
    let f = find_from(s, ch, from);
    if f < k {
        assert(s[f] != ch);
    }
    if f > k {
        assert(s[k] != ch);
    }
}

/// `find_from` runs off the end when no character at or after `from` matches.
proof fn lemma_find_none(s: Seq<char>, ch: char, from: int)
    requires
        0 <= from <= s.len(),
        forall|j: int| from <= j < s.len() ==> s[j] != ch,
    ensures
        find_from(s, ch, from) == s.len(),
{
    lemma_find_from(s, ch, from);
    let f = find_from(s, ch, from);
    if f < s.len() {
        assert(s[f] != ch);
    }
}

/// A digit character is neither a dot nor a slash.
proof fn lemma_digit_not_sep(c: char)
    requires
        is_digit(c),
    ensures
        c != '.',
        c != '/',
{
    assert('.' as u32 == 46);
    assert('/' as u32 == 47);
}

/// The digit character for a value below ten.
fn digit_char(d: u8) -> (r: char)
    requires
        d <= 9,
    ensures
        is_digit(r),
        digit_val(r) == d,
        d >= 1 ==> r != '0',
{
    match d {
        0 => '0',
        1 => '1',
        2 => '2',
        3 => '3',
        4 => '4',
        5 => '5',
        6 => '6',
        7 => '7',
        8 => '8',
        _ => '9',
    }
}

/// `dec_val` of a one-character string.
proof fn lemma_dec_val1(c0: char)
    ensures
        dec_val(seq![c0]) == digit_val(c0),
{
    let s = seq![c0];
    assert(s.last() == c0);
    assert(s.drop_last() =~= Seq::<char>::empty());
    assert(dec_val(Seq::<char>::empty()) == 0);
}

/// `dec_val` of a two-character string.
proof fn lemma_dec_val2(c0: char, c1: char)
    ensures
        dec_val(seq![c0, c1]) == digit_val(c0) * 10 + digit_val(c1),
{
    let s = seq![c0, c1];
    assert(s.last() == c1);
    assert(s.drop_last() =~= seq![c0]);
    lemma_dec_val1(c0);
}

/// `dec_val` of a three-character string.
proof fn lemma_dec_val3(c0: char, c1: char, c2: char)
    ensures
        dec_val(seq![c0, c1, c2]) == (digit_val(c0) * 10 + digit_val(c1)) * 10 + digit_val(c2),
{
    let s = seq![c0, c1, c2];
    assert(s.last() == c2);
    assert(s.drop_last() =~= seq![c0, c1]);
    lemma_dec_val2(c0, c1);
}

/// Decimal digits of `b`, most significant first, without leading zeros.
fn format_octet(b: u8) -> (r: Vec<char>)
    ensures
        is_octet_str(r@),
        dec_val(r@) == b,
{
    let mut r: Vec<char> = Vec::new();
    if b >= 100 {
        let c0 = digit_char(b / 100);
        let c1 = digit_char((b / 10) % 10);
        let c2 = digit_char(b % 10);
        r.push(c0);
        r.push(c1);
        r.push(c2);
        proof {
            assert(r@ =~= seq![c0, c1, c2]);
            lemma_dec_val3(c0, c1, c2);
            assert(((b / 100) * 10 + (b / 10) % 10) * 10 + b % 10 == b && b / 100 >= 1) by (bit_vector)
                requires
                    b >= 100,
            ;
        }
    } else if b >= 10 {
        let c0 = digit_char(b / 10);
        let c1 = digit_char(b % 10);
        r.push(c0);
        r.push(c1);
        proof {
            assert(r@ =~= seq![c0, c1]);
            lemma_dec_val2(c0, c1);
            assert((b / 10) * 10 + b % 10 == b && b / 10 >= 1) by (bit_vector)
                requires
                    10 <= b < 100,
            ;
        }
    } else {
        let c0 = digit_char(b);
        r.push(c0);
        proof {
            assert(r@ =~= seq![c0]);
            lemma_dec_val1(c0);
        }
    }
    r
}

/// Dotted-decimal form of `ip`; parsing it gives `ip` back.
pub fn format_ipv4(ip: u32) -> (r: Vec<char>)
    ensures
        spec_parse_ipv4(r@) == Some(ip),
{
    let o1 = (ip >> 24) as u8;
    let o2 = ((ip >> 16) & 0xFF) as u8;
    let o3 = ((ip >> 8) & 0xFF) as u8;
    let o4 = (ip & 0xFF) as u8;
    proof {
        assert(((ip >> 24) & 0xFF) == (ip >> 24) && (ip >> 24) as u8 as u32 * 0x1000000 + ((ip
            >> 16) & 0xFF) as u8 as u32 * 0x10000 + ((ip >> 8) & 0xFF) as u8 as u32 * 0x100 + (ip
            & 0xFF) as u8 as u32 == ip) by (bit_vector);
    }
    let fa = format_octet(o1);
    let fb = format_octet(o2);
    let fc = format_octet(o3);
    let fd = format_octet(o4);
    let mut r: Vec<char> = Vec::new();
    append_chars(&mut r, &fa);
    r.push('.');
    append_chars(&mut r, &fb);
    r.push('.');
    append_chars(&mut r, &fc);
    r.push('.');
    append_chars(&mut r, &fd);
    proof {
        lemma_parse_of_formatted(r@, fa@, fb@, fc@, fd@);
    }
    r
}

/// Appends the characters of `src` to `dst`.
fn append_chars(dst: &mut Vec<char>, src: &Vec<char>)
    ensures
        final(dst)@ == old(dst)@ + src@,
{
    let mut i: usize = 0;
    while i < src.len()
        invariant
            0 <= i <= src@.len(),
            dst@ == old(dst)@ + src@.take(i as int),
        decreases src@.len() - i,
    {
        dst.push(src[i]);
        proof {
            assert(old(dst)@ + src@.take(i + 1) =~= (old(dst)@ + src@.take(i as int)).push(
                src@[i as int],
            ));
        }
        i = i + 1;
    }
    proof {
        assert(src@.take(src@.len() as int) =~= src@);
    }
}

/// Parsing a sequence assembled from four well-formed octets and three dots
/// yields the octets' values.
proof fn lemma_parse_of_formatted(s: Seq<char>, a: Seq<char>, b: Seq<char>, c: Seq<char>, d: Seq<
    char,
>)
    requires
        is_octet_str(a),
        is_octet_str(b),
        is_octet_str(c),
        is_octet_str(d),
        s =~= a + seq!['.'] + b + seq!['.'] + c + seq!['.'] + d,
    ensures
        spec_parse_ipv4(s) == Some(
            (dec_val(a) * 0x1000000 + dec_val(b) * 0x10000 + dec_val(c) * 0x100 + dec_val(
                d,
            )) as u32,
        ),
{
    let la = a.len() as int;
    let lb = b.len() as int;
    let lc = c.len() as int;
    let ld = d.len() as int;
    let p1 = la;
    let p2 = la + 1 + lb;
    let p3 = la + 1 + lb + 1 + lc;
    assert forall|j: int| 0 <= j < s.len() && j != p1 && j != p2 && j != p3 implies s[j]
        != '.' by {
        if j < p1 {
            lemma_digit_not_sep(a[j]);
        } else if j < p2 {
            lemma_digit_not_sep(b[j - p1 - 1]);
        } else if j < p3 {
            lemma_digit_not_sep(c[j - p2 - 1]);
        } else {
            lemma_digit_not_sep(d[j - p3 - 1]);
        }
    }
    lemma_find_at(s, '.', 0, p1);
    lemma_find_at(s, '.', p1 + 1, p2);
    lemma_find_at(s, '.', p2 + 1, p3);
    lemma_find_none(s, '.', p3 + 1);
    assert(s.subrange(0, p1) =~= a);
    assert(s.subrange(p1 + 1, p2) =~= b);
    assert(s.subrange(p2 + 1, p3) =~= c);
    assert(s.subrange(p3 + 1, s.len() as int) =~= d);
}

/// CIDR notation for `ip` with prefix length `prefix`; parsing it gives both
/// back.
pub fn format_cidr(ip: u32, prefix: u8) -> (r: Vec<char>)
    requires
        prefix <= 32,
    ensures
        spec_parse_cidr(r@) == Some((ip, prefix)),
{
    let mut r = format_ipv4(ip);
    let ghost ip_part = r@;
    r.push('/');
    let fp = format_prefix(prefix);
    append_chars(&mut r, &fp);
    proof {
        let s = r@;
        let k = ip_part.len() as int;
        assert forall|j: int| 0 <= j < s.len() && j != k implies s[j] != '/' by {
            if j < k {
                lemma_ipv4_str_no_slash(ip_part, j);
            } else {
                lemma_digit_not_sep(fp@[j - k - 1]);
            }
        }
        lemma_find_at(s, '/', 0, k);
        lemma_find_none(s, '/', k + 1);
        assert(s.subrange(0, k) =~= ip_part);
        assert(s.subrange(k + 1, s.len() as int) =~= fp@);
    }
    r
}

/// A parseable dotted-decimal string holds no slash.
proof fn lemma_ipv4_str_no_slash(s: Seq<char>, j: int)
    requires
        spec_parse_ipv4(s) is Some,
        0 <= j < s.len(),
    ensures
        s[j] != '/',
{
    let p1 = find_from(s, '.', 0);
    let p2 = find_from(s, '.', p1 + 1);
    let p3 = find_from(s, '.', p2 + 1);
    lemma_find_from(s, '.', 0);
    lemma_find_from(s, '.', p1 + 1);
    lemma_find_from(s, '.', p2 + 1);
    assert('.' as u32 == 46);
    if j != p1 && j != p2 && j != p3 {
        if j < p1 {
            lemma_digit_not_sep(s.subrange(0, p1)[j]);
        } else if j < p2 {
            lemma_digit_not_sep(s.subrange(p1 + 1, p2)[j - p1 - 1]);
        } else if j < p3 {
            lemma_digit_not_sep(s.subrange(p2 + 1, p3)[j - p2 - 1]);
        } else {
            lemma_digit_not_sep(s.subrange(p3 + 1, s.len() as int)[j - p3 - 1]);
        }
    }
}

/// Decimal digits of a prefix length.
fn format_prefix(prefix: u8) -> (r: Vec<char>)
    requires
        prefix <= 32,
    ensures
        is_prefix_str(r@),
        dec_val(r@) == prefix,
        all_digits(r@),
{
    let mut r: Vec<char> = Vec::new();
    if prefix >= 10 {
        let c0 = digit_char(prefix / 10);
        let c1 = digit_char(prefix % 10);
        r.push(c0);
        r.push(c1);
        proof {
            assert(r@ =~= seq![c0, c1]);
            lemma_dec_val2(c0, c1);
            assert((prefix / 10) * 10 + prefix % 10 == prefix) by (bit_vector)
                requires
                    10 <= prefix <= 32,
            ;
        }
    } else {
        let c0 = digit_char(prefix);
        r.push(c0);
        proof {
            assert(r@ =~= seq![c0]);
            lemma_dec_val1(c0);
        }
    }
    r
}

/// A character below code point 128 lies in the ASCII range.
proof fn lemma_low_char_ascii(c: char)
    requires
        c as u32 <= 127,
    ensures
        '\0' <= c <= '\u{7f}',
{
    assert('\0' as u32 == 0 && '\u{7f}' as u32 == 127);
}

/// A parseable dotted-decimal string is pure ASCII: every character is a
/// digit or a dot.
pub proof fn lemma_parse_ipv4_ascii(s: Seq<char>)
    requires
        spec_parse_ipv4(s) is Some,
    ensures
        vstd::utf8::is_ascii_chars(s),
{
    let p1 = find_from(s, '.', 0);
    let p2 = find_from(s, '.', p1 + 1);
    let p3 = find_from(s, '.', p2 + 1);
    lemma_find_from(s, '.', 0);
    lemma_find_from(s, '.', p1 + 1);
    lemma_find_from(s, '.', p2 + 1);
    assert forall|j: int| 0 <= j < s.len() implies '\0' <= #[trigger] s[j] <= '\u{7f}' by {
        if j == p1 || j == p2 || j == p3 {
            assert(s[j] == '.');
            assert('.' as u32 == 46);
        } else if j < p1 {
            assert(is_digit(s.subrange(0, p1)[j]));
        } else if j < p2 {
            assert(is_digit(s.subrange(p1 + 1, p2)[j - p1 - 1]));
        } else if j < p3 {
            assert(is_digit(s.subrange(p2 + 1, p3)[j - p2 - 1]));
        } else {
            assert(is_digit(s.subrange(p3 + 1, s.len() as int)[j - p3 - 1]));
        }
        lemma_low_char_ascii(s[j]);
    }
}

/// A parsed CIDR block always carries a prefix length of at most 32.
pub proof fn lemma_parse_cidr_prefix_bound(s: Seq<char>)
    ensures
        match spec_parse_cidr(s) {
            Some((ip, p)) => p <= 32,
            None => true,
        },
{
    let k = find_from(s, '/', 0);
    if k < s.len() && find_from(s, '/', k + 1) == s.len() {
        let p_part = s.subrange(k + 1, s.len() as int);
        if is_prefix_str(p_part) {
            lemma_dec_val_nonneg(p_part);
        }
    }
}

/// A digit string's value is not negative.
pub proof fn lemma_dec_val_nonneg(s: Seq<char>)
    requires
        all_digits(s),
    ensures
        dec_val(s) >= 0,
    decreases s.len(),
{
    if s.len() > 0 {
        assert(all_digits(s.drop_last()));
        lemma_dec_val_nonneg(s.drop_last());
    }
}

/// Network mask of a prefix length: the high `prefix` bits set.
pub open spec fn spec_mask(prefix: u8) -> u32
    recommends
        prefix <= 32,
{
    if prefix == 0 {
        0u32
    } else {
        0xFFFF_FFFFu32 << ((32 - prefix) as u32)
    }
}

/// Number of addresses in a block with the given prefix length.
pub open spec fn spec_block_size(prefix: u8) -> u64
    recommends
        prefix <= 32,
{
    1u64 << ((32 - prefix) as u64)
}

/// Number of hosts a scan dispatches: for a prefix shorter than 31 the
/// network and broadcast addresses are excluded, for /31 and /32 every
/// address counts.
pub open spec fn spec_host_count(prefix: u8) -> u64
    recommends
        prefix <= 32,
{
    if prefix < 31 {
        (spec_block_size(prefix) - 2) as u64
    } else {
        spec_block_size(prefix)
    }
}

/// A block with a prefix shorter than 31 holds at least four addresses.
pub proof fn lemma_block_size_bounds(prefix: u8)
    requires
        prefix <= 32,
    ensures
        1 <= spec_block_size(prefix) <= 0x1_0000_0000,
        prefix < 31 ==> spec_block_size(prefix) >= 4,
{
    let bs = spec_block_size(prefix);
    assert(1 <= (1u64 << ((32 - prefix) as u64)) <= 0x1_0000_0000 && (prefix < 31 ==> (1u64 << ((
    32 - prefix) as u64)) >= 4)) by (bit_vector)
        requires
            prefix <= 32,
    ;
}

/// A base address aligned to its mask leaves room for the whole block below
/// the end of the address space.
pub proof fn lemma_aligned_base_bound(base: u32, prefix: u8)
    requires
        prefix <= 32,
        base & spec_mask(prefix) == base,
    ensures
        base as u64 + spec_block_size(prefix) <= 0x1_0000_0000,
{
    assert(base as u64 + (1u64 << ((32 - prefix) as u64)) <= 0x1_0000_0000) by (bit_vector)
        requires
            prefix <= 32,
            base & (if prefix == 0 {
                0u32
            } else {
                0xFFFF_FFFFu32 << ((32 - prefix) as u32)
            }) == base,
    ;
}

/// The dispatch rule, as a statement about membership in the dispatched
/// list: for a prefix shorter than 31 an address is dispatched exactly when
/// it lies strictly between the network address and the broadcast address;
/// for /31 and /32 exactly when it lies anywhere in the block. The
/// hypotheses are what `host_addresses` ensures of its result.
pub proof fn lemma_dispatched_addresses(base: u32, prefix: u8, r: Seq<u32>, a: u32)
    requires
        prefix <= 32,
        base & spec_mask(prefix) == base,
        r.len() == spec_host_count(prefix),
        prefix < 31 ==> forall|i: int| 0 <= i < r.len() ==> r[i] == base + 1 + i,
        prefix >= 31 ==> forall|i: int| 0 <= i < r.len() ==> r[i] == base + i,
    ensures
        prefix < 31 ==> (r.contains(a) <==> (base < a && a < base + spec_block_size(prefix) - 1)),
        prefix >= 31 ==> (r.contains(a) <==> (base <= a && a < base + spec_block_size(prefix))),
{
    lemma_block_size_bounds(prefix);
    lemma_aligned_base_bound(base, prefix);
    if prefix < 31 {
        if base < a && a < base + spec_block_size(prefix) - 1 {
            let i = a - base - 1;
            assert(r[i] == a);
        }
        if r.contains(a) {
            let i = choose|i: int| 0 <= i < r.len() && r[i] == a;
            assert(r[i] == base + 1 + i);
        }
    } else {
        if base <= a && a < base + spec_block_size(prefix) {
            let i = a - base;
            assert(r[i] == a);
        }
        if r.contains(a) {
            let i = choose|i: int| 0 <= i < r.len() && r[i] == a;
            assert(r[i] == base + i);
        }
    }
}

/// Mask of a prefix length.
pub fn prefix_mask(prefix: u8) -> (r: u32)
    requires
        prefix <= 32,
    ensures
        r == spec_mask(prefix),
{
    if prefix == 0 {
        0
    } else {
        0xFFFF_FFFFu32 << ((32 - prefix) as u32)
    }
}

/// Number of addresses in a block.
pub fn block_size(prefix: u8) -> (r: u64)
    requires
        prefix <= 32,
    ensures
        r == spec_block_size(prefix),
{
    1u64 << ((32 - prefix) as u64)
}

/// Number of hosts a scan of the block dispatches.
pub fn host_count(prefix: u8) -> (r: u64)
    requires
        prefix <= 32,
    ensures
        r == spec_host_count(prefix),
{
    let bs = block_size(prefix);
    if prefix < 31 {
        proof {
            lemma_block_size_bounds(prefix);
        }
        bs - 2
    } else {
        bs
    }
}

/// The addresses a scan of the block dispatches, in ascending order: all of
/// them but the network and broadcast addresses for a prefix shorter than 31,
/// every address for /31 and /32.
pub fn host_addresses(base: u32, prefix: u8) -> (r: Vec<u32>)
    requires
        prefix <= 32,
        base & spec_mask(prefix) == base,
    ensures
        r@.len() == spec_host_count(prefix),
        prefix < 31 ==> forall|i: int| 0 <= i < r@.len() ==> r@[i] == base + 1 + i,
        prefix >= 31 ==> forall|i: int| 0 <= i < r@.len() ==> r@[i] == base + i,
{
    proof {
        lemma_block_size_bounds(prefix);
        lemma_aligned_base_bound(base, prefix);
    }
    let count = host_count(prefix);
    let offset: u64 = if prefix < 31 {
        1
    } else {
        0
    };
    let mut r: Vec<u32> = Vec::new();
    let mut i: u64 = 0;
    while i < count
        invariant
            prefix <= 32,
            count == spec_host_count(prefix),
            offset == (if prefix < 31 {
                1u64
            } else {
                0u64
            }),
            base as u64 + spec_block_size(prefix) <= 0x1_0000_0000,
            offset + count <= spec_block_size(prefix),
            0 <= i <= count,
            r@.len() == i,
            forall|j: int| 0 <= j < r@.len() ==> r@[j] == base + offset + j,
        decreases count - i,
    {
        let addr: u64 = base as u64 + offset + i;
        r.push(addr as u32);
        i = i + 1;
    }
    r
}

} // verus!
