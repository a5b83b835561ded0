//! Small text helpers: turning ASCII strings into character vectors,
//! case folding through the standard library, and substring search.

use vstd::prelude::*;

verus! {

use vstd::string::StringSliceAdditionalSpecFns;

broadcast use vstd::string::is_ascii_spec_bytes;

/// The characters of `s` when `s` is pure ASCII; `None` otherwise.
pub fn ascii_chars(s: &str) -> (r: Option<Vec<char>>)
    ensures
        match r {
            Some(v) => v@ == s@,
            None => !vstd::string::is_ascii(s),
        },
{
    if !s.is_ascii() {
        return None;
    }
    proof {
        vstd::utf8::is_ascii_chars_nat_bound(s@);
    }
    let bytes = s.as_bytes();
    let n = bytes.len();
    let mut v: Vec<char> = Vec::new();
    let mut i: usize = 0;
    while i < n
        invariant
            n == s@.len(),
            bytes@ == s.spec_bytes(),
            vstd::string::is_ascii(s),
            forall|j: int| 0 <= j < s@.len() ==> (s@[j] as nat) < 128,
            forall|j: int| 0 <= j < s@.len() ==> s@[j] as u8 == s.spec_bytes()[j],
            0 <= i <= n,
            v@ == s@.take(i as int),
        decreases n - i,
    {
        let b = bytes[i];
        let c = b as char;
        proof {
            assert(b == s@[i as int] as u8);
            assert(c == s@[i as int]);
        }
        v.push(c);
        proof {
            assert(v@ =~= s@.take(i + 1));
        }
        i = i + 1;
    }
    proof {
        assert(v@ =~= s@);
    }
    Some(v)
}

/// Case-folded form of a character sequence, as the standard library's
/// `str::to_lowercase` computes it. The result depends on the characters
/// alone.
pub uninterp spec fn lower_of(s: Seq<char>) -> Seq<char>;

/// Relies on `str::to_lowercase`: the Unicode-lowercased text, a function of
/// the input characters alone; and on `str::chars` to hand its characters
/// back in order.
#[verifier::external_body]
pub fn lower_chars(s: &str) -> (r: Vec<char>)
    ensures
        r@ == lower_of(s@),
{
    s.to_lowercase().chars().collect()
}

/// `needle` occurs contiguously inside `hay`.
pub open spec fn contains_seq(hay: Seq<char>, needle: Seq<char>) -> bool {
    exists|k: int|
        0 <= k <= hay.len() - needle.len() && #[trigger] hay.subrange(k, k + needle.len() as int)
            == needle
}

/// Whether `needle` occurs contiguously inside `hay`.
pub fn find_seq(hay: &Vec<char>, needle: &Vec<char>) -> (r: bool)
    ensures
        r == contains_seq(hay@, needle@),
{
    let nl = needle.len();
    let hl = hay.len();
    if nl > hl {
        proof {
            assert(!contains_seq(hay@, needle@));
        }
        return false;
    }
    if nl == 0 {
        proof {
            assert(hay@.subrange(0, 0 + needle@.len() as int) =~= needle@);
        }
        return true;
    }
    let end = hl - nl + 1;
    let mut k: usize = 0;
    while k < end
        invariant
            1 <= nl <= hl,
            nl == needle@.len(),
            hl == hay@.len(),
            end == hl - nl + 1,
            0 <= k <= end,
            forall|k0: int|
                0 <= k0 < k ==> #[trigger] hay@.subrange(k0, k0 + needle@.len() as int)
                    != needle@,
        decreases end - k,
    {
        let mut m: usize = 0;
        let mut hit = true;
        while m < nl
            invariant
                nl <= hl,
                nl == needle@.len(),
                hl == hay@.len(),
                0 <= k <= hl - nl,
                end == hl - nl + 1,
                0 <= m <= nl,
                hit ==> forall|j: int| 0 <= j < m ==> hay@[k + j] == needle@[j],
                !hit ==> hay@.subrange(k as int, k + needle@.len() as int) != needle@,
            decreases nl - m,
        {
            if hay[k + m] != needle[m] {
                proof {
                    assert(hay@.subrange(k as int, k + needle@.len() as int)[m as int] != needle@[m as int]);
                }
                hit = false;
                m = nl;
            } else {
                m = m + 1;
            }
        }
        if hit {
            proof {
                assert(hay@.subrange(k as int, k + needle@.len() as int) =~= needle@);
            }
            return true;
        }
        k = k + 1;
    }
    false
}

} // verus!
