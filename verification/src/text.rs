use vstd::prelude::*;
use vstd::string::StrSliceExecFns;
use vstd::string::StringSliceAdditionalSpecFns;
use vstd::utf8::*;

verus! {

broadcast use vstd::utf8::group_utf8_lib;

/// Two strings are equal exactly when their UTF-8 encodings are equal.
pub proof fn lemma_bytes_eq_iff_chars_eq(a: &str, b: &str)
    ensures
        (a.spec_bytes() == b.spec_bytes()) <==> (a@ == b@),
{
    if a.spec_bytes() == b.spec_bytes() {
        assert(decode_utf8(encode_utf8(a@)) == a@);
        assert(decode_utf8(encode_utf8(b@)) == b@);
    }
}

/// String equality, decided byte by byte.
pub fn str_eq(a: &str, b: &str) -> (r: bool)
    ensures
        r == (a@ == b@),
{
    let x = a.as_bytes();
    let y = b.as_bytes();
    proof {
        lemma_bytes_eq_iff_chars_eq(a, b);
    }
    if x.len() != y.len() {
        return false;
    }
    let mut i: usize = 0;
    while i < x.len()
        invariant
            x@ == a.spec_bytes(),
            y@ == b.spec_bytes(),
            x@.len() == y@.len(),
            0 <= i <= x@.len(),
            forall|j: int| 0 <= j < i ==> x@[j] == y@[j],
        decreases x@.len() - i,
    {
        if x[i] != y[i] {
            return false;
        }
        i = i + 1;
    }
    assert(x@ =~= y@);
    true
}


/// The number of `#` bytes at the front of `b`.
pub open spec fn leading_hashes(b: Seq<u8>) -> nat
    decreases b.len(),
{
    if b.len() > 0 && b[0] == 0x23u8 {
        1 + leading_hashes(b.drop_first())
    } else {
        0
    }
}

proof fn lemma_leading_hashes_step(b: Seq<u8>, i: int)
    requires
        0 <= i < b.len(),
        forall|j: int| 0 <= j < i ==> b[j] == 0x23u8,
    ensures
        b[i] != 0x23u8 ==> leading_hashes(b) == i,
        b[i] == 0x23u8 ==> leading_hashes(b) >= i + 1,
    decreases i,
{
    if i > 0 {
        lemma_leading_hashes_step(b.drop_first(), i - 1);
    }
}

proof fn lemma_leading_hashes_all(b: Seq<u8>)
    requires
        forall|j: int| 0 <= j < b.len() ==> b[j] == 0x23u8,
    ensures
        leading_hashes(b) == b.len(),
    decreases b.len(),
{
    if b.len() > 0 {
        lemma_leading_hashes_all(b.drop_first());
    }
}

proof fn lemma_leading_hashes_bound(b: Seq<u8>)
    ensures
        leading_hashes(b) <= b.len(),
        forall|j: int| 0 <= j < leading_hashes(b) ==> b[j] == 0x23u8,
    decreases b.len(),
{
    if b.len() > 0 && b[0] == 0x23u8 {
        lemma_leading_hashes_bound(b.drop_first());
        assert forall|j: int| 0 <= j < leading_hashes(b) implies b[j] == 0x23u8 by {
            if j > 0 {
                assert(b[j] == b.drop_first()[j - 1]);
            }
        }
    }
}

/// Where the text after the leading `#` characters starts, counted in bytes:
/// what `str::trim_start_matches('#')` leaves.
pub fn skip_leading_hashes(b: &[u8]) -> (k: usize)
    ensures
        k == leading_hashes(b@),
        k <= b@.len(),
{
    let mut i: usize = 0;
    while i < b.len()
        invariant
            0 <= i <= b@.len(),
            forall|j: int| 0 <= j < i ==> b@[j] == 0x23u8,
        decreases b@.len() - i,
    {
        if b[i] != 0x23u8 {
            proof {
                lemma_leading_hashes_step(b@, i as int);
            }
            return i;
        }
        i = i + 1;
    }
    proof {
        lemma_leading_hashes_all(b@);
    }
    i
}

/// The value of an ASCII hexadecimal digit, as `char::to_digit(16)` gives it.
pub open spec fn hex_digit(c: u8) -> Option<nat> {
    if 0x30 <= c <= 0x39 {
        Some((c - 0x30) as nat)
    } else if 0x61 <= c <= 0x66 {
        Some((c - 0x61 + 10) as nat)
    } else if 0x41 <= c <= 0x46 {
        Some((c - 0x41 + 10) as nat)
    } else {
        None
    }
}

/// The number that a string of hexadecimal digits denotes; `None` if some byte
/// is not a digit. The empty string denotes 0.
pub open spec fn hex_digits_value(d: Seq<u8>) -> Option<nat>
    decreases d.len(),
{
    if d.len() == 0 {
        Some(0)
    } else {
        match (hex_digits_value(d.drop_last()), hex_digit(d.last())) {
            (Some(v), Some(x)) => Some(16 * v + x),
            _ => None,
        }
    }
}

/// What `from_str_radix(text, 16)` gives for an unsigned type whose largest
/// value is `max`: an optional `+`, then at least one hexadecimal digit, and a
/// value that fits.
pub open spec fn parse_radix16(b: Seq<u8>, max: nat) -> Option<nat> {
    if b.len() == 0 {
        None
    } else if b.len() == 1 && (b[0] == 0x2bu8 || b[0] == 0x2du8) {
        None
    } else {
        let digits = if b[0] == 0x2bu8 { b.drop_first() } else { b };
        match hex_digits_value(digits) {
            Some(v) => if v <= max { Some(v) } else { None },
            None => None,
        }
    }
}

proof fn lemma_hex_prefix_le(d: Seq<u8>, i: int)
    requires
        0 <= i <= d.len(),
        hex_digits_value(d) is Some,
    ensures
        hex_digits_value(d.take(i)) is Some,
        hex_digits_value(d.take(i))->0 <= hex_digits_value(d)->0,
    decreases d.len(),
{
    if i == d.len() {
        assert(d.take(i) =~= d);
    } else {
        assert(d.drop_last().take(i) =~= d.take(i));
        lemma_hex_prefix_le(d.drop_last(), i);
    }
}

fn hex_digit_exec(c: u8) -> (r: Option<u64>)
    ensures
        match hex_digit(c) {
            Some(v) => r == Some(v as u64),
            None => r is None,
        },
{
    if 0x30 <= c && c <= 0x39 {
        Some((c - 0x30) as u64)
    } else if 0x61 <= c && c <= 0x66 {
        Some((c - 0x61 + 10) as u64)
    } else if 0x41 <= c && c <= 0x46 {
        Some((c - 0x41 + 10) as u64)
    } else {
        None
    }
}

/// Parses `b[start..end]` as `from_str_radix(.., 16)` does for an unsigned
/// type whose largest value is `max`.
pub fn parse_radix16_exec(b: &[u8], start: usize, end: usize, max: u64) -> (r: Option<u64>)
    requires
        start <= end <= b@.len(),
        max <= u32::MAX,
    ensures
        match parse_radix16(b@.subrange(start as int, end as int), max as nat) {
            Some(v) => r == Some(v as u64),
            None => r is None,
        },
{
    let ghost s = b@.subrange(start as int, end as int);
    if start == end {
        return None;
    }
    if end - start == 1 && (b[start] == 0x2b || b[start] == 0x2d) {
        return None;
    }
    let first: usize = if b[start] == 0x2b { start + 1 } else { start };
    let ghost digits = b@.subrange(first as int, end as int);
    assert(digits =~= (if s[0] == 0x2bu8 { s.drop_first() } else { s }));
    let mut v: u64 = 0;
    let mut i: usize = first;
    while i < end
        invariant
            first <= i <= end <= b@.len(),
            digits == b@.subrange(first as int, end as int),
            s == b@.subrange(start as int, end as int),
            s.len() >= 1,
            !(s.len() == 1 && (s[0] == 0x2bu8 || s[0] == 0x2du8)),
            digits == (if s[0] == 0x2bu8 { s.drop_first() } else { s }),
            v <= max,
            max <= u32::MAX,
            hex_digits_value(digits.take(i - first)) == Some(v as nat),
        decreases end - i,
    {
        let ghost k = (i - first) as int;
        assert(digits.take(k + 1).drop_last() =~= digits.take(k));
        assert(digits.take(k + 1).last() == b@[i as int]);
        match hex_digit_exec(b[i]) {
            None => {
                proof {
                    assert(hex_digits_value(digits.take(k + 1)) is None);
                    if hex_digits_value(digits) is Some {
                        lemma_hex_prefix_le(digits, k + 1);
                    }
                }
                return None;
            },
            Some(x) => {
                let nv = v * 16 + x;
                if nv > max {
                    proof {
                        assert(hex_digits_value(digits.take(k + 1)) == Some(nv as nat));
                        if hex_digits_value(digits) is Some {
                            lemma_hex_prefix_le(digits, k + 1);
                        }
                    }
                    return None;
                }
                v = nv;
            },
        }
        i = i + 1;
    }
    assert(digits.take(end - first) =~= digits);
    Some(v)
}


/// Unicode's `White_Space` property, which is what `char::is_whitespace` tests.
pub open spec fn is_whitespace(c: char) -> bool {
    let u = c as u32;
    ||| u == 0x20
    ||| 0x09 <= u <= 0x0d
    ||| u == 0x85
    ||| u == 0xa0
    ||| u == 0x1680
    ||| 0x2000 <= u <= 0x200a
    ||| u == 0x2028
    ||| u == 0x2029
    ||| u == 0x202f
    ||| u == 0x205f
    ||| u == 0x3000
}

pub fn is_whitespace_exec(c: char) -> (r: bool)
    ensures
        r == is_whitespace(c),
{
    let u = c as u32;
    u == 0x20 || (0x09 <= u && u <= 0x0d) || u == 0x85 || u == 0xa0 || u == 0x1680 || (0x2000 <= u
        && u <= 0x200a) || u == 0x2028 || u == 0x2029 || u == 0x202f || u == 0x205f || u == 0x3000
}

/// How many characters at the front of `s` are not whitespace.
pub open spec fn word_len(s: Seq<char>) -> nat
    decreases s.len(),
{
    if s.len() == 0 || is_whitespace(s[0]) {
        0
    } else {
        1 + word_len(s.drop_first())
    }
}

/// The words of `s`: its maximal runs of non-whitespace characters, in
/// order, as `str::split_whitespace` yields them.
pub open spec fn split_words(s: Seq<char>) -> Seq<Seq<char>>
    decreases s.len(),
{
    if s.len() == 0 {
        seq![]
    } else if is_whitespace(s[0]) {
        split_words(s.drop_first())
    } else {
        let n = word_len(s);
        proof {
            lemma_word_len_bound(s);
        }
        if n == 0 {
            seq![]
        } else {
            seq![s.take(n as int)] + split_words(s.skip(n as int))
        }
    }
}

pub proof fn lemma_word_len_bound(s: Seq<char>)
    ensures
        word_len(s) <= s.len(),
    decreases s.len(),
{
    if s.len() > 0 && !is_whitespace(s[0]) {
        lemma_word_len_bound(s.drop_first());
    }
}

proof fn lemma_word_len(s: Seq<char>, n: int)
    requires
        0 <= n <= s.len(),
        forall|j: int| 0 <= j < n ==> !is_whitespace(#[trigger] s[j]),
        n == s.len() || is_whitespace(s[n]),
    ensures
        word_len(s) == n,
    decreases n,
{
    if n > 0 {
        lemma_word_len(s.drop_first(), n - 1);
    }
}

/// The whitespace-separated words of `s`, each as a `String`.
pub fn split_whitespace(s: &str) -> (words: Vec<String>)
    ensures
        words@.map_values(|w: String| w@) == split_words(s@),
{
    let n = s.unicode_len();
    let mut words: Vec<String> = Vec::new();
    let mut i: usize = 0;
    assert(s@.skip(0) =~= s@);
    while i < n
        invariant
            n == s@.len(),
            0 <= i <= n,
            words@.map_values(|w: String| w@) + split_words(s@.skip(i as int)) == split_words(s@),
        decreases n - i,
    {
        let c = s.get_char(i);
        if is_whitespace_exec(c) {
            assert(s@.skip(i as int).drop_first() =~= s@.skip(i as int + 1));
            i = i + 1;
        } else {
            let mut j: usize = i + 1;
            while j < n && !is_whitespace_exec(s.get_char(j))
                invariant
                    n == s@.len(),
                    i < j <= n,
                    forall|k: int| i <= k < j ==> !is_whitespace(#[trigger] s@[k]),
                decreases n - j,
            {
                j = j + 1;
            }
            let ghost rest = s@.skip(i as int);
            proof {
                assert forall|k: int| 0 <= k < j - i implies !is_whitespace(#[trigger] rest[k]) by {
                    assert(rest[k] == s@[i + k]);
                }
                lemma_word_len(rest, j - i);
                assert(rest.take(j - i) =~= s@.subrange(i as int, j as int));
                assert(rest.skip(j - i) =~= s@.skip(j as int));
            }
            let w = s.substring_char(i, j).to_owned();
            let ghost before = words@.map_values(|w: String| w@);
            words.push(w);
            assert(words@.map_values(|w: String| w@) =~= before.push(w@));
            assert(before.push(w@) + split_words(s@.skip(j as int)) =~= before + split_words(rest));
            i = j;
        }
    }
    assert(s@.skip(n as int) =~= Seq::<char>::empty());
    assert(words@.map_values(|w: String| w@) + split_words(s@.skip(n as int)) =~= words@.map_values(|w: String| w@));
    words
}

} // verus!
