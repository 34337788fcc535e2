//! Character-level text helpers shared by the rest of the library.

use vstd::prelude::*;
use vstd::string::*;
use crate::inventory::{is_first_index, first_index, lemma_first_index_unique};

verus! {

/// Equality of two string slices, as `==` on `str` decides it.
pub assume_specification[ <str as PartialEq>::eq ](a: &str, b: &str) -> (r: bool)
    ensures
        r == (a@ == b@),
;

/// The characters of `s`, in order.
pub fn chars_of(s: &str) -> (v: Vec<char>)
    ensures
        v@ == s@,
{
    let mut v: Vec<char> = Vec::new();
    for c in it: s.chars()
        invariant
            it.seq() == s@,
            v@ == s@.take(it.index() as int),
    {
        v.push(c);
        assert(v@ =~= s@.take(it.index() + 1));
    }
    assert(s@.take(s@.len() as int) =~= s@);
    v
}

/// The string made of the characters of `v`, in order.
///
/// Trusted: collecting characters into a `String` keeps them as they are.
#[verifier::external_body]
pub fn string_of(v: &[char]) -> (s: String)
    ensures
        s@ == v@,
{
    v.iter().collect()
}

} // verus!

verus! {

broadcast use vstd::seq_lib::group_seq_properties;

/// Appends one character to a string.
///
/// Trusted: `String::push` appends the character at the end.
#[verifier::external_body]
pub fn push_char(s: &mut String, c: char)
    ensures
        final(s)@ == old(s)@.push(c),
{
    s.push(c);
}

/// Appends the characters of `v` to a string.
pub fn push_chars(s: &mut String, v: &[char])
    ensures
        final(s)@ == old(s)@ + v@,
{
    let t = string_of(v);
    s.append(t.as_str());
}

/// The Unicode `White_Space` characters: what `char::is_whitespace` accepts.
pub open spec fn is_whitespace(c: char) -> bool {
    let u = c as u32;
    (0x09 <= u && u <= 0x0d) || u == 0x20 || u == 0x85 || u == 0xa0 || u == 0x1680 || (0x2000 <= u
        && u <= 0x200a) || u == 0x2028 || u == 0x2029 || u == 0x202f || u == 0x205f || u == 0x3000
}

/// Whether `c` is a Unicode `White_Space` character.
pub fn char_is_whitespace(c: char) -> (r: bool)
    ensures
        r == is_whitespace(c),
{
    let u = c as u32;
    (0x09 <= u && u <= 0x0d) || u == 0x20 || u == 0x85 || u == 0xa0 || u == 0x1680 || (0x2000 <= u
        && u <= 0x200a) || u == 0x2028 || u == 0x2029 || u == 0x202f || u == 0x205f || u == 0x3000
}

/// `s` without its leading whitespace.
pub open spec fn trim_start(s: Seq<char>) -> Seq<char>
    decreases s.len(),
{
    if s.len() > 0 && is_whitespace(s[0]) {
        trim_start(s.drop_first())
    } else {
        s
    }
}

/// `s` without its trailing whitespace.
pub open spec fn trim_end(s: Seq<char>) -> Seq<char>
    decreases s.len(),
{
    if s.len() > 0 && is_whitespace(s.last()) {
        trim_end(s.drop_last())
    } else {
        s
    }
}

/// `s` without leading and trailing whitespace, as `str::trim` gives it.
pub open spec fn trim(s: Seq<char>) -> Seq<char> {
    trim_end(trim_start(s))
}

/// The index of the first character of `v` that is not whitespace (`v.len()` if none).
pub fn trim_start_index(v: &[char]) -> (i: usize)
    ensures
        i <= v.len(),
        trim_start(v@) == v@.subrange(i as int, v.len() as int),
{
    let mut i: usize = 0;
    assert(v@.subrange(0, v.len() as int) =~= v@);
    while i < v.len() && char_is_whitespace(v[i])
        invariant
            i <= v.len(),
            trim_start(v@) == trim_start(v@.subrange(i as int, v.len() as int)),
        decreases v.len() - i,
    {
        assert(v@.subrange(i as int, v.len() as int).drop_first() =~= v@.subrange(i + 1, v.len() as int));
        i += 1;
    }
    i
}

/// One past the index of the last character of `v[from..]` that is not whitespace (`from` if none).
pub fn trim_end_index(v: &[char], from: usize) -> (j: usize)
    requires
        from <= v.len(),
    ensures
        from <= j <= v.len(),
        trim_end(v@.subrange(from as int, v.len() as int)) == v@.subrange(from as int, j as int),
{
    let mut j: usize = v.len();
    while j > from && char_is_whitespace(v[j - 1])
        invariant
            from <= j <= v.len(),
            trim_end(v@.subrange(from as int, v.len() as int)) == trim_end(v@.subrange(from as int, j as int)),
        decreases j,
    {
        assert(v@.subrange(from as int, j as int).drop_last() =~= v@.subrange(from as int, j - 1));
        j -= 1;
    }
    j
}

/// The characters of `v[from..to]`.
pub fn slice_chars(v: &[char], from: usize, to: usize) -> (r: Vec<char>)
    requires
        from <= to <= v.len(),
    ensures
        r@ == v@.subrange(from as int, to as int),
{
    let mut r: Vec<char> = Vec::new();
    let mut i = from;
    while i < to
        invariant
            from <= i <= to,
            to <= v.len(),
            r@ == v@.subrange(from as int, i as int),
        decreases to - i,
    {
        r.push(v[i]);
        assert(r@ =~= v@.subrange(from as int, i + 1));
        i += 1;
    }
    r
}

/// `v` without leading and trailing whitespace.
pub fn trim_chars(v: &[char]) -> (r: Vec<char>)
    ensures
        r@ == trim(v@),
{
    let i = trim_start_index(v);
    let j = trim_end_index(v, i);
    slice_chars(v, i, j)
}

/// `v` without leading whitespace.
pub fn trim_start_chars(v: &[char]) -> (r: Vec<char>)
    ensures
        r@ == trim_start(v@),
{
    let i = trim_start_index(v);
    slice_chars(v, i, v.len())
}

/// The number of bytes of a character in UTF-8.
pub open spec fn utf8_width(c: char) -> nat {
    let u = c as u32;
    if u < 0x80 {
        1
    } else if u < 0x800 {
        2
    } else if u < 0x10000 {
        3
    } else {
        4
    }
}

/// The number of bytes of a text in UTF-8: what `str::len` returns.
pub open spec fn utf8_len(s: Seq<char>) -> nat
    decreases s.len(),
{
    if s.len() == 0 {
        0
    } else {
        utf8_len(s.drop_last()) + utf8_width(s.last())
    }
}

/// The number of bytes of `c` in UTF-8.
pub fn char_utf8_width(c: char) -> (w: usize)
    ensures
        w == utf8_width(c),
{
    let u = c as u32;
    if u < 0x80 {
        1
    } else if u < 0x800 {
        2
    } else if u < 0x10000 {
        3
    } else {
        4
    }
}

/// A prefix is never longer in UTF-8 than the whole.
pub proof fn lemma_utf8_len_prefix(s: Seq<char>, i: int)
    requires
        0 <= i <= s.len(),
    ensures
        utf8_len(s.take(i)) <= utf8_len(s),
    decreases s.len() - i,
{
    if i < s.len() {
        assert(s.take(i + 1).drop_last() =~= s.take(i));
        lemma_utf8_len_prefix(s, i + 1);
    } else {
        assert(s.take(i) =~= s);
    }
}

/// The number of characters whose UTF-8 bytes fill exactly `bytes` bytes at the
/// start of `v`, if the bytes end on a character boundary; the count of
/// characters of `v` when `v` is shorter.
pub fn char_count_for_bytes(v: &[char], bytes: usize) -> (r: Option<usize>)
    ensures
        match r {
            Some(n) => n <= v.len() && (utf8_len(v@.take(n as int)) == bytes || (n == v.len() && utf8_len(v@) <= bytes)),
            None => forall|n: int| 0 <= n <= v.len() ==> utf8_len(#[trigger] v@.take(n)) != bytes,
        },
        match r {
            Some(n) => utf8_len(v@.take(n as int)) == bytes || utf8_len(v@) < bytes,
            None => true,
        },
{
    let mut n: usize = 0;
    let mut acc: usize = 0;
    let mut over = false;
    assert(v@.take(0) =~= Seq::<char>::empty());
    while n < v.len() && acc < bytes && !over
        invariant
            n <= v.len(),
            acc <= bytes,
            !over ==> acc == utf8_len(v@.take(n as int)),
            over ==> utf8_len(v@.take(n as int)) > bytes,
            forall|m: int| 0 <= m < n ==> utf8_len(#[trigger] v@.take(m)) < bytes,
        decreases v.len() - n,
    {
        assert(v@.take(n + 1).drop_last() =~= v@.take(n as int));
        let w = char_utf8_width(v[n]);
        if w > bytes - acc {
            over = true;
        } else {
            acc = acc + w;
        }
        n += 1;
    }
    if over {
        proof {
            assert forall|m: int| 0 <= m <= v.len() implies utf8_len(#[trigger] v@.take(m)) != bytes by {
                if m >= n {
                    lemma_utf8_len_prefix(v@.take(m), n as int);
                    assert(v@.take(m).take(n as int) =~= v@.take(n as int));
                }
            }
        }
        None
    } else if acc == bytes {
        Some(n)
    } else {
        assert(v@.take(n as int) =~= v@);
        Some(n)
    }
}

/// The index of the last occurrence of `c` in `v`, if any.
pub fn rfind_char(v: &[char], c: char) -> (r: Option<usize>)
    ensures
        match r {
            Some(i) => i < v.len() && v@[i as int] == c && forall|j: int| i < j < v.len() ==> v@[j] != c,
            None => !v@.contains(c),
        },
{
    let mut i: usize = v.len();
    while i > 0
        invariant
            i <= v.len(),
            forall|j: int| i <= j < v.len() ==> v@[j] != c,
        decreases i,
    {
        if v[i - 1] == c {
            return Some(i - 1);
        }
        i -= 1;
    }
    None
}

} // verus!

verus! {

/// Longer prefixes are longer in UTF-8.
pub proof fn lemma_utf8_len_strictly_increasing(s: Seq<char>, m: int, n: int)
    requires
        0 <= m < n <= s.len(),
    ensures
        utf8_len(s.take(m)) < utf8_len(s.take(n)),
    decreases n - m,
{
    assert(s.take(n).drop_last() =~= s.take(n - 1));
    if m < n - 1 {
        lemma_utf8_len_strictly_increasing(s, m, n - 1);
    }
}

/// The number of characters of `s` whose UTF-8 encoding takes exactly `bytes`
/// bytes (meaningful when there is such a prefix).
pub open spec fn chars_in_bytes(s: Seq<char>, bytes: nat) -> int {
    choose|n: int| 0 <= n <= s.len() && utf8_len(s.take(n)) == bytes
}

pub proof fn lemma_chars_in_bytes(s: Seq<char>, bytes: nat, n: int)
    requires
        0 <= n <= s.len(),
        utf8_len(s.take(n)) == bytes,
    ensures
        chars_in_bytes(s, bytes) == n,
{
    let k = chars_in_bytes(s, bytes);
    if k < n {
        lemma_utf8_len_strictly_increasing(s, k, n);
    } else if n < k {
        lemma_utf8_len_strictly_increasing(s, n, k);
    }
}

/// The index of the last `c` in `s` (meaningful when `s` contains `c`).
pub open spec fn last_index_of(s: Seq<char>, c: char) -> int {
    choose|i: int| 0 <= i < s.len() && s[i] == c && forall|j: int| i < j < s.len() ==> s[j] != c
}

pub proof fn lemma_last_index_of(s: Seq<char>, c: char, i: int)
    requires
        0 <= i < s.len(),
        s[i] == c,
        forall|j: int| i < j < s.len() ==> s[j] != c,
    ensures
        last_index_of(s, c) == i,
{
    let k = last_index_of(s, c);
    if k < i {
        assert(s[i] == c);
    } else if i < k {
        assert(s[k] == c);
    }
}

/// `text` cut for a one-line summary: whole when it takes at most `max` bytes;
/// otherwise cut at the last space within its first `cut` bytes (or at `cut`
/// bytes when there is none there) and marked with `...`.
pub open spec fn shortened(text: Seq<char>, max: nat, cut: nat) -> Seq<char> {
    if utf8_len(text) <= max {
        text
    } else {
        let short = text.take(chars_in_bytes(text, cut));
        let end = if short.contains(' ') { last_index_of(short, ' ') } else { short.len() as int };
        text.take(end) + "..."@
    }
}

/// The panic-free cases of `shortened`: the text fits, or its first `cut`
/// bytes end on a character boundary.
pub open spec fn can_shorten(text: Seq<char>, max: nat, cut: nat) -> bool {
    utf8_len(text) <= max || exists|n: int| 0 <= n <= text.len() && utf8_len(#[trigger] text.take(n)) == cut
}

/// Cuts a text for a one-line summary, as `shortened` describes.
pub fn shorten(text: &[char], max: usize, cut: usize) -> (r: Vec<char>)
    requires
        cut < max,
        can_shorten(text@, max as nat, cut as nat),
    ensures
        r@ == shortened(text@, max as nat, cut as nat),
{
    if utf8_len_at_most(text, max) {
        assert(text@.take(text.len() as int) =~= text@);
        return slice_chars(text, 0, text.len());
    }
    let n = match char_count_for_bytes(text, cut) {
        Some(n) => n,
        None => {
            proof {
                assert(false);
            }
            0
        },
    };
    proof {
        if utf8_len(text@.take(n as int)) != cut as nat {
            assert(text@.take(n as int) =~= text@);
        }
        lemma_chars_in_bytes(text@, cut as nat, n as int);
    }
    let short = slice_chars(text, 0, n);
    assert(short@ =~= text@.take(n as int));
    let end = match rfind_char(short.as_slice(), ' ') {
        Some(p) => {
            proof {
                lemma_last_index_of(short@, ' ', p as int);
            }
            p
        },
        None => n,
    };
    let mut r = slice_chars(text, 0, end);
    r.push('.');
    r.push('.');
    r.push('.');
    proof {
        reveal_strlit("...");
    }
    assert(r@ =~= text@.take(end as int) + "..."@);
    r
}

} // verus!

verus! {

/// `c` with `A`..`Z` mapped to `a`..`z`.
pub open spec fn ascii_lower(c: char) -> char {
    if 'A' <= c && c <= 'Z' {
        ((c as u32) + 32) as char
    } else {
        c
    }
}

/// Equality up to ASCII case, as `str::eq_ignore_ascii_case` decides it.
pub open spec fn eq_ignore_ascii_case(a: Seq<char>, b: Seq<char>) -> bool {
    a.len() == b.len() && forall|i: int| 0 <= i < a.len() ==> ascii_lower(#[trigger] a[i]) == ascii_lower(b[i])
}

fn ascii_lower_exec(c: char) -> (r: char)
    ensures
        r == ascii_lower(c),
{
    if 'A' <= c && c <= 'Z' {
        let b = (c as u8) + 32;
        b as char
    } else {
        c
    }
}

/// Whether two strings are equal up to ASCII case.
pub fn str_eq_ignore_ascii_case(a: &str, b: &str) -> (r: bool)
    ensures
        r == eq_ignore_ascii_case(a@, b@),
{
    let x = chars_of(a);
    let y = chars_of(b);
    if x.len() != y.len() {
        return false;
    }
    let mut i: usize = 0;
    while i < x.len()
        invariant
            i <= x.len(),
            x.len() == y.len(),
            x@ == a@,
            y@ == b@,
            forall|j: int| 0 <= j < i ==> ascii_lower(#[trigger] x@[j]) == ascii_lower(y@[j]),
        decreases x.len() - i,
    {
        if ascii_lower_exec(x[i]) != ascii_lower_exec(y[i]) {
            return false;
        }
        i += 1;
    }
    true
}

/// `needle` occurs in `hay` starting at `i`.
pub open spec fn occurs_at(hay: Seq<char>, needle: Seq<char>, i: int) -> bool {
    0 <= i && i + needle.len() <= hay.len() && hay.subrange(i, i + needle.len()) == needle
}

/// `needle` occurs somewhere in `hay`, as `str::contains` decides it.
pub open spec fn contains_seq(hay: Seq<char>, needle: Seq<char>) -> bool {
    exists|i: int| occurs_at(hay, needle, i)
}

/// The index of the first occurrence of `needle` in `hay` (meaningful when there is one).
pub open spec fn find_seq(hay: Seq<char>, needle: Seq<char>) -> int {
    choose|i: int| occurs_at(hay, needle, i) && forall|j: int| 0 <= j < i ==> !occurs_at(hay, needle, j)
}

fn occurs_at_exec(hay: &[char], needle: &[char], i: usize) -> (r: bool)
    ensures
        r == occurs_at(hay@, needle@, i as int),
{
    if i > hay.len() || needle.len() > hay.len() - i {
        return false;
    }
    let mut k: usize = 0;
    while k < needle.len()
        invariant
            k <= needle.len(),
            i + needle.len() <= hay.len(),
            forall|j: int| 0 <= j < k ==> hay@[i + j] == needle@[j],
        decreases needle.len() - k,
    {
        if hay[i + k] != needle[k] {
            assert(hay@.subrange(i as int, i + needle.len())[k as int] != needle@[k as int]);
            return false;
        }
        k += 1;
    }
    assert(hay@.subrange(i as int, i + needle.len()) =~= needle@);
    true
}

/// The index of the first occurrence of `needle` in `hay`, if any.
pub fn find_chars(hay: &[char], needle: &[char]) -> (r: Option<usize>)
    ensures
        match r {
            Some(i) => occurs_at(hay@, needle@, i as int) && find_seq(hay@, needle@) == i,
            None => !contains_seq(hay@, needle@),
        },
{
    let mut i: usize = 0;
    loop
        invariant
            i <= hay.len(),
            forall|j: int| 0 <= j < i ==> !occurs_at(hay@, needle@, j),
        decreases hay.len() - i,
    {
        if occurs_at_exec(hay, needle, i) {
            proof {
                let k = find_seq(hay@, needle@);
                assert(occurs_at(hay@, needle@, k) && forall|j: int| 0 <= j < k ==> !occurs_at(hay@, needle@, j));
                if k < i {
                    assert(!occurs_at(hay@, needle@, k));
                } else if i < k {
                    assert(occurs_at(hay@, needle@, i as int));
                }
            }
            return Some(i);
        }
        if i == hay.len() {
            proof {
                assert forall|j: int| !occurs_at(hay@, needle@, j) by {
                    if 0 <= j <= i {
                    }
                }
            }
            return None;
        }
        i += 1;
    }
}

/// Whether `needle` occurs in `hay`.
pub fn contains_chars(hay: &[char], needle: &[char]) -> (r: bool)
    ensures
        r == contains_seq(hay@, needle@),
{
    find_chars(hay, needle).is_some()
}

/// What `str::to_lowercase` makes of a text (Unicode lowercase mapping).
pub uninterp spec fn lowercase(s: Seq<char>) -> Seq<char>;

/// The text in lowercase.
///
/// Trusted: calls `str::to_lowercase`; the contract only names the result, a
/// function of the text alone.
#[verifier::external_body]
pub fn to_lowercase(s: &str) -> (r: String)
    ensures
        r@ == lowercase(s@),
{
    s.to_lowercase()
}

} // verus!

verus! {

/// `s` begins with `p`.
pub open spec fn starts_with(s: Seq<char>, p: Seq<char>) -> bool {
    p.len() <= s.len() && s.take(p.len() as int) == p
}

/// Whether `v` begins with `p`.
pub fn starts_with_chars(v: &[char], p: &[char]) -> (r: bool)
    ensures
        r == starts_with(v@, p@),
{
    if p.len() > v.len() {
        return false;
    }
    let mut i: usize = 0;
    while i < p.len()
        invariant
            i <= p.len(),
            p.len() <= v.len(),
            forall|j: int| 0 <= j < i ==> v@[j] == p@[j],
        decreases p.len() - i,
    {
        if v[i] != p[i] {
            assert(v@.take(p.len() as int)[i as int] != p@[i as int]);
            return false;
        }
        i += 1;
    }
    assert(v@.take(p.len() as int) =~= p@);
    true
}

/// `s` without leading `c` characters.
pub open spec fn trim_start_char(s: Seq<char>, c: char) -> Seq<char>
    decreases s.len(),
{
    if s.len() > 0 && s[0] == c {
        trim_start_char(s.drop_first(), c)
    } else {
        s
    }
}

/// `s` without trailing `c` characters.
pub open spec fn trim_end_char(s: Seq<char>, c: char) -> Seq<char>
    decreases s.len(),
{
    if s.len() > 0 && s.last() == c {
        trim_end_char(s.drop_last(), c)
    } else {
        s
    }
}

/// `s` without leading and trailing `c`, as `str::trim_matches(c)` gives it.
pub open spec fn trim_matches(s: Seq<char>, c: char) -> Seq<char> {
    trim_end_char(trim_start_char(s, c), c)
}

/// `v` without leading and trailing `c`.
pub fn trim_matches_chars(v: &[char], c: char) -> (r: Vec<char>)
    ensures
        r@ == trim_matches(v@, c),
{
    let mut i: usize = 0;
    assert(v@.subrange(0, v.len() as int) =~= v@);
    while i < v.len() && v[i] == c
        invariant
            i <= v.len(),
            trim_start_char(v@, c) == trim_start_char(v@.subrange(i as int, v.len() as int), c),
        decreases v.len() - i,
    {
        assert(v@.subrange(i as int, v.len() as int).drop_first() =~= v@.subrange(i + 1, v.len() as int));
        i += 1;
    }
    let mut j: usize = v.len();
    while j > i && v[j - 1] == c
        invariant
            i <= j <= v.len(),
            trim_end_char(v@.subrange(i as int, v.len() as int), c) == trim_end_char(v@.subrange(i as int, j as int), c),
        decreases j,
    {
        assert(v@.subrange(i as int, j as int).drop_last() =~= v@.subrange(i as int, j - 1));
        j -= 1;
    }
    slice_chars(v, i, j)
}

/// `s` with every non-overlapping occurrence of `pat` (searched left to right)
/// replaced by `rep`, as `str::replace` does for a non-empty pattern.
#[verifier::opaque]
pub open spec fn replace_all(s: Seq<char>, pat: Seq<char>, rep: Seq<char>) -> Seq<char>
    decreases s.len(),
{
    if pat.len() > 0 && contains_seq(s, pat) {
        let i = find_seq(s, pat);
        if 0 <= i && i + pat.len() <= s.len() {
            s.take(i) + rep + replace_all(s.skip(i + pat.len()), pat, rep)
        } else {
            s
        }
    } else {
        s
    }
}

/// Appends the characters of `src` to `out`.
pub fn extend_chars(out: &mut Vec<char>, src: &[char])
    ensures
        final(out)@ == old(out)@ + src@,
{
    let mut k: usize = 0;
    while k < src.len()
        invariant
            k <= src.len(),
            out@ == old(out)@ + src@.take(k as int),
        decreases src.len() - k,
    {
        out.push(src[k]);
        assert(out@ =~= old(out)@ + src@.take(k + 1));
        k += 1;
    }
    assert(src@.take(src.len() as int) =~= src@);
}

proof fn lemma_replace_all_found(s: Seq<char>, pat: Seq<char>, rep: Seq<char>, i: int)
    requires
        pat.len() > 0,
        occurs_at(s, pat, i),
        find_seq(s, pat) == i,
    ensures
        replace_all(s, pat, rep) == s.take(i) + rep + replace_all(s.skip(i + pat.len()), pat, rep),
{
    reveal(replace_all);
}

proof fn lemma_replace_all_absent(s: Seq<char>, pat: Seq<char>, rep: Seq<char>)
    requires
        !contains_seq(s, pat),
    ensures
        replace_all(s, pat, rep) == s,
{
    reveal(replace_all);
}

/// One step of `replace_chars`: moves the text in front of the first match to
/// `out`, then `rep`, and gives back what follows the match.
fn replace_first(out: &mut Vec<char>, rest: &[char], i: usize, pat: &[char], rep: &[char]) -> (after: Vec<char>)
    requires
        pat.len() > 0,
        occurs_at(rest@, pat@, i as int),
        find_seq(rest@, pat@) == i,
    ensures
        after@.len() < rest@.len(),
        final(out)@ + replace_all(after@, pat@, rep@) == old(out)@ + replace_all(rest@, pat@, rep@),
{
    proof {
        lemma_replace_all_found(rest@, pat@, rep@, i as int);
    }
    let n = rest.len();
    let end: usize = i + pat.len();
    let before = slice_chars(rest, 0, i);
    let after = slice_chars(rest, end, n);
    let ghost o0 = out@;
    extend_chars(out, before.as_slice());
    extend_chars(out, rep);
    assert(before@ =~= rest@.take(i as int));
    assert(after@ =~= rest@.skip(i + pat@.len()));
    assert(o0 + rest@.take(i as int) + rep@ + replace_all(after@, pat@, rep@) =~= o0 + (rest@.take(i as int) + rep@ + replace_all(after@, pat@, rep@)));
    after
}

/// Replaces every occurrence of `pat` in `v` by `rep`.
pub fn replace_chars(v: &[char], pat: &[char], rep: &[char]) -> (r: Vec<char>)
    requires
        pat.len() > 0,
    ensures
        r@ == replace_all(v@, pat@, rep@),
{
    let mut out: Vec<char> = Vec::new();
    let mut rest = slice_chars(v, 0, v.len());
    assert(rest@ =~= v@);
    assert(out@ + replace_all(rest@, pat@, rep@) =~= replace_all(v@, pat@, rep@));
    loop
        invariant
            pat.len() > 0,
            out@ + replace_all(rest@, pat@, rep@) == replace_all(v@, pat@, rep@),
        decreases rest.len(),
    {
        match find_chars(rest.as_slice(), pat) {
            Some(i) => {
                rest = replace_first(&mut out, rest.as_slice(), i, pat, rep);
            },
            None => {
                proof {
                    lemma_replace_all_absent(rest@, pat@, rep@);
                }
                extend_chars(&mut out, rest.as_slice());
                return out;
            },
        }
    }
}

/// A line without one trailing `\r`.
pub open spec fn strip_cr(line: Seq<char>) -> Seq<char> {
    if line.len() > 0 && line.last() == '\r' {
        line.drop_last()
    } else {
        line
    }
}

/// The lines of `s`, as `str::lines` gives them: split after each `\n`, with the
/// `\n` (and a `\r` just before it) taken off; no line after a final `\n`.
pub open spec fn lines(s: Seq<char>) -> Seq<Seq<char>>
    decreases s.len(),
{
    if s.len() == 0 {
        Seq::empty()
    } else if s.contains('\n') {
        let i = first_index(s, '\n');
        if 0 <= i < s.len() {
            seq![strip_cr(s.take(i))] + lines(s.skip(i + 1))
        } else {
            seq![s]
        }
    } else {
        seq![s]
    }
}

/// The index of the first `c` in `v`, if any.
pub fn find_char(v: &[char], c: char) -> (r: Option<usize>)
    ensures
        match r {
            Some(i) => is_first_index(v@, c, i as int) && first_index(v@, c) == i,
            None => !v@.contains(c),
        },
{
    let mut i: usize = 0;
    while i < v.len()
        invariant
            i <= v.len(),
            forall|j: int| 0 <= j < i ==> v@[j] != c,
        decreases v.len() - i,
    {
        if v[i] == c {
            proof {
                lemma_first_index_unique(v@, c, i as int);
            }
            return Some(i);
        }
        i += 1;
    }
    None
}

fn strip_cr_chars(line: Vec<char>) -> (r: Vec<char>)
    ensures
        r@ == strip_cr(line@),
{
    let mut line = line;
    if line.len() > 0 && line[line.len() - 1] == '\r' {
        line.pop();
    }
    line
}

/// The contents of a list of character vectors.
pub open spec fn char_seqs(v: Seq<Vec<char>>) -> Seq<Seq<char>> {
    v.map_values(|l: Vec<char>| l@)
}

/// The lines of `v`, as `str::lines` gives them.
pub fn split_lines(v: &[char]) -> (r: Vec<Vec<char>>)
    ensures
        char_seqs(r@) == lines(v@),
{
    let mut out: Vec<Vec<char>> = Vec::new();
    let mut rest = slice_chars(v, 0, v.len());
    assert(rest@ =~= v@);
    assert(char_seqs(out@) + lines(rest@) =~= lines(v@));
    while rest.len() > 0
        invariant
            char_seqs(out@) + lines(rest@) == lines(v@),
        decreases rest.len(),
    {
        let ghost r0 = rest@;
        let ghost o0 = char_seqs(out@);
        match find_char(rest.as_slice(), '\n') {
            Some(i) => {
                let line = strip_cr_chars(slice_chars(rest.as_slice(), 0, i));
                let after = slice_chars(rest.as_slice(), i + 1, rest.len());
                assert(after@ =~= r0.skip(i + 1));
                out.push(line);
                assert(char_seqs(out@) =~= o0.push(strip_cr(r0.take(i as int))));
                rest = after;
                assert(char_seqs(out@) + lines(rest@) =~= o0 + (seq![strip_cr(r0.take(i as int))] + lines(rest@)));
            },
            None => {
                out.push(rest);
                assert(char_seqs(out@) =~= o0.push(r0));
                rest = Vec::new();
                assert(char_seqs(out@) + lines(rest@) =~= o0 + seq![r0]);
            },
        }
    }
    assert(char_seqs(out@) + lines(rest@) =~= char_seqs(out@));
    out
}

} // verus!

verus! {

pub proof fn lemma_char_seqs_push(v: Seq<Vec<char>>, x: Vec<char>)
    ensures
        char_seqs(v.push(x)) == char_seqs(v).push(x@),
{
    assert(char_seqs(v.push(x)) =~= char_seqs(v).push(x@));
}

/// The parts joined with `sep` between them, as `[String]::join` does.
pub open spec fn join(parts: Seq<Seq<char>>, sep: Seq<char>) -> Seq<char>
    decreases parts.len(),
{
    if parts.len() == 0 {
        Seq::empty()
    } else if parts.len() == 1 {
        parts[0]
    } else {
        join(parts.drop_last(), sep) + sep + parts.last()
    }
}

/// The parts joined with `sep` between them.
pub fn join_chars(parts: &Vec<Vec<char>>, sep: &[char]) -> (r: Vec<char>)
    ensures
        r@ == join(char_seqs(parts@), sep@),
{
    let mut out: Vec<char> = Vec::new();
    let mut i: usize = 0;
    while i < parts.len()
        invariant
            i <= parts.len(),
            out@ == join(char_seqs(parts@).take(i as int), sep@),
        decreases parts.len() - i,
    {
        let ghost t = char_seqs(parts@).take(i + 1);
        assert(t.drop_last() =~= char_seqs(parts@).take(i as int));
        assert(t.last() == parts@[i as int]@);
        if i > 0 {
            extend_chars(&mut out, sep);
        }
        extend_chars(&mut out, parts[i].as_slice());
        proof {
            if i == 0 {
                assert(out@ =~= t[0]);
            } else {
                assert(out@ =~= join(t.drop_last(), sep@) + sep@ + t.last());
            }
        }
        i += 1;
    }
    assert(char_seqs(parts@).take(parts.len() as int) =~= char_seqs(parts@));
    out
}

/// The strings joined with `sep` between them.
pub fn join_strings(items: &[String], sep: &[char]) -> (r: Vec<char>)
    ensures
        r@ == join(crate::collections::ids(items@), sep@),
{
    let mut parts: Vec<Vec<char>> = Vec::new();
    let mut i: usize = 0;
    while i < items.len()
        invariant
            i <= items.len(),
            char_seqs(parts@) == crate::collections::ids(items@).take(i as int),
        decreases items.len() - i,
    {
        let c = chars_of(items[i].as_str());
        let ghost before = parts@;
        parts.push(c);
        proof {
            lemma_char_seqs_push(before, c);
            assert(crate::collections::ids(items@).take(i + 1) =~= crate::collections::ids(items@).take(i as int).push(items@[i as int]@));
        }
        i += 1;
    }
    assert(crate::collections::ids(items@).take(items.len() as int) =~= crate::collections::ids(items@));
    join_chars(&parts, sep)
}

/// `s` with `from` replaced by `to` everywhere.
pub open spec fn replace_char(s: Seq<char>, from: char, to: char) -> Seq<char> {
    s.map_values(|c: char| if c == from { to } else { c })
}

/// `v` with `from` replaced by `to` everywhere.
pub fn replace_char_chars(v: &[char], from: char, to: char) -> (r: Vec<char>)
    ensures
        r@ == replace_char(v@, from, to),
{
    let mut out: Vec<char> = Vec::new();
    let mut i: usize = 0;
    while i < v.len()
        invariant
            i <= v.len(),
            out@ == replace_char(v@.take(i as int), from, to),
        decreases v.len() - i,
    {
        out.push(if v[i] == from { to } else { v[i] });
        assert(out@ =~= replace_char(v@.take(i + 1), from, to));
        i += 1;
    }
    assert(v@.take(v.len() as int) =~= v@);
    out
}

/// The index of the last occurrence of `needle` in `hay` (meaningful when there is one).
pub open spec fn rfind_seq(hay: Seq<char>, needle: Seq<char>) -> int {
    choose|i: int| occurs_at(hay, needle, i) && forall|j: int| i < j ==> !occurs_at(hay, needle, j)
}

/// The index of the last occurrence of `needle` in `hay`, if any.
pub fn rfind_chars(hay: &[char], needle: &[char]) -> (r: Option<usize>)
    ensures
        match r {
            Some(i) => occurs_at(hay@, needle@, i as int) && rfind_seq(hay@, needle@) == i,
            None => !contains_seq(hay@, needle@),
        },
{
    if needle.len() > hay.len() {
        return None;
    }
    let mut i: usize = hay.len() - needle.len();
    loop
        invariant
            i + needle.len() <= hay.len(),
            forall|j: int| i < j ==> !occurs_at(hay@, needle@, j),
        decreases i,
    {
        if occurs_at_exec(hay, needle, i) {
            proof {
                let k = rfind_seq(hay@, needle@);
                assert(occurs_at(hay@, needle@, k) && forall|j: int| k < j ==> !occurs_at(hay@, needle@, j));
                if k < i {
                    assert(occurs_at(hay@, needle@, i as int));
                } else if i < k {
                    assert(!occurs_at(hay@, needle@, k));
                }
            }
            return Some(i);
        }
        if i == 0 {
            proof {
                assert forall|j: int| !occurs_at(hay@, needle@, j) by {
                    if j >= 0 {
                    }
                }
            }
            return None;
        }
        i -= 1;
    }
}

} // verus!

verus! {

/// The character of a decimal digit.
pub open spec fn digit_char(d: nat) -> char {
    (48 + d) as char
}

/// The decimal digits of `n`, without leading zeros (`"0"` for zero).
pub open spec fn decimal(n: nat) -> Seq<char>
    decreases n,
{
    if n < 10 {
        seq![digit_char(n)]
    } else {
        decimal(n / 10).push(digit_char(n % 10))
    }
}

/// The decimal digits of `n`, padded with leading zeros to at least `width`
/// characters, as `format!("{:0width$}")` writes them.
pub open spec fn zero_padded(n: nat, width: nat) -> Seq<char> {
    let d = decimal(n);
    if d.len() < width {
        Seq::new((width - d.len()) as nat, |i: int| '0') + d
    } else {
        d
    }
}

fn digit_of(d: u64) -> (c: char)
    requires
        d < 10,
    ensures
        c == digit_char(d as nat),
{
    let b: u8 = 48u8 + (d as u8);
    b as char
}

/// The decimal digits of `n`.
pub fn decimal_chars(n: u64) -> (r: Vec<char>)
    ensures
        r@ == decimal(n as nat),
    decreases n,
{
    if n < 10 {
        let mut v: Vec<char> = Vec::new();
        v.push(digit_of(n));
        assert(v@ =~= seq![digit_char(n as nat)]);
        v
    } else {
        let mut v = decimal_chars(n / 10);
        v.push(digit_of(n % 10));
        v
    }
}

/// The decimal digits of `n`, zero-padded to at least `width` characters.
pub fn zero_padded_chars(n: u64, width: usize) -> (r: Vec<char>)
    ensures
        r@ == zero_padded(n as nat, width as nat),
{
    let d = decimal_chars(n);
    if d.len() < width {
        let mut v: Vec<char> = Vec::new();
        let k = width - d.len();
        let mut i: usize = 0;
        while i < k
            invariant
                i <= k,
                v@ == Seq::new(i as nat, |j: int| '0'),
            decreases k - i,
        {
            v.push('0');
            assert(v@ =~= Seq::new((i + 1) as nat, |j: int| '0'));
            i += 1;
        }
        extend_chars(&mut v, d.as_slice());
        v
    } else {
        d
    }
}

/// The decimal text of `n`.
pub fn decimal_string(n: u64) -> (r: String)
    ensures
        r@ == decimal(n as nat),
{
    let d = decimal_chars(n);
    string_of(d.as_slice())
}

} // verus!

verus! {

/// `c` is an ASCII decimal digit.
pub open spec fn is_digit(c: char) -> bool {
    '0' <= c && c <= '9'
}

/// The number written by a run of decimal digits.
pub open spec fn digits_value(s: Seq<char>) -> nat
    decreases s.len(),
{
    if s.len() == 0 {
        0
    } else {
        digits_value(s.drop_last()) * 10 + (s.last() as nat - 48) as nat
    }
}

/// The text after an optional leading `+`.
pub open spec fn unsigned_part(s: Seq<char>) -> Seq<char> {
    if s.len() > 0 && s[0] == '+' {
        s.drop_first()
    } else {
        s
    }
}

/// Every character is a decimal digit.
pub open spec fn all_digits(d: Seq<char>) -> bool {
    forall|i: int| 0 <= i < d.len() ==> is_digit(#[trigger] d[i])
}

/// What `str::parse::<u64>` gives: an optional `+`, then one or more decimal
/// digits whose value fits in a `u64`; `None` for anything else.
pub open spec fn parsed_u64(s: Seq<char>) -> Option<u64> {
    let d = unsigned_part(s);
    if d.len() > 0 && all_digits(d) && digits_value(d) <= u64::MAX {
        Some(digits_value(d) as u64)
    } else {
        None
    }
}

proof fn lemma_digits_value_grows(s: Seq<char>, k: int)
    requires
        0 <= k <= s.len(),
        forall|i: int| 0 <= i < s.len() ==> is_digit(#[trigger] s[i]),
    ensures
        digits_value(s.take(k)) <= digits_value(s),
    decreases s.len() - k,
{
    if k < s.len() {
        lemma_digits_value_grows(s, k + 1);
        assert(s.take(k + 1).drop_last() =~= s.take(k));
        assert(s.take(k + 1).last() == s[k]);
        assert(is_digit(s[k]));
    } else {
        assert(s.take(k) =~= s);
    }
}

/// Reads a decimal number as `str::parse::<u64>` does.
pub fn parse_u64(v: &[char]) -> (r: Option<u64>)
    ensures
        r == parsed_u64(v@),
{
    let ghost d = unsigned_part(v@);
    let mut i: usize = 0;
    if v.len() > 0 && v[0] == '+' {
        i = 1;
    }
    let start = i;
    assert(d =~= v@.skip(start as int));
    if i == v.len() {
        return None;
    }
    let mut acc: u64 = 0;
    while i < v.len()
        invariant
            start <= i <= v.len(),
            d == v@.skip(start as int),
            d == unsigned_part(v@),
            forall|j: int| start <= j < i ==> is_digit(#[trigger] v@[j]),
            acc == digits_value(d.take(i - start)),
        decreases v.len() - i,
    {
        let c = v[i];
        assert(d[i - start] == c);
        if !('0' <= c && c <= '9') {
            assert(!is_digit(d[i - start]));
            assert(!all_digits(d));
            return None;
        }
        let digit: u64 = (c as u32 - 48) as u64;
        assert(d.take(i - start + 1).drop_last() =~= d.take(i - start));
        assert(d.take(i - start + 1).last() == c);
        if acc > (u64::MAX - digit) / 10 {
            proof {
                assert(acc * 10 + digit > u64::MAX) by (nonlinear_arith)
                    requires
                        acc > (u64::MAX - digit) / 10,
                        digit <= 9,
                ;
                assert(digits_value(d.take(i - start + 1)) == acc * 10 + digit);
                if all_digits(d) {
                    lemma_digits_value_grows(d, i - start + 1);
                    assert(digits_value(d) > u64::MAX);
                }
            }
            return None;
        }
        assert(acc * 10 + digit <= u64::MAX) by (nonlinear_arith)
            requires
                acc <= (u64::MAX - digit) / 10,
                digit <= 9,
        ;
        acc = acc * 10 + digit;
        i += 1;
    }
    assert(d.take(i - start) =~= d);
    Some(acc)
}

} // verus!

verus! {

/// Whether the text takes at most `max` bytes in UTF-8.
pub fn utf8_len_at_most(v: &[char], max: usize) -> (r: bool)
    ensures
        r == (utf8_len(v@) <= max),
{
    let mut n: usize = 0;
    let mut acc: usize = 0;
    let mut over = false;
    assert(v@.take(0) =~= Seq::<char>::empty());
    while n < v.len() && !over
        invariant
            n <= v.len(),
            !over ==> acc == utf8_len(v@.take(n as int)) && acc <= max,
            over ==> utf8_len(v@.take(n as int)) > max,
        decreases v.len() - n,
    {
        assert(v@.take(n + 1).drop_last() =~= v@.take(n as int));
        let w = char_utf8_width(v[n]);
        if w > max - acc {
            over = true;
        } else {
            acc = acc + w;
        }
        n += 1;
    }
    proof {
        lemma_utf8_len_prefix(v@, n as int);
        if !over {
            assert(v@.take(n as int) =~= v@);
        }
    }
    !over
}

/// Whether `shorten` can cut the text: it fits, or its first `cut` bytes end
/// on a character boundary.
pub fn can_shorten_chars(v: &[char], max: usize, cut: usize) -> (r: bool)
    requires
        cut < max,
    ensures
        r == can_shorten(v@, max as nat, cut as nat),
{
    if utf8_len_at_most(v, max) {
        return true;
    }
    match char_count_for_bytes(v, cut) {
        Some(n) => {
            assert(utf8_len(v@.take(n as int)) == cut);
            true
        },
        None => false,
    }
}

} // verus!
