//! Character and string helpers shared by the rest of the library.
use vstd::prelude::*;

verus! {

/// The Unicode `White_Space` property, which `char::is_whitespace` tests.
pub open spec fn is_ws(c: char) -> bool {
    let u = c as u32;
    ||| 0x09 <= u <= 0x0D
    ||| u == 0x20
    ||| u == 0x85
    ||| u == 0xA0
    ||| u == 0x1680
    ||| 0x2000 <= u <= 0x200A
    ||| u == 0x2028
    ||| u == 0x2029
    ||| u == 0x202F
    ||| u == 0x205F
    ||| u == 0x3000
}

/// Whether `c` is a white-space character.
pub fn is_whitespace(c: char) -> (r: bool)
    ensures
        r == is_ws(c),
{
    let u = c as u32;
    (0x09 <= u && u <= 0x0D) || u == 0x20 || u == 0x85 || u == 0xA0 || u == 0x1680 || (0x2000
        <= u && u <= 0x200A) || u == 0x2028 || u == 0x2029 || u == 0x202F || u == 0x205F || u
        == 0x3000
}

/// The characters of a string slice, in order.
pub fn chars_of(s: &str) -> (v: Vec<char>)
    ensures
        v@ == s@,
{
    let mut v: Vec<char> = Vec::new();
    for c in it: s.chars()
        invariant
            v@ == it.seq().take(it.index() as int),
    {
        v.push(c);
    }
    v
}

} // verus!

verus! {

/// A copy of a string slice as an owned string.
pub fn to_owned_string(s: &str) -> (r: String)
    ensures
        r@ == s@,
{
    s.to_string()
}

/// `String::push`: appends one character.
#[verifier::external_body]
pub(crate) fn push_char(s: &mut String, c: char)
    ensures
        final(s)@ == old(s)@.push(c),
{
    s.push(c);
}

/// Appends a string slice.
pub fn push_str(s: &mut String, t: &str)
    ensures
        final(s)@ == old(s)@ + t@,
{
    let v = chars_of(t);
    let ghost start = s@;
    let mut i: usize = 0;
    while i < v.len()
        invariant
            0 <= i <= v@.len(),
            v@ == t@,
            s@ == start + v@.take(i as int),
        decreases v@.len() - i,
    {
        push_char(s, v[i]);
        assert(v@.take((i + 1) as int) == v@.take(i as int).push(v@[i as int]));
        i = i + 1;
    }
    assert(v@.take(v@.len() as int) == v@);
}

/// A string made of the given characters.
pub fn string_of_chars(v: &[char]) -> (r: String)
    ensures
        r@ == v@,
{
    let mut s = String::new();
    let mut i: usize = 0;
    while i < v.len()
        invariant
            0 <= i <= v@.len(),
            s@ == v@.take(i as int),
        decreases v@.len() - i,
    {
        push_char(&mut s, v[i]);
        assert(v@.take((i + 1) as int) == v@.take(i as int).push(v@[i as int]));
        i = i + 1;
    }
    assert(v@.take(v@.len() as int) == v@);
    s
}

} // verus!

verus! {

/// `s.trim().is_empty()`: every character is white space.
pub open spec fn blank(s: Seq<char>) -> bool {
    forall|i: int| 0 <= i < s.len() ==> is_ws(#[trigger] s[i])
}

/// `s.trim().starts_with(c)` for a character `c` that is not white space.
pub open spec fn first_non_ws_is(s: Seq<char>, c: char) -> bool {
    exists|i: int|
        0 <= i < s.len() && #[trigger] s[i] == c && forall|k: int| 0 <= k < i ==> is_ws(s[k])
}

/// `s.trim().ends_with(c)` for a character `c` that is not white space.
pub open spec fn last_non_ws_is(s: Seq<char>, c: char) -> bool {
    exists|i: int|
        0 <= i < s.len() && #[trigger] s[i] == c && forall|k: int| i < k < s.len() ==> is_ws(s[k])
}

/// Whether a string holds only white space (`trim().is_empty()`).
pub fn is_blank(s: &str) -> (r: bool)
    ensures
        r == blank(s@),
{
    let v = chars_of(s);
    let mut i: usize = 0;
    while i < v.len()
        invariant
            0 <= i <= v@.len(),
            v@ == s@,
            forall|k: int| 0 <= k < i ==> is_ws(#[trigger] v@[k]),
        decreases v@.len() - i,
    {
        if !is_whitespace(v[i]) {
            return false;
        }
        i = i + 1;
    }
    true
}

/// Whether the first character that is not white space is `c` (`trim().starts_with(c)`).
pub fn trimmed_starts_with(s: &str, c: char) -> (r: bool)
    requires
        !is_ws(c),
    ensures
        r == first_non_ws_is(s@, c),
{
    let v = chars_of(s);
    let mut i: usize = 0;
    while i < v.len()
        invariant
            0 <= i <= v@.len(),
            v@ == s@,
            !is_ws(c),
            forall|k: int| 0 <= k < i ==> is_ws(#[trigger] v@[k]),
        decreases v@.len() - i,
    {
        if !is_whitespace(v[i]) {
            if v[i] == c {
                return true;
            } else {
                proof {
                    assert forall|j: int|
                        0 <= j < s@.len() && s@[j] == c implies !(forall|k: int|
                        0 <= k < j ==> is_ws(s@[k])) by {
                        if j < i {
                            assert(is_ws(v@[j]));
                        } else if j > i {
                            assert(!is_ws(s@[i as int]));
                        }
                    }
                }
                return false;
            }
        }
        i = i + 1;
    }
    proof {
        assert forall|j: int| 0 <= j < s@.len() implies #[trigger] s@[j] != c by {
            assert(is_ws(v@[j]));
        }
    }
    false
}

/// Whether the last character that is not white space is `c` (`trim().ends_with(c)`).
pub fn trimmed_ends_with(s: &str, c: char) -> (r: bool)
    requires
        !is_ws(c),
    ensures
        r == last_non_ws_is(s@, c),
{
    let v = chars_of(s);
    let mut i: usize = v.len();
    while i > 0
        invariant
            0 <= i <= v@.len(),
            v@ == s@,
            !is_ws(c),
            forall|k: int| i <= k < v@.len() ==> is_ws(#[trigger] v@[k]),
        decreases i,
    {
        if !is_whitespace(v[i - 1]) {
            if v[i - 1] == c {
                assert(s@[i - 1] == c);
                return true;
            } else {
                proof {
                    assert forall|j: int|
                        0 <= j < s@.len() && s@[j] == c implies !(forall|k: int|
                        j < k < s@.len() ==> is_ws(s@[k])) by {
                        if j >= i {
                            assert(is_ws(v@[j]));
                        } else if j < i - 1 {
                            assert(!is_ws(s@[i - 1]));
                        }
                    }
                }
                return false;
            }
        }
        i = i - 1;
    }
    proof {
        assert forall|j: int| 0 <= j < s@.len() implies #[trigger] s@[j] != c by {
            assert(is_ws(v@[j]));
        }
    }
    false
}

/// The strings of `list` joined by `sep`.
pub open spec fn seq_join(list: Seq<Seq<char>>, sep: Seq<char>) -> Seq<char>
    decreases list.len(),
{
    if list.len() == 0 {
        Seq::empty()
    } else if list.len() == 1 {
        list[0]
    } else {
        seq_join(list.drop_last(), sep) + sep + list.last()
    }
}

/// The views of a vector of strings.
pub open spec fn views(v: Seq<String>) -> Seq<Seq<char>> {
    v.map_values(|s: String| s@)
}

/// Joins strings with a separator, as `[String]::join` does.
pub fn join(list: &Vec<String>, sep: &str) -> (r: String)
    ensures
        r@ == seq_join(views(list@), sep@),
{
    let mut r = String::new();
    let mut i: usize = 0;
    while i < list.len()
        invariant
            0 <= i <= list@.len(),
            r@ == seq_join(views(list@.take(i as int)), sep@),
        decreases list@.len() - i,
    {
        if i != 0 {
            push_str(&mut r, sep);
        }
        push_str(&mut r, list[i].as_str());
        assert(views(list@.take((i + 1) as int)).drop_last() == views(list@.take(i as int)));
        i = i + 1;
    }
    assert(list@.take(list@.len() as int) == list@);
    r
}

/// What `str::to_lowercase` returns for a string (Unicode lower-case mapping).
pub uninterp spec fn lowercase(s: Seq<char>) -> Seq<char>;

/// What `str::to_uppercase` returns for a string (Unicode upper-case mapping).
pub uninterp spec fn uppercase(s: Seq<char>) -> Seq<char>;

/// `str::to_lowercase`: the Unicode lower-case form of a string. Unicode maps
/// the ASCII letters `A`–`Z` to `a`–`z` and leaves the other ASCII characters as
/// they are, so an ASCII string is lower-cased character by character.
#[verifier::external_body]
pub(crate) fn to_lowercase(s: &str) -> (r: String)
    ensures
        r@ == lowercase(s@),
        (forall|i: int| 0 <= i < s@.len() ==> (s@[i] as u32) < 128) ==> r@ == s@.map_values(|c: char| ascii_lower(c)),
{
    s.to_lowercase()
}

/// `str::to_uppercase`: the Unicode upper-case form of a string.
#[verifier::external_body]
pub(crate) fn to_uppercase(s: &str) -> (r: String)
    ensures
        r@ == uppercase(s@),
{
    s.to_uppercase()
}

/// ASCII lower-case of one character, as `char::to_ascii_lowercase` maps it.
pub open spec fn ascii_lower(c: char) -> char {
    if 'A' <= c <= 'Z' {
        ((c as u32) + 32) as char
    } else {
        c
    }
}

/// `str::eq_ignore_ascii_case`: equal up to ASCII case.
pub open spec fn eq_ignore_ascii_case(a: Seq<char>, b: Seq<char>) -> bool {
    a.len() == b.len() && forall|i: int| 0 <= i < a.len() ==> ascii_lower(#[trigger] a[i])
        == ascii_lower(b[i])
}

/// The ASCII lower-case of one character.
fn ascii_lower_exec(c: char) -> (r: char)
    ensures
        r == ascii_lower(c),
{
    if 'A' <= c && c <= 'Z' {
        let u: u8 = ((c as u32) + 32) as u8;
        u as char
    } else {
        c
    }
}

/// Whether two strings are equal up to ASCII case.
pub fn equals_ignore_ascii_case(a: &str, b: &str) -> (r: bool)
    ensures
        r == eq_ignore_ascii_case(a@, b@),
{
    let va = chars_of(a);
    let vb = chars_of(b);
    if va.len() != vb.len() {
        return false;
    }
    let mut i: usize = 0;
    while i < va.len()
        invariant
            0 <= i <= va@.len(),
            va@ == a@,
            vb@ == b@,
            va@.len() == vb@.len(),
            forall|k: int| 0 <= k < i ==> ascii_lower(#[trigger] va@[k]) == ascii_lower(vb@[k]),
        decreases va@.len() - i,
    {
        if ascii_lower_exec(va[i]) != ascii_lower_exec(vb[i]) {
            return false;
        }
        i = i + 1;
    }
    true
}

/// Whether `pat` occurs in `s` at position `i`.
pub open spec fn occurs_at(s: Seq<char>, pat: Seq<char>, i: int) -> bool {
    0 <= i && i + pat.len() <= s.len() && s.subrange(i, i + pat.len()) == pat
}

/// `str::contains` for a string pattern.
pub open spec fn contains_seq(s: Seq<char>, pat: Seq<char>) -> bool {
    exists|i: int| occurs_at(s, pat, i)
}

/// `str::starts_with` for a string pattern.
pub open spec fn starts_with(s: Seq<char>, pat: Seq<char>) -> bool {
    pat.len() <= s.len() && s.subrange(0, pat.len() as int) == pat
}

/// `str::ends_with` for a string pattern.
pub open spec fn ends_with(s: Seq<char>, pat: Seq<char>) -> bool {
    pat.len() <= s.len() && s.subrange(s.len() - pat.len(), s.len() as int) == pat
}

/// Whether `s` starts with `pat`.
pub fn has_prefix(s: &str, pat: &str) -> (r: bool)
    ensures
        r == starts_with(s@, pat@),
{
    let vs = chars_of(s);
    let vp = chars_of(pat);
    if vp.len() > vs.len() {
        return false;
    }
    let mut i: usize = 0;
    while i < vp.len()
        invariant
            0 <= i <= vp@.len() <= vs@.len(),
            vs@ == s@,
            vp@ == pat@,
            forall|k: int| 0 <= k < i ==> vs@[k] == vp@[k],
        decreases vp@.len() - i,
    {
        if vs[i] != vp[i] {
            assert(s@.subrange(0, pat@.len() as int)[i as int] != pat@[i as int]);
            return false;
        }
        i = i + 1;
    }
    assert(s@.subrange(0, pat@.len() as int) =~= pat@);
    true
}

/// Whether `s` ends with `pat`.
pub fn has_suffix(s: &str, pat: &str) -> (r: bool)
    ensures
        r == ends_with(s@, pat@),
{
    let vs = chars_of(s);
    let vp = chars_of(pat);
    if vp.len() > vs.len() {
        return false;
    }
    let off = vs.len() - vp.len();
    let mut i: usize = 0;
    while i < vp.len()
        invariant
            0 <= i <= vp@.len() <= vs@.len(),
            off + vp@.len() == vs@.len(),
            vs@.len() == vs.len(),
            vs@ == s@,
            vp@ == pat@,
            forall|k: int| 0 <= k < i ==> vs@[off + k] == vp@[k],
        decreases vp@.len() - i,
    {
        if vs[off + i] != vp[i] {
            assert(s@.subrange(off as int, s@.len() as int)[i as int] != pat@[i as int]);
            return false;
        }
        i = i + 1;
    }
    assert(s@.subrange(off as int, s@.len() as int) =~= pat@);
    true
}

/// The number of `'\n'` characters in `s`.
pub open spec fn newline_count(s: Seq<char>) -> nat
    decreases s.len(),
{
    if s.len() == 0 {
        0
    } else {
        newline_count(s.drop_last()) + if s.last() == '\n' {
            1nat
        } else {
            0nat
        }
    }
}

proof fn lemma_newline_count_le(s: Seq<char>)
    ensures
        newline_count(s) <= s.len(),
    decreases s.len(),
{
    if s.len() > 0 {
        lemma_newline_count_le(s.drop_last());
    }
}

/// `str::lines().count()`: one line per `'\n'`, plus a last line that has no `'\n'` after it.
pub open spec fn line_count(s: Seq<char>) -> nat {
    newline_count(s) + if s.len() > 0 && s.last() != '\n' {
        1nat
    } else {
        0nat
    }
}

/// The number of lines of a string, as `str::lines().count()` gives it.
pub fn count_lines(s: &str) -> (r: usize)
    ensures
        r == line_count(s@),
{
    let v = chars_of(s);
    let mut n: usize = 0;
    let mut i: usize = 0;
    while i < v.len()
        invariant
            0 <= i <= v@.len(),
            v@ == s@,
            n == newline_count(v@.take(i as int)),
            n <= i,
        decreases v@.len() - i,
    {
        assert(v@.take((i + 1) as int).drop_last() == v@.take(i as int));
        if v[i] == '\n' {
            n = n + 1;
        }
        i = i + 1;
    }
    assert(v@.take(v@.len() as int) == v@);
    if v.len() > 0 && v[v.len() - 1] != '\n' {
        proof {
            lemma_newline_count_le(v@.drop_last());
        }
        n + 1
    } else {
        n
    }
}

/// The first line of `s` as `str::lines().next()` gives it (text before the first
/// `'\n'`, without a trailing `'\r'`), or `s` itself when it is empty.
pub open spec fn first_line(s: Seq<char>) -> Seq<char> {
    let end = if exists|i: int| 0 <= i < s.len() && s[i] == '\n' {
        choose|i: int| 0 <= i < s.len() && s[i] == '\n' && forall|k: int| 0 <= k < i ==> s[k] != '\n'
    } else {
        s.len() as int
    };
    let line = s.subrange(0, end);
    if line.len() > 0 && line.last() == '\r' {
        line.drop_last()
    } else {
        line
    }
}

/// Whether two string slices are equal.
pub fn str_equal(a: &str, b: &str) -> (r: bool)
    ensures
        r == (a@ == b@),
{
    let va = chars_of(a);
    let vb = chars_of(b);
    if va.len() != vb.len() {
        return false;
    }
    let mut i: usize = 0;
    while i < va.len()
        invariant
            0 <= i <= va@.len(),
            va@ == a@,
            vb@ == b@,
            va@.len() == vb@.len(),
            forall|k: int| 0 <= k < i ==> va@[k] == vb@[k],
        decreases va@.len() - i,
    {
        if va[i] != vb[i] {
            return false;
        }
        i = i + 1;
    }
    assert(va@ =~= vb@);
    true
}

/// `str::replace` for a non-empty pattern: every occurrence of `pat`, scanning
/// left to right without overlap, replaced by `to`.
pub open spec fn replace_all(s: Seq<char>, pat: Seq<char>, to: Seq<char>) -> Seq<char>
    decreases s.len(),
{
    if pat.len() == 0 || s.len() < pat.len() {
        s
    } else if s.subrange(0, pat.len() as int) == pat {
        to + replace_all(s.skip(pat.len() as int), pat, to)
    } else {
        seq![s[0]] + replace_all(s.drop_first(), pat, to)
    }
}

/// Whether `p` occurs in `v` at position `i`.
fn occurs_at_exec(v: &Vec<char>, p: &Vec<char>, i: usize) -> (r: bool)
    requires
        i <= v@.len(),
    ensures
        r == (i + p@.len() <= v@.len() && v@.subrange(i as int, i + p@.len()) == p@),
{
    if p.len() > v.len() - i {
        return false;
    }
    let mut k: usize = 0;
    while k < p.len()
        invariant
            0 <= k <= p@.len(),
            i + p@.len() <= v@.len(),
            v@.len() == v.len(),
            forall|j: int| 0 <= j < k ==> v@[i + j] == p@[j],
        decreases p@.len() - k,
    {
        if v[i + k] != p[k] {
            assert(v@.subrange(i as int, i + p@.len())[k as int] != p@[k as int]);
            return false;
        }
        k = k + 1;
    }
    assert(v@.subrange(i as int, i + p@.len()) =~= p@);
    true
}

/// Replaces every occurrence of a non-empty pattern, as `str::replace` does.
pub fn replace_str(s: &str, pat: &str, to: &str) -> (r: String)
    requires
        pat@.len() > 0,
    ensures
        r@ == replace_all(s@, pat@, to@),
{
    let v = chars_of(s);
    let p = chars_of(pat);
    let mut out = String::new();
    let mut i: usize = 0;
    assert(v@.skip(0) == v@);
    assert(out@ + v@ =~= v@);
    while i < v.len()
        invariant
            0 <= i <= v@.len(),
            v@ == s@,
            p@ == pat@,
            p@.len() > 0,
            out@ + replace_all(v@.skip(i as int), p@, to@) == replace_all(v@, p@, to@),
        decreases v@.len() - i,
    {
        let ghost t = v@.skip(i as int);
        if occurs_at_exec(&v, &p, i) {
            proof {
                assert(t.subrange(0, p@.len() as int) =~= v@.subrange(i as int, i + p@.len()));
                assert(t.skip(p@.len() as int) =~= v@.skip(i + p@.len()));
            }
            push_str(&mut out, to);
            assert((out@ + replace_all(v@.skip(i + p@.len()), p@, to@)) =~= replace_all(v@, p@, to@));
            i = i + p.len();
        } else {
            proof {
                if t.len() >= p@.len() {
                    assert(t.subrange(0, p@.len() as int) =~= v@.subrange(i as int, i + p@.len()));
                }
                assert(t.drop_first() =~= v@.skip(i + 1));
                assert(t[0] == v@[i as int]);
                if t.len() < p@.len() {
                    // No occurrence fits: the rest is kept as it is.
                    assert(replace_all(t, p@, to@) == t);
                    assert(replace_all(t.drop_first(), p@, to@) == t.drop_first());
                    assert(t =~= seq![t[0]] + t.drop_first());
                }
            }
            push_char(&mut out, v[i]);
            assert((out@ + replace_all(v@.skip(i + 1), p@, to@)) =~= replace_all(v@, p@, to@));
            i = i + 1;
        }
    }
    assert(v@.skip(v@.len() as int) =~= Seq::<char>::empty());
    assert(out@ + Seq::<char>::empty() =~= out@);
    out
}

/// The parts of a text split at a separator, as `str::split` gives them.
pub open spec fn split_at_char(s: Seq<char>, sep: char) -> Seq<Seq<char>>
    decreases s.len(),
{
    if s.len() == 0 {
        seq![Seq::empty()]
    } else {
        let r = split_at_char(s.drop_last(), sep);
        if s.last() == sep {
            r.push(Seq::empty())
        } else {
            r.update(r.len() - 1, r.last().push(s.last()))
        }
    }
}

pub proof fn lemma_split_nonempty(s: Seq<char>, sep: char)
    ensures
        split_at_char(s, sep).len() >= 1,
    decreases s.len(),
{
    if s.len() > 0 {
        lemma_split_nonempty(s.drop_last(), sep);
    }
}

/// The parts of a text split at a separator.
pub fn split_parts(s: &str, sep: char) -> (r: Vec<String>)
    ensures
        views(r@) == split_at_char(s@, sep),
{
    let v = chars_of(s);
    let mut parts: Vec<String> = Vec::new();
    let mut cur = String::new();
    let mut i: usize = 0;
    while i < v.len()
        invariant
            0 <= i <= v@.len(),
            v@ == s@,
            views(parts@).push(cur@) == split_at_char(v@.take(i as int), sep),
        decreases v@.len() - i,
    {
        proof {
            assert(v@.take(i + 1).drop_last() =~= v@.take(i as int));
            assert(v@.take(i + 1).last() == v@[i as int]);
            lemma_split_nonempty(v@.take(i as int), sep);
        }
        let ghost prev_parts = parts@;
        let ghost prev_cur = cur@;
        if v[i] == sep {
            let done = cur;
            parts.push(done);
            cur = String::new();
            assert(views(parts@).push(cur@) =~= views(prev_parts).push(prev_cur).push(Seq::empty()));
        } else {
            push_char(&mut cur, v[i]);
            assert(views(parts@).push(cur@) =~= views(prev_parts).push(prev_cur).update(
                prev_parts.len() as int,
                prev_cur.push(v@[i as int]),
            ));
        }
        i = i + 1;
    }
    assert(v@.take(v@.len() as int) =~= v@);
    parts.push(cur);
    assert(views(parts@) =~= split_at_char(s@, sep));
    parts
}

/// The number of bytes the UTF-8 encoding of a character takes.
pub open spec fn utf8_len(c: char) -> nat {
    if (c as u32) < 0x80 {
        1
    } else if (c as u32) < 0x800 {
        2
    } else if (c as u32) < 0x10000 {
        3
    } else {
        4
    }
}

/// The length in bytes of the UTF-8 encoding of a text, which `str::len` gives.
pub open spec fn byte_len(s: Seq<char>) -> nat
    decreases s.len(),
{
    if s.len() == 0 {
        0
    } else {
        byte_len(s.drop_last()) + utf8_len(s.last())
    }
}

/// `str::len`: the length of a string in bytes. No allocated object is larger
/// than `isize::MAX` bytes.
#[verifier::external_body]
pub(crate) fn str_len(s: &str) -> (r: usize)
    ensures
        r == byte_len(s@),
        r <= isize::MAX,
{
    s.len()
}

/// The number of bytes the UTF-8 encoding of a character takes.
pub fn char_byte_len(c: char) -> (r: usize)
    ensures
        r == utf8_len(c),
{
    if (c as u32) < 0x80 {
        1
    } else if (c as u32) < 0x800 {
        2
    } else if (c as u32) < 0x10000 {
        3
    } else {
        4
    }
}

/// The bytes of two texts joined are the bytes of each.
pub proof fn lemma_byte_len_append(a: Seq<char>, b: Seq<char>)
    ensures
        byte_len(a + b) == byte_len(a) + byte_len(b),
    decreases b.len(),
{
    if b.len() == 0 {
        assert(a + b =~= a);
    } else {
        lemma_byte_len_append(a, b.drop_last());
        assert((a + b).drop_last() =~= a + b.drop_last());
    }
}

/// Each character takes at least one byte, so a longer prefix has more bytes.
pub proof fn lemma_byte_len_prefix(s: Seq<char>, i: int, j: int)
    requires
        0 <= i <= j <= s.len(),
    ensures
        byte_len(s.take(i)) + (j - i) <= byte_len(s.take(j)),
    decreases j - i,
{
    if i < j {
        lemma_byte_len_prefix(s, i, j - 1);
        assert(s.take(j).drop_last() =~= s.take(j - 1));
    }
}

/// A line without the `'\r'` of a `"\r\n"` ending.
pub open spec fn strip_cr(l: Seq<char>) -> Seq<char> {
    if l.len() > 0 && l.last() == '\r' {
        l.drop_last()
    } else {
        l
    }
}

/// The lines of a text, as `str::lines` gives them: the text split at `'\n'`,
/// each line that ends at a `'\n'` without a `'\r'` before it, and no empty
/// last line after a final `'\n'`.
pub open spec fn std_lines(s: Seq<char>) -> Seq<Seq<char>> {
    let parts = split_at_char(s, '\n');
    let body = parts.drop_last().map_values(|l: Seq<char>| strip_cr(l));
    if parts.last().len() == 0 {
        body
    } else {
        body.push(parts.last())
    }
}

/// A string without a last `'\r'`.
fn without_cr(s: &str) -> (r: String)
    ensures
        r@ == strip_cr(s@),
{
    let mut v = chars_of(s);
    if v.len() > 0 && v[v.len() - 1] == '\r' {
        v.pop();
        assert(v@ =~= s@.drop_last());
    }
    string_of_chars(&v)
}

/// The lines of a string, as `str::lines` gives them.
pub fn lines_of(s: &str) -> (r: Vec<String>)
    ensures
        views(r@) == std_lines(s@),
{
    let parts = split_parts(s, '\n');
    proof {
        lemma_split_nonempty(s@, '\n');
    }
    let ghost ps = views(parts@);
    let n = parts.len();
    let mut out: Vec<String> = Vec::new();
    let mut i: usize = 0;
    while i + 1 < n
        invariant
            n == parts@.len(),
            n >= 1,
            0 <= i < n,
            ps == views(parts@),
            ps == split_at_char(s@, '\n'),
            views(out@) == ps.take(i as int).map_values(|l: Seq<char>| strip_cr(l)),
        decreases n - i,
    {
        let ghost before = out@;
        out.push(without_cr(parts[i].as_str()));
        assert(views(out@) =~= ps.take(i + 1).map_values(|l: Seq<char>| strip_cr(l))) by {
            assert(views(out@) =~= views(before).push(out@.last()@));
        }
        i = i + 1;
    }
    assert(ps.take(i as int) =~= ps.drop_last());
    if !parts[n - 1].as_str().is_empty() {
        let ghost before = out@;
        out.push(parts[n - 1].clone());
        assert(views(out@) =~= views(before).push(ps.last()));
    } else {
        assert(parts@[n - 1]@.len() == 0);
    }
    out
}

/// Each piece of a split with its separator: the bytes of the pieces and one byte
/// after each.
pub open spec fn sep_total(parts: Seq<Seq<char>>) -> nat
    decreases parts.len(),
{
    if parts.len() == 0 {
        0
    } else {
        sep_total(parts.drop_last()) + byte_len(parts.last()) + 1
    }
}

/// Splitting at a one-byte separator keeps every byte: the pieces and the
/// separators between them are the whole text.
pub proof fn lemma_split_bytes(s: Seq<char>)
    ensures
        sep_total(split_at_char(s, '\n')) == byte_len(s) + 1,
    decreases s.len(),
{
    if s.len() > 0 {
        lemma_split_bytes(s.drop_last());
        lemma_split_nonempty(s.drop_last(), '\n');
        let r = split_at_char(s.drop_last(), '\n');
        if s.last() != '\n' {
            let u = r.update(r.len() - 1, r.last().push(s.last()));
            assert(split_at_char(s, '\n') == u);
            assert(u.drop_last() =~= r.drop_last());
            assert(u.last() == r.last().push(s.last()));
            assert(r.last().push(s.last()).drop_last() =~= r.last());
            assert(byte_len(u.last()) == byte_len(r.last()) + utf8_len(s.last()));
            assert(sep_total(u) == sep_total(r.drop_last()) + byte_len(u.last()) + 1);
            assert(sep_total(r) == sep_total(r.drop_last()) + byte_len(r.last()) + 1);
        } else {
            let u = r.push(Seq::<char>::empty());
            assert(split_at_char(s, '\n') == u);
            assert(u.drop_last() =~= r);
            assert(byte_len(Seq::<char>::empty()) == 0);
            assert(utf8_len('\n') == 1);
            assert(sep_total(u) == sep_total(r) + 1);
            assert(byte_len(s) == byte_len(s.drop_last()) + 1);
        }
    } else {
        let u = seq![Seq::<char>::empty()];
        assert(split_at_char(s, '\n') == u);
        assert(u.drop_last() =~= Seq::<Seq<char>>::empty());
        assert(byte_len(u.last()) == 0);
        assert(sep_total(u.drop_last()) == 0);
        assert(sep_total(u) == 1);
        assert(byte_len(s) == 0);
    }
}

/// A prefix of the pieces has no more bytes than all of them.
pub proof fn lemma_sep_total_prefix(parts: Seq<Seq<char>>, i: int)
    requires
        0 <= i <= parts.len(),
    ensures
        sep_total(parts.take(i)) <= sep_total(parts),
    decreases parts.len() - i,
{
    if i < parts.len() {
        lemma_sep_total_prefix(parts, i + 1);
        assert(parts.take(i + 1).drop_last() =~= parts.take(i));
    } else {
        assert(parts.take(i) =~= parts);
    }
}

/// Splitting a text made of two parts: the pieces of the first part, the last of
/// them joined with the first piece of the second part, then the other pieces of
/// the second part.
pub proof fn lemma_split_concat(x: Seq<char>, y: Seq<char>, sep: char)
    ensures
        split_at_char(x + y, sep) == split_at_char(x, sep).drop_last() + seq![
            split_at_char(x, sep).last() + split_at_char(y, sep)[0],
        ] + split_at_char(y, sep).drop_first(),
    decreases y.len(),
{
    lemma_split_nonempty(x, sep);
    lemma_split_nonempty(y, sep);
    let a = split_at_char(x, sep);
    if y.len() == 0 {
        assert(x + y =~= x);
        assert(split_at_char(y, sep) =~= seq![Seq::<char>::empty()]);
        assert(a.last() + Seq::<char>::empty() =~= a.last());
        assert(a.drop_last() + seq![a.last()] =~= a);
        assert(seq![Seq::<char>::empty()].drop_first() =~= Seq::<Seq<char>>::empty());
        assert(a.drop_last() + seq![a.last()] + Seq::<Seq<char>>::empty() =~= a);
    } else {
        let y1 = y.drop_last();
        let ch = y.last();
        lemma_split_concat(x, y1, sep);
        lemma_split_nonempty(y1, sep);
        lemma_split_nonempty(x + y1, sep);
        assert((x + y).drop_last() =~= x + y1);
        assert((x + y).last() == ch);
        let s1 = split_at_char(y1, sep);
        let whole1 = split_at_char(x + y1, sep);
        let d = a.drop_last();
        let mid = a.last() + s1[0];
        let r1 = s1.drop_first();
        assert(whole1 == d + seq![mid] + r1);
        if ch == sep {
            assert(split_at_char(x + y, sep) == whole1.push(Seq::<char>::empty()));
            assert(split_at_char(y, sep) == s1.push(Seq::<char>::empty()));
            assert(s1.push(Seq::<char>::empty())[0] == s1[0]);
            assert(s1.push(Seq::<char>::empty()).drop_first() =~= r1.push(Seq::<char>::empty()));
            assert(whole1.push(Seq::<char>::empty()) =~= d + seq![mid] + r1.push(Seq::<char>::empty()));
        } else {
            assert(split_at_char(x + y, sep) == whole1.update(whole1.len() - 1, whole1.last().push(ch)));
            assert(split_at_char(y, sep) == s1.update(s1.len() - 1, s1.last().push(ch)));
            if r1.len() > 0 {
                let s2 = s1.update(s1.len() - 1, s1.last().push(ch));
                assert(s2[0] == s1[0]);
                assert(s2.drop_first() =~= r1.update(r1.len() - 1, r1.last().push(ch)));
                assert(whole1.update(whole1.len() - 1, whole1.last().push(ch)) =~= d + seq![mid] + r1.update(
                    r1.len() - 1,
                    r1.last().push(ch),
                ));
            } else {
                assert(s1.len() == 1);
                let s2 = s1.update(0, s1[0].push(ch));
                assert(s2[0] == s1[0].push(ch));
                assert(s2.drop_first() =~= Seq::<Seq<char>>::empty());
                assert(mid.push(ch) =~= a.last() + s1[0].push(ch));
                assert(whole1.update(whole1.len() - 1, whole1.last().push(ch)) =~= d + seq![a.last() + s1[0].push(ch)]
                    + Seq::<Seq<char>>::empty());
            }
        }
    }
}

/// A text without the separator is one piece.
pub proof fn lemma_split_without_sep(s: Seq<char>, sep: char)
    requires
        forall|i: int| 0 <= i < s.len() ==> s[i] != sep,
    ensures
        split_at_char(s, sep) == seq![s],
    decreases s.len(),
{
    if s.len() > 0 {
        let r = s.drop_last();
        assert forall|i: int| 0 <= i < r.len() implies r[i] != sep by {
            assert(r[i] == s[i]);
        }
        lemma_split_without_sep(r, sep);
        assert(s[s.len() - 1] != sep);
        assert(r.push(s.last()) =~= s);
        assert(seq![r].update(0, r.push(s.last())) =~= seq![s]);
    } else {
        assert(s =~= Seq::<char>::empty());
    }
}

} // verus!
