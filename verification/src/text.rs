//! Text stored as `String` and addressed by UTF-8 byte offsets.
//!
//! A string is modelled by its sequence of `char`s; a byte offset is
//! meaningful when it falls on a character boundary of that sequence.

use vstd::prelude::*;
use vstd::string::*;

verus! {

/// Number of bytes that the UTF-8 encoding of `c` takes.
pub open spec fn char_width(c: char) -> nat {
    let u = c as u32;
    if u <= 0x7f {
        1
    } else if u <= 0x7ff {
        2
    } else if u <= 0xffff {
        3
    } else {
        4
    }
}

/// Number of bytes of the UTF-8 encoding of `s`.
pub open spec fn byte_len(s: Seq<char>) -> nat
    decreases s.len(),
{
    if s.len() == 0 {
        0
    } else {
        byte_len(s.drop_last()) + char_width(s.last())
    }
}

/// Byte offset of the `k`-th character boundary of `s`, that is, the number
/// of bytes taken by the first `k` characters.
pub open spec fn offset(s: Seq<char>, k: int) -> nat {
    byte_len(s.take(k))
}

/// `b` is a byte offset at which a character of `s` starts, or the end of `s`.
pub open spec fn is_boundary(s: Seq<char>, b: int) -> bool {
    exists|k: int| 0 <= k <= s.len() && #[trigger] offset(s, k) == b
}

/// The number of characters that lie before the byte offset `b`.
pub open spec fn index_at(s: Seq<char>, b: int) -> int
    recommends
        is_boundary(s, b),
{
    choose|k: int| 0 <= k <= s.len() && #[trigger] offset(s, k) == b
}

/// The characters of `s` before the byte offset `b`.
pub open spec fn head(s: Seq<char>, b: int) -> Seq<char> {
    s.take(index_at(s, b))
}

/// The characters of `s` from the byte offset `b` on.
pub open spec fn rest(s: Seq<char>, b: int) -> Seq<char> {
    s.skip(index_at(s, b))
}

/// `s` with the bytes `from..to` replaced by `ins`.
pub open spec fn splice(s: Seq<char>, from: int, to: int, ins: Seq<char>) -> Seq<char> {
    head(s, from) + ins + rest(s, to)
}

/// Byte offset of the character boundary just before the boundary `b`.
pub open spec fn prev_boundary(s: Seq<char>, b: int) -> int {
    offset(s, index_at(s, b) - 1) as int
}

/// Byte offset of the character boundary just after the boundary `b`.
pub open spec fn next_boundary(s: Seq<char>, b: int) -> int {
    offset(s, index_at(s, b) + 1) as int
}

pub proof fn lemma_char_width_pos(c: char)
    ensures
        1 <= char_width(c) <= 4,
{
}

pub proof fn lemma_byte_len_concat(a: Seq<char>, b: Seq<char>)
    ensures
        byte_len(a + b) == byte_len(a) + byte_len(b),
    decreases b.len(),
{
    if b.len() == 0 {
        assert(a + b =~= a);
    } else {
        assert((a + b).drop_last() =~= a + b.drop_last());
        assert((a + b).last() == b.last());
        lemma_byte_len_concat(a, b.drop_last());
    }
}

pub proof fn lemma_byte_len_single(c: char)
    ensures
        byte_len(seq![c]) == char_width(c),
{
    assert(seq![c].drop_last() =~= Seq::<char>::empty());
    assert(byte_len(Seq::<char>::empty()) == 0);
    assert(seq![c].last() == c);
}

pub proof fn lemma_offset_step(s: Seq<char>, k: int)
    requires
        0 <= k < s.len(),
    ensures
        offset(s, k + 1) == offset(s, k) + char_width(s[k]),
{
    assert(s.take(k + 1).drop_last() =~= s.take(k));
}

pub proof fn lemma_offset_zero_end(s: Seq<char>)
    ensures
        offset(s, 0) == 0,
        offset(s, s.len() as int) == byte_len(s),
{
    assert(s.take(0) =~= Seq::<char>::empty());
    assert(s.take(s.len() as int) =~= s);
}

/// Boundaries grow strictly with the number of characters before them.
pub proof fn lemma_offset_strict(s: Seq<char>, i: int, j: int)
    requires
        0 <= i < j <= s.len(),
    ensures
        offset(s, i) + (j - i) <= offset(s, j),
        offset(s, j) <= offset(s, i) + 4 * (j - i),
    decreases j - i,
{
    lemma_offset_step(s, j - 1);
    lemma_char_width_pos(s[j - 1]);
    if i < j - 1 {
        lemma_offset_strict(s, i, j - 1);
    }
}

pub proof fn lemma_offset_le(s: Seq<char>, i: int, j: int)
    requires
        0 <= i <= j <= s.len(),
    ensures
        offset(s, i) <= offset(s, j),
{
    if i < j {
        lemma_offset_strict(s, i, j);
    }
}

/// A boundary names exactly one character position.
pub proof fn lemma_index_at(s: Seq<char>, k: int)
    requires
        0 <= k <= s.len(),
    ensures
        is_boundary(s, offset(s, k) as int),
        index_at(s, offset(s, k) as int) == k,
{
    let b = offset(s, k) as int;
    assert(is_boundary(s, b));
    let j = index_at(s, b);
    if j < k {
        lemma_offset_strict(s, j, k);
    } else if k < j {
        lemma_offset_strict(s, k, j);
    }
}

/// The facts about a boundary `b` that follow from its index.
pub proof fn lemma_boundary(s: Seq<char>, b: int)
    requires
        is_boundary(s, b),
    ensures
        0 <= index_at(s, b) <= s.len(),
        offset(s, index_at(s, b)) == b,
        0 <= b <= byte_len(s),
        b == 0 <==> index_at(s, b) == 0,
        b == byte_len(s) <==> index_at(s, b) == s.len(),
{
    let k = index_at(s, b);
    lemma_offset_zero_end(s);
    lemma_offset_le(s, 0, k);
    lemma_offset_le(s, k, s.len() as int);
    if k > 0 {
        lemma_offset_strict(s, 0, k);
    }
    if k < s.len() {
        lemma_offset_strict(s, k, s.len() as int);
    }
}

/// The byte length of a character sequence is the length of its UTF-8
/// encoding.
pub proof fn lemma_encode_len(s: Seq<char>)
    ensures
        vstd::utf8::encode_utf8(s).len() == byte_len(s),
    decreases s.len(),
{
    if s.len() > 0 {
        vstd::utf8::char_is_scalar(s[0]);
        lemma_encode_len(s.drop_first());
        assert(s =~= seq![s[0]] + s.drop_first());
        lemma_byte_len_concat(seq![s[0]], s.drop_first());
        lemma_byte_len_single(s[0]);
    }
}

/// Length in bytes of a string slice.
pub fn byte_length(s: &str) -> (n: usize)
    ensures
        n == byte_len(s@),
{
    let bytes = s.as_bytes();
    proof {
        lemma_encode_len(s@);
    }
    bytes.len()
}

/// The number of characters before the byte offset `b`, when `b` is a
/// character boundary of `v`.
pub fn char_index(v: &Vec<char>, b: usize) -> (r: Option<usize>)
    ensures
        r is Some <==> is_boundary(v@, b as int),
        r matches Some(k) ==> k == index_at(v@, b as int) && k <= v.len() && offset(v@, k as int) == b,
{
    let mut k: usize = 0;
    let mut off: usize = 0;
    proof {
        lemma_offset_zero_end(v@);
    }
    while k < v.len()
        invariant
            k <= v.len(),
            off == offset(v@, k as int),
            off <= b,
        decreases v.len() - k,
    {
        if off == b {
            proof {
                lemma_index_at(v@, k as int);
            }
            return Some(k);
        }
        let w = utf8_width(v[k]);
        proof {
            lemma_offset_step(v@, k as int);
        }
        if w > b - off {
            proof {
                assert forall|j: int| 0 <= j <= v.len() implies #[trigger] offset(v@, j) != b by {
                    if j <= k {
                        lemma_offset_le(v@, j, k as int);
                        if j < k {
                            lemma_offset_strict(v@, j, k as int);
                        }
                    } else {
                        lemma_offset_le(v@, k + 1, j);
                    }
                }
            }
            return None;
        }
        off = off + w;
        k = k + 1;
    }
    if off == b {
        proof {
            lemma_index_at(v@, k as int);
        }
        Some(k)
    } else {
        proof {
            assert forall|j: int| 0 <= j <= v.len() implies #[trigger] offset(v@, j) != b by {
                if j < k {
                    lemma_offset_strict(v@, j, k as int);
                }
            }
        }
        None
    }
}

/// The UTF-8 width of a character, as `char::len_utf8` gives it.
pub fn utf8_width(c: char) -> (w: usize)
    ensures
        w == char_width(c),
        1 <= w <= 4,
{
    let u = c as u32;
    if u <= 0x7f {
        1
    } else if u <= 0x7ff {
        2
    } else if u <= 0xffff {
        3
    } else {
        4
    }
}

/// Appends one character to a string (`String::push`).
#[verifier::external_body]
pub(crate) fn push_char(s: &mut String, c: char)
    ensures
        final(s)@ == old(s)@.push(c),
{
    s.push(c);
}

/// The characters of `s`, in order.
pub fn chars_of(s: &str) -> (v: Vec<char>)
    ensures
        v@ == s@,
{
    let n = s.unicode_len();
    let mut v: Vec<char> = Vec::new();
    let mut i: usize = 0;
    while i < n
        invariant
            n == s@.len(),
            i <= n,
            v@ == s@.take(i as int),
        decreases n - i,
    {
        let c = s.get_char(i);
        v.push(c);
        assert(s@.take(i + 1) == s@.take(i as int).push(c));
        i = i + 1;
    }
    assert(s@.take(n as int) == s@);
    v
}

/// A string holding the characters of `v`.
pub fn string_of(v: &Vec<char>) -> (s: String)
    ensures
        s@ == v@,
{
    let mut s = String::new();
    let mut i: usize = 0;
    while i < v.len()
        invariant
            i <= v.len(),
            s@ == v@.take(i as int),
        decreases v.len() - i,
    {
        push_char(&mut s, v[i]);
        assert(v@.take(i + 1) == v@.take(i as int).push(v@[i as int]));
        i = i + 1;
    }
    assert(v@.take(v.len() as int) == v@);
    s
}

/// Appends the characters `v[lo..hi]` to `out`.
fn append_chars(out: &mut String, v: &Vec<char>, lo: usize, hi: usize)
    requires
        lo <= hi <= v.len(),
    ensures
        final(out)@ == old(out)@ + v@.subrange(lo as int, hi as int),
{
    let ghost start = out@;
    let mut i: usize = lo;
    while i < hi
        invariant
            lo <= i <= hi <= v.len(),
            out@ == start + v@.subrange(lo as int, i as int),
        decreases hi - i,
    {
        push_char(out, v[i]);
        assert(v@.subrange(lo as int, i + 1) == v@.subrange(lo as int, i as int).push(v@[i as int]));
        i = i + 1;
    }
}

/// `s` with the bytes `from..to` replaced by `ins`; both ends must be
/// character boundaries, as `String::replace_range` demands.
pub fn splice_string(s: &str, from: usize, to: usize, ins: &str) -> (r: String)
    requires
        is_boundary(s@, from as int),
        is_boundary(s@, to as int),
        from <= to,
    ensures
        r@ == splice(s@, from as int, to as int, ins@),
{
    let v = chars_of(s);
    let i = char_index(&v, from).unwrap();
    let j = char_index(&v, to).unwrap();
    proof {
        if j < i {
            lemma_offset_strict(v@, j as int, i as int);
        }
    }
    let mut r = String::new();
    append_chars(&mut r, &v, 0, i);
    r.append(ins);
    append_chars(&mut r, &v, j, v.len());
    proof {
        assert(v@.subrange(0, i as int) =~= head(s@, from as int));
        assert(v@.subrange(j as int, v.len() as int) =~= rest(s@, to as int));
        assert(Seq::<char>::empty() + head(s@, from as int) =~= head(s@, from as int));
    }
    r
}

/// Whether `b` is a character boundary of `s`, as `str::is_char_boundary`
/// tells it.
pub fn boundary_at(s: &str, b: usize) -> (r: bool)
    ensures
        r == is_boundary(s@, b as int),
{
    let v = chars_of(s);
    char_index(&v, b).is_some()
}

/// The characters of `s` before the boundary `b`, as `&s[..b]` gives them.
pub fn head_of(s: &str, b: usize) -> (r: String)
    requires
        is_boundary(s@, b as int),
    ensures
        r@ == head(s@, b as int),
{
    let v = chars_of(s);
    let i = char_index(&v, b).unwrap();
    let mut r = String::new();
    append_chars(&mut r, &v, 0, i);
    assert(Seq::<char>::empty() + v@.subrange(0, i as int) =~= head(s@, b as int));
    r
}

/// The characters of `s` from the boundary `b` on, as `&s[b..]` gives them.
pub fn rest_of(s: &str, b: usize) -> (r: String)
    requires
        is_boundary(s@, b as int),
    ensures
        r@ == rest(s@, b as int),
{
    let v = chars_of(s);
    let i = char_index(&v, b).unwrap();
    let mut r = String::new();
    append_chars(&mut r, &v, i, v.len());
    assert(Seq::<char>::empty() + v@.subrange(i as int, v.len() as int) =~= rest(s@, b as int));
    r
}

/// The boundary just before the boundary `b > 0`.
pub fn prev_boundary_of(s: &str, b: usize) -> (p: usize)
    requires
        is_boundary(s@, b as int),
        b > 0,
    ensures
        p == prev_boundary(s@, b as int),
        is_boundary(s@, p as int),
        index_at(s@, p as int) == index_at(s@, b as int) - 1,
        p < b,
{
    let v = chars_of(s);
    let k = char_index(&v, b).unwrap();
    proof {
        lemma_boundary(s@, b as int);
        lemma_offset_step(v@, k - 1);
        lemma_index_at(v@, k - 1);
    }
    b - utf8_width(v[k - 1])
}

/// The boundary just after the boundary `b`, which must lie before the end.
pub fn next_boundary_of(s: &str, b: usize) -> (n: usize)
    requires
        is_boundary(s@, b as int),
        b < byte_len(s@),
    ensures
        n == next_boundary(s@, b as int),
        is_boundary(s@, n as int),
        index_at(s@, n as int) == index_at(s@, b as int) + 1,
        b < n <= byte_len(s@),
{
    let v = chars_of(s);
    let len = byte_length(s);
    let k = char_index(&v, b).unwrap();
    proof {
        lemma_boundary(s@, b as int);
        lemma_offset_step(v@, k as int);
        lemma_index_at(v@, k + 1);
        lemma_offset_zero_end(v@);
        lemma_offset_le(v@, k + 1, v.len() as int);
    }
    b + utf8_width(v[k])
}

/// The boundary before a non-zero boundary is a boundary, one character back.
pub proof fn lemma_prev_boundary(s: Seq<char>, b: int)
    requires
        is_boundary(s, b),
        b > 0,
    ensures
        is_boundary(s, prev_boundary(s, b)),
        index_at(s, prev_boundary(s, b)) == index_at(s, b) - 1,
        0 <= prev_boundary(s, b) < b,
        b == prev_boundary(s, b) + char_width(s[index_at(s, b) - 1]),
{
    let k = index_at(s, b);
    lemma_boundary(s, b);
    lemma_offset_step(s, k - 1);
    lemma_index_at(s, k - 1);
}

/// The boundary after a boundary short of the end is a boundary, one
/// character on.
pub proof fn lemma_next_boundary(s: Seq<char>, b: int)
    requires
        is_boundary(s, b),
        b < byte_len(s),
    ensures
        is_boundary(s, next_boundary(s, b)),
        index_at(s, next_boundary(s, b)) == index_at(s, b) + 1,
        b < next_boundary(s, b) <= byte_len(s),
        next_boundary(s, b) == b + char_width(s[index_at(s, b)]),
{
    let k = index_at(s, b);
    lemma_boundary(s, b);
    lemma_offset_step(s, k);
    lemma_index_at(s, k + 1);
    lemma_offset_zero_end(s);
    lemma_offset_le(s, k + 1, s.len() as int);
}

/// `c` is white space in the sense of Unicode's `White_Space` property,
/// which is what `char::is_whitespace` and `str::trim` go by.
pub open spec fn is_white(c: char) -> bool {
    let u = c as u32;
    ||| 0x9 <= u <= 0xd
    ||| u == 0x20
    ||| u == 0x85
    ||| u == 0xa0
    ||| u == 0x1680
    ||| 0x2000 <= u <= 0x200a
    ||| u == 0x2028
    ||| u == 0x2029
    ||| u == 0x202f
    ||| u == 0x205f
    ||| u == 0x3000
}

/// `s` without its leading white space.
pub open spec fn trim_start(s: Seq<char>) -> Seq<char>
    decreases s.len(),
{
    if s.len() > 0 && is_white(s[0]) {
        trim_start(s.drop_first())
    } else {
        s
    }
}

/// `s` without its trailing white space.
pub open spec fn trim_end(s: Seq<char>) -> Seq<char>
    decreases s.len(),
{
    if s.len() > 0 && is_white(s.last()) {
        trim_end(s.drop_last())
    } else {
        s
    }
}

/// `s` without leading and trailing white space, as `str::trim` gives it.
pub open spec fn trim(s: Seq<char>) -> Seq<char> {
    trim_end(trim_start(s))
}

/// Whether `c` is white space.
pub fn is_white_char(c: char) -> (b: bool)
    ensures
        b == is_white(c),
{
    let u = c as u32;
    (0x9 <= u && u <= 0xd) || u == 0x20 || u == 0x85 || u == 0xa0 || u == 0x1680 || (0x2000 <= u
        && u <= 0x200a) || u == 0x2028 || u == 0x2029 || u == 0x202f || u == 0x205f || u == 0x3000
}

/// `s` with leading and trailing white space removed.
pub fn trimmed(s: &str) -> (r: String)
    ensures
        r@ == trim(s@),
{
    let v = chars_of(s);
    let n = v.len();
    let mut i: usize = 0;
    assert(v@.skip(0) =~= v@);
    while i < n && is_white_char(v[i])
        invariant
            n == v.len(),
            i <= n,
            trim_start(v@) == trim_start(v@.skip(i as int)),
        decreases n - i,
    {
        assert(v@.skip(i as int).drop_first() =~= v@.skip(i + 1));
        i = i + 1;
    }
    assert(trim_start(v@) == v@.subrange(i as int, n as int)) by {
        assert(v@.skip(i as int) =~= v@.subrange(i as int, n as int));
    }
    let mut j: usize = n;
    while j > i && is_white_char(v[j - 1])
        invariant
            n == v.len(),
            i <= j <= n,
            trim(v@) == trim_end(v@.subrange(i as int, j as int)),
        decreases j,
    {
        assert(v@.subrange(i as int, j as int).drop_last() =~= v@.subrange(i as int, j - 1));
        j = j - 1;
    }
    let mut r = String::new();
    append_chars(&mut r, &v, i, j);
    assert(Seq::<char>::empty() + v@.subrange(i as int, j as int) =~= v@.subrange(i as int, j as int));
    r
}

/// `s` with the bytes `from..to` removed.
pub fn remove_bytes(s: &str, from: usize, to: usize) -> (r: String)
    requires
        is_boundary(s@, from as int),
        is_boundary(s@, to as int),
        from <= to,
    ensures
        r@ == splice(s@, from as int, to as int, Seq::empty()),
{
    let e = String::new();
    splice_string(s, from, to, e.as_str())
}

/// `p` is a prefix of `s`.
pub open spec fn starts_with(s: Seq<char>, p: Seq<char>) -> bool {
    p.len() <= s.len() && s.take(p.len() as int) == p
}

/// Whether `s` starts with `p`.
pub fn has_prefix(s: &str, p: &str) -> (b: bool)
    ensures
        b == starts_with(s@, p@),
{
    let v = chars_of(s);
    let w = chars_of(p);
    if w.len() > v.len() {
        return false;
    }
    let mut i: usize = 0;
    while i < w.len()
        invariant
            v@ == s@,
            w@ == p@,
            w.len() <= v.len(),
            i <= w.len(),
            forall|j: int| 0 <= j < i ==> v@[j] == w@[j],
        decreases w.len() - i,
    {
        if v[i] != w[i] {
            assert(s@.take(p@.len() as int)[i as int] != p@[i as int]);
            return false;
        }
        i = i + 1;
    }
    assert(v@.take(w.len() as int) =~= w@);
    true
}

/// Whether `c` occurs in `s`.
pub fn has_char(s: &str, c: char) -> (b: bool)
    ensures
        b == s@.contains(c),
{
    let v = chars_of(s);
    let mut i: usize = 0;
    while i < v.len()
        invariant
            v@ == s@,
            i <= v.len(),
            forall|j: int| 0 <= j < i ==> v@[j] != c,
        decreases v.len() - i,
    {
        if v[i] == c {
            assert(s@[i as int] == c);
            return true;
        }
        i = i + 1;
    }
    false
}

/// Whether `a` and `b` hold the same characters.
pub fn same_text(a: &str, b: &str) -> (r: bool)
    ensures
        r == (a@ == b@),
{
    let v = chars_of(a);
    let w = chars_of(b);
    if v.len() != w.len() {
        return false;
    }
    let mut i: usize = 0;
    while i < v.len()
        invariant
            v@ == a@,
            w@ == b@,
            v.len() == w.len(),
            i <= v.len(),
            forall|j: int| 0 <= j < i ==> v@[j] == w@[j],
        decreases v.len() - i,
    {
        if v[i] != w[i] {
            assert(a@[i as int] != b@[i as int]);
            return false;
        }
        i = i + 1;
    }
    assert(a@ =~= b@);
    true
}

/// `p` occurs in `s` as a run of consecutive characters.
pub open spec fn contains_text(s: Seq<char>, p: Seq<char>) -> bool {
    exists|i: int| 0 <= i <= s.len() - p.len() && #[trigger] s.subrange(i, i + p.len()) == p
}

/// Whether `p` occurs in `s`.
pub fn has_text(s: &str, p: &str) -> (b: bool)
    ensures
        b == contains_text(s@, p@),
{
    let v = chars_of(s);
    let w = chars_of(p);
    if w.len() > v.len() {
        return false;
    }
    let last = v.len() - w.len();
    let mut i: usize = 0;
    while i <= last
        invariant
            v@ == s@,
            w@ == p@,
            last == v.len() - w.len(),
            i <= last + 1,
            forall|k: int| 0 <= k < i ==> #[trigger] s@.subrange(k, k + p@.len()) != p@,
        decreases last + 1 - i,
    {
        let mut j: usize = 0;
        let mut same = true;
        while j < w.len()
            invariant
                v@ == s@,
                w@ == p@,
                i + w.len() <= v.len(),
                j <= w.len(),
                same == forall|t: int| 0 <= t < j ==> v@[i + t] == w@[t],
            decreases w.len() - j,
        {
            if v[i + j] != w[j] {
                same = false;
            }
            j = j + 1;
        }
        if same {
            assert(s@.subrange(i as int, i + p@.len()) =~= p@);
            return true;
        }
        assert(s@.subrange(i as int, i + p@.len()) != p@) by {
            let t = choose|t: int| 0 <= t < w.len() && v@[i + t] != w@[t];
            assert(s@.subrange(i as int, i + p@.len())[t] != p@[t]);
        }
        i = i + 1;
    }
    false
}

/// Trimming keeps one run of consecutive characters of `s` that neither
/// starts nor ends with white space, and everything it cuts off on either
/// side is white space.
pub proof fn law_trim(s: Seq<char>)
    ensures
        exists|i: int, j: int|
            0 <= i <= j <= s.len() && trim(s) == #[trigger] s.subrange(i, j) && (forall|k: int|
                0 <= k < i ==> is_white(#[trigger] s[k])) && (forall|k: int|
                j <= k < s.len() ==> is_white(#[trigger] s[k])) && (i < j ==> !is_white(s[i])
                && !is_white(s[j - 1])),
{
    let i = lemma_trim_start(s, 0);
    let j = lemma_trim_end(s, i, s.len() as int);
    assert(trim(s) == s.subrange(i, j));
}

proof fn lemma_trim_start(s: Seq<char>, from: int) -> (r: int)
    requires
        0 <= from <= s.len(),
        forall|k: int| 0 <= k < from ==> is_white(#[trigger] s[k]),
    ensures
        from <= r <= s.len(),
        trim_start(s.subrange(from, s.len() as int)) == s.subrange(r, s.len() as int),
        trim_start(s) == s.subrange(r, s.len() as int),
        forall|k: int| 0 <= k < r ==> is_white(#[trigger] s[k]),
        r < s.len() ==> !is_white(s[r]),
    decreases s.len() - from,
{
    lemma_trim_start_skip(s, from);
    let t = s.subrange(from, s.len() as int);
    if from < s.len() && is_white(s[from]) {
        assert(t.drop_first() =~= s.subrange(from + 1, s.len() as int));
        lemma_trim_start(s, from + 1)
    } else {
        from
    }
}

proof fn lemma_trim_start_skip(s: Seq<char>, from: int)
    requires
        0 <= from <= s.len(),
        forall|k: int| 0 <= k < from ==> is_white(#[trigger] s[k]),
    ensures
        trim_start(s) == trim_start(s.subrange(from, s.len() as int)),
    decreases from,
{
    if from == 0 {
        assert(s.subrange(0, s.len() as int) =~= s);
    } else {
        lemma_trim_start_skip(s, from - 1);
        let t = s.subrange(from - 1, s.len() as int);
        assert(t[0] == s[from - 1]);
        assert(t.drop_first() =~= s.subrange(from, s.len() as int));
    }
}

proof fn lemma_trim_end(s: Seq<char>, i: int, to: int) -> (j: int)
    requires
        0 <= i <= to <= s.len(),
        forall|k: int| to <= k < s.len() ==> is_white(#[trigger] s[k]),
        trim(s) == trim_end(s.subrange(i, to)),
    ensures
        i <= j <= to,
        trim(s) == s.subrange(i, j),
        forall|k: int| j <= k < s.len() ==> is_white(#[trigger] s[k]),
        i < j ==> !is_white(s[j - 1]),
    decreases to - i,
{
    let t = s.subrange(i, to);
    if to > i && is_white(s[to - 1]) {
        assert(t.last() == s[to - 1]);
        assert(t.drop_last() =~= s.subrange(i, to - 1));
        lemma_trim_end(s, i, to - 1)
    } else {
        if to > i {
            assert(t.last() == s[to - 1]);
        }
        to
    }
}

/// `p` is a prefix of `s` exactly when `s` is `p` followed by something.
pub proof fn law_starts_with(s: Seq<char>, p: Seq<char>)
    ensures
        starts_with(s, p) <==> exists|t: Seq<char>| s == p + t,
{
    if starts_with(s, p) {
        assert(s =~= p + s.skip(p.len() as int));
    }
    if exists|t: Seq<char>| s == p + t {
        let t = choose|t: Seq<char>| s == p + t;
        assert(s.take(p.len() as int) =~= p);
    }
}

/// `p` occurs in `s` exactly when `s` is something, then `p`, then
/// something.
pub proof fn law_contains_text(s: Seq<char>, p: Seq<char>)
    ensures
        contains_text(s, p) <==> exists|a: Seq<char>, b: Seq<char>| s == a + p + b,
{
    if contains_text(s, p) {
        let i = choose|i: int| 0 <= i <= s.len() - p.len() && #[trigger] s.subrange(i, i + p.len()) == p;
        assert(s =~= s.take(i) + p + s.skip(i + p.len()));
    }
    if exists|a: Seq<char>, b: Seq<char>| s == a + p + b {
        let (a, b) = choose|a: Seq<char>, b: Seq<char>| s == a + p + b;
        assert(s.subrange(a.len() as int, (a.len() + p.len()) as int) =~= p);
    }
}

/// Among ASCII characters, the white space is exactly the space and the
/// control characters from tab to carriage return.
pub proof fn law_ascii_white(c: char)
    requires
        (c as u32) < 128,
    ensures
        is_white(c) <==> (c == ' ' || ('\t' <= c <= '\r')),
{
}

} // verus!
