//! Searching byte strings, and the few text conversions the crate needs.

use vstd::prelude::*;
use vstd::utf8::*;

verus! {

/// `needle` stands in `hay` at index `i`.
pub open spec fn occurs_at(hay: Seq<u8>, needle: Seq<u8>, i: int) -> bool {
    &&& 0 <= i
    &&& i + needle.len() <= hay.len()
    &&& hay.subrange(i, i + needle.len()) == needle
}

/// `needle` stands in `hay` at `i` and nowhere before.
pub open spec fn is_first_occurrence(hay: Seq<u8>, needle: Seq<u8>, i: int) -> bool {
    &&& occurs_at(hay, needle, i)
    &&& forall|j: int| 0 <= j < i ==> !occurs_at(hay, needle, j)
}

/// `needle` stands in `hay` at `i` and nowhere after.
pub open spec fn is_last_occurrence(hay: Seq<u8>, needle: Seq<u8>, i: int) -> bool {
    &&& occurs_at(hay, needle, i)
    &&& forall|j: int| i < j ==> !occurs_at(hay, needle, j)
}

/// The least index at which `needle` stands in `hay`, if there is one.
pub open spec fn first_occurrence(hay: Seq<u8>, needle: Seq<u8>) -> Option<int> {
    if exists|i: int| occurs_at(hay, needle, i) {
        Some(choose|i: int| is_first_occurrence(hay, needle, i))
    } else {
        None
    }
}

/// The greatest index at which `needle` stands in `hay`, if there is one.
pub open spec fn last_occurrence(hay: Seq<u8>, needle: Seq<u8>) -> Option<int> {
    if exists|i: int| occurs_at(hay, needle, i) {
        Some(choose|i: int| is_last_occurrence(hay, needle, i))
    } else {
        None
    }
}

/// The first and the last occurrence, where there are any, are occurrences:
/// the first the least, the last the greatest.
pub proof fn lemma_occurrence(hay: Seq<u8>, needle: Seq<u8>)
    ensures
        first_occurrence(hay, needle) matches Some(i) ==> is_first_occurrence(hay, needle, i),
        last_occurrence(hay, needle) matches Some(i) ==> is_last_occurrence(hay, needle, i),
        first_occurrence(hay, needle) is Some <==> last_occurrence(hay, needle) is Some,
        first_occurrence(hay, needle) is None ==> forall|i: int| !occurs_at(hay, needle, i),
{
    if exists|i: int| occurs_at(hay, needle, i) {
        let some = choose|i: int| occurs_at(hay, needle, i);
        lemma_least_occurrence(hay, needle, some);
        lemma_greatest_occurrence(hay, needle, some);
    }
}

/// Below an occurrence lies a first occurrence.
proof fn lemma_least_occurrence(hay: Seq<u8>, needle: Seq<u8>, at: int)
    requires
        occurs_at(hay, needle, at),
    ensures
        exists|i: int| is_first_occurrence(hay, needle, i),
    decreases at,
{
    if exists|j: int| 0 <= j < at && occurs_at(hay, needle, j) {
        let j = choose|j: int| 0 <= j < at && occurs_at(hay, needle, j);
        lemma_least_occurrence(hay, needle, j);
    } else {
        assert(is_first_occurrence(hay, needle, at));
    }
}

/// Above an occurrence lies a last occurrence.
proof fn lemma_greatest_occurrence(hay: Seq<u8>, needle: Seq<u8>, at: int)
    requires
        occurs_at(hay, needle, at),
    ensures
        exists|i: int| is_last_occurrence(hay, needle, i),
    decreases hay.len() - at,
{
    if exists|j: int| at < j && occurs_at(hay, needle, j) {
        let j = choose|j: int| at < j && occurs_at(hay, needle, j);
        lemma_greatest_occurrence(hay, needle, j);
    } else {
        assert(is_last_occurrence(hay, needle, at));
    }
}

/// An index that is a first occurrence is the first occurrence.
pub proof fn lemma_first_occurrence_is(hay: Seq<u8>, needle: Seq<u8>, i: int)
    requires
        is_first_occurrence(hay, needle, i),
    ensures
        first_occurrence(hay, needle) == Some(i),
{
    let k = choose|k: int| is_first_occurrence(hay, needle, k);
    assert(occurs_at(hay, needle, k));
    if k < i {
        assert(!occurs_at(hay, needle, k));
    }
    if i < k {
        assert(!occurs_at(hay, needle, i));
    }
}

/// An index that is a last occurrence is the last occurrence.
pub proof fn lemma_last_occurrence_is(hay: Seq<u8>, needle: Seq<u8>, i: int)
    requires
        is_last_occurrence(hay, needle, i),
    ensures
        last_occurrence(hay, needle) == Some(i),
{
    let k = choose|k: int| is_last_occurrence(hay, needle, k);
    assert(occurs_at(hay, needle, k));
    if k < i {
        assert(!occurs_at(hay, needle, i));
    }
    if i < k {
        assert(!occurs_at(hay, needle, k));
    }
}

/// Whether `needle` stands in `hay` at `at`.
pub fn matches_at(hay: &[u8], needle: &[u8], at: usize) -> (r: bool)
    ensures
        r == occurs_at(hay@, needle@, at as int),
{
    let n: usize = hay.len();
    let m: usize = needle.len();
    if at > n || m > n - at {
        return false;
    }
    let mut k: usize = 0;
    while k < m
        invariant
            n == hay@.len(),
            m == needle@.len(),
            at + m <= n,
            k <= m,
            forall|j: int| 0 <= j < k ==> hay@[at + j] == needle@[j],
        decreases m - k,
    {
        if hay[at + k] != needle[k] {
            assert(hay@.subrange(at as int, at + m)[k as int] != needle@[k as int]);
            return false;
        }
        k += 1;
    }
    assert(hay@.subrange(at as int, at + m) =~= needle@);
    true
}

/// The first place where `needle` stands in `hay`, as `str::find` gives it for
/// a pattern that is a string.
pub fn find_first(hay: &[u8], needle: &[u8]) -> (r: Option<usize>)
    ensures
        r matches Some(i) ==> is_first_occurrence(hay@, needle@, i as int),
        r is None ==> forall|i: int| !occurs_at(hay@, needle@, i),
        match r {
            Some(i) => first_occurrence(hay@, needle@) == Some(i as int),
            None => first_occurrence(hay@, needle@) is None,
        },
{
    let n: usize = hay.len();
    let m: usize = needle.len();
    if m > n {
        return None;
    }
    let last: usize = n - m;
    let mut i: usize = 0;
    loop
        invariant
            n == hay@.len(),
            m == needle@.len(),
            last == n - m,
            i <= last,
            forall|j: int| 0 <= j < i ==> !occurs_at(hay@, needle@, j),
        decreases last - i,
    {
        if matches_at(hay, needle, i) {
            proof {
                lemma_first_occurrence_is(hay@, needle@, i as int);
            }
            return Some(i);
        }
        if i == last {
            return None;
        }
        i += 1;
    }
}

/// The last place where `needle` stands in `hay`, as `str::rfind` gives it for
/// a pattern that is a string.
pub fn find_last(hay: &[u8], needle: &[u8]) -> (r: Option<usize>)
    ensures
        r matches Some(i) ==> is_last_occurrence(hay@, needle@, i as int),
        r is None ==> forall|i: int| !occurs_at(hay@, needle@, i),
        match r {
            Some(i) => last_occurrence(hay@, needle@) == Some(i as int),
            None => last_occurrence(hay@, needle@) is None,
        },
{
    let n: usize = hay.len();
    let m: usize = needle.len();
    if m > n {
        return None;
    }
    let mut i: usize = n - m;
    loop
        invariant
            n == hay@.len(),
            m == needle@.len(),
            i <= n - m,
            forall|j: int| i < j ==> !occurs_at(hay@, needle@, j),
        decreases i,
    {
        if matches_at(hay, needle, i) {
            proof {
                lemma_last_occurrence_is(hay@, needle@, i as int);
            }
            return Some(i);
        }
        if i == 0 {
            return None;
        }
        i -= 1;
    }
}

/// Whether two byte strings hold the same bytes.
pub fn bytes_eq(a: &[u8], b: &[u8]) -> (r: bool)
    ensures
        r == (a@ == b@),
{
    if a.len() != b.len() {
        return false;
    }
    let r = matches_at(a, b, 0);
    proof {
        assert(a@.subrange(0, a@.len() as int) =~= a@);
    }
    r
}

/// The index at which the character that ends just before `pos` begins: the
/// nearest index below `pos` whose byte is no UTF-8 continuation byte. It is
/// -1 where no such index exists.
pub open spec fn char_start_before(text: Seq<u8>, pos: int) -> int
    decreases pos,
{
    if pos <= 0 {
        -1
    } else if !is_continuation_byte(text[pos - 1]) {
        pos - 1
    } else {
        char_start_before(text, pos - 1)
    }
}

/// Where there is a character before `pos`, it begins below `pos`, at a byte
/// that is no continuation byte.
pub proof fn lemma_char_start_before(text: Seq<u8>, pos: int)
    requires
        pos <= text.len(),
    ensures
        -1 <= char_start_before(text, pos),
        char_start_before(text, pos) >= 0 ==> char_start_before(text, pos) < pos
            && !is_continuation_byte(text[char_start_before(text, pos)]),
    decreases pos,
{
    if pos > 0 && is_continuation_byte(text[pos - 1]) {
        lemma_char_start_before(text, pos - 1);
    }
}

/// In UTF-8 text, a character that begins at a boundary ends at one.
pub proof fn lemma_boundary_after_char(text: Seq<u8>, at: int)
    requires
        valid_utf8(text),
        is_char_boundary(text, at),
        0 <= at < text.len(),
    ensures
        at + length_of_first_scalar(text.subrange(at, text.len() as int)) <= text.len(),
        is_char_boundary(
            text,
            at + length_of_first_scalar(text.subrange(at, text.len() as int)),
        ),
    decreases text.len(),
{
    reveal_with_fuel(is_char_boundary, 3);
    let rest = pop_first_scalar(text);
    let first = length_of_first_scalar(text);
    if at == 0 {
        assert(text.subrange(0, text.len() as int) =~= text);
        assert(is_char_boundary(rest, 0));
    } else {
        assert(is_char_boundary(rest, at - first));
        assert(rest.subrange(at - first, rest.len() as int) =~= text.subrange(
            at,
            text.len() as int,
        ));
        lemma_boundary_after_char(rest, at - first);
    }
}

/// In UTF-8 text, a boundary lies after every ASCII byte.
pub proof fn lemma_boundary_after_ascii(text: Seq<u8>, at: int)
    requires
        valid_utf8(text),
        0 <= at < text.len(),
        text[at] < 0x80,
    ensures
        is_char_boundary(text, at + 1),
{
    is_char_boundary_iff_not_is_continuation_byte(text, at);
    lemma_boundary_after_char(text, at);
    assert(text.subrange(at, text.len() as int)[0] == text[at]);
}

/// In UTF-8 text, what lies between two boundaries is UTF-8 text.
pub proof fn lemma_window_is_text(text: Seq<u8>, from: int, to: int)
    requires
        valid_utf8(text),
        0 <= from <= to <= text.len(),
        is_char_boundary(text, from),
        is_char_boundary(text, to),
    ensures
        valid_utf8(text.subrange(from, to)),
{
    valid_utf8_split(text, from);
    let tail = text.subrange(from, text.len() as int);
    if to == text.len() {
        is_char_boundary_start_end_of_seq(tail);
    } else {
        is_char_boundary_iff_not_is_continuation_byte(text, to);
        assert(tail[to - from] == text[to]);
        is_char_boundary_iff_not_is_continuation_byte(tail, to - from);
    }
    valid_utf8_split(tail, to - from);
    assert(tail.subrange(0, to - from) =~= text.subrange(from, to));
}

/// Steps one character back from `pos`.
pub fn step_back(text: &[u8], pos: usize) -> (r: Option<usize>)
    requires
        pos <= text@.len(),
    ensures
        match r {
            Some(i) => i as int == char_start_before(text@, pos as int),
            None => char_start_before(text@, pos as int) == -1,
        },
        r matches Some(i) ==> i < pos,
{
    let mut i: usize = pos;
    while i > 0
        invariant
            i <= pos,
            pos <= text@.len(),
            char_start_before(text@, i as int) == char_start_before(text@, pos as int),
        decreases i,
    {
        i -= 1;
        let b: u8 = text[i];
        if !(0x80 <= b && b <= 0xbf) {
            return Some(i);
        }
    }
    None
}

/// `String::from_utf8`, with the error reduced to `None`. The bytes become a
/// string exactly when they are well-formed UTF-8, and the string then encodes
/// to those bytes.
#[verifier::external_body]
pub(crate) fn string_from_utf8(bytes: Vec<u8>) -> (r: Option<String>)
    ensures
        r is Some <==> valid_utf8(bytes@),
        r matches Some(s) ==> encode_utf8(s@) == bytes@,
{
    String::from_utf8(bytes).ok()
}

/// `String::push`: the string grows by the one character at its end.
#[verifier::external_body]
pub(crate) fn push_char(s: &mut String, c: char)
    ensures
        final(s)@ == old(s)@.push(c),
{
    s.push(c)
}

} // verus!
