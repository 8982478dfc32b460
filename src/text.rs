//! Small string operations over the character view of `str` and `String`.
use vstd::prelude::*;
use vstd::string::StrSliceExecFns;
use vstd::string::StringExecFns;

verus! {

/// The character views of a sequence of strings.
pub open spec fn views(v: Seq<String>) -> Seq<Seq<char>> {
    v.map_values(|x: String| x@)
}

/// The pieces of `s` between single spaces, from left to right: one piece more than
/// there are spaces, empty pieces included.
pub open spec fn split_spaces_spec(s: Seq<char>) -> Seq<Seq<char>>
    decreases s.len(),
{
    if s.len() == 0 {
        seq![Seq::<char>::empty()]
    } else {
        let prev = split_spaces_spec(s.drop_last());
        if s.last() == ' ' {
            prev.push(Seq::<char>::empty())
        } else {
            prev.update(prev.len() - 1, prev.last().push(s.last()))
        }
    }
}

pub proof fn lemma_split_nonempty(s: Seq<char>)
    ensures
        split_spaces_spec(s).len() >= 1,
    decreases s.len(),
{
    if s.len() > 0 {
        lemma_split_nonempty(s.drop_last());
    }
}

/// Compares two strings character by character.
pub fn str_eq(a: &str, b: &str) -> (r: bool)
    ensures
        r == (a@ == b@),
{
    let n = a.unicode_len();
    if n != b.unicode_len() {
        return false;
    }
    let mut i: usize = 0;
    while i < n
        invariant
            n == a@.len(),
            n == b@.len(),
            i <= n,
            a@.subrange(0, i as int) == b@.subrange(0, i as int),
        decreases n - i,
    {
        if a.get_char(i) != b.get_char(i) {
            return false;
        }
        assert(a@.subrange(0, i + 1) == a@.subrange(0, i as int).push(a@[i as int]));
        assert(b@.subrange(0, i + 1) == b@.subrange(0, i as int).push(b@[i as int]));
        i = i + 1;
    }
    assert(a@ == a@.subrange(0, n as int));
    assert(b@ == b@.subrange(0, n as int));
    true
}

/// Splits `s` at every single space.
pub fn split_spaces(s: &str) -> (r: Vec<String>)
    ensures
        views(r@) == split_spaces_spec(s@),
{
    let n = s.unicode_len();
    let mut pieces: Vec<String> = Vec::new();
    let mut start: usize = 0;
    let mut i: usize = 0;
    proof {
        assert(views(pieces@) == Seq::<Seq<char>>::empty());
        assert(s@.subrange(0, 0) == Seq::<char>::empty());
        assert(views(pieces@).push(s@.subrange(0, 0)) == split_spaces_spec(s@.subrange(0, 0)));
    }
    while i < n
        invariant
            n == s@.len(),
            start <= i <= n,
            views(pieces@).push(s@.subrange(start as int, i as int)) == split_spaces_spec(
                s@.subrange(0, i as int),
            ),
        decreases n - i,
    {
        let c = s.get_char(i);
        proof {
            let pre = s@.subrange(0, i + 1);
            assert(pre.drop_last() == s@.subrange(0, i as int));
            assert(pre.last() == c);
        }
        if c == ' ' {
            let piece = String::from_str(s.substring_char(start, i));
            proof {
                assert(views(pieces@.push(piece)) == views(pieces@).push(piece@));
                assert(s@.subrange(i + 1, i + 1) == Seq::<char>::empty());
            }
            pieces.push(piece);
            start = i + 1;
        } else {
            proof {
                assert(s@.subrange(start as int, i + 1) == s@.subrange(start as int, i as int).push(
                    c,
                ));
            }
        }
        i = i + 1;
    }
    let last = String::from_str(s.substring_char(start, n));
    proof {
        assert(views(pieces@.push(last)) == views(pieces@).push(last@));
        assert(s@.subrange(0, n as int) == s@);
    }
    pieces.push(last);
    pieces
}

/// `pat` occurs in `s` at position `i`.
pub open spec fn occurs_at(s: Seq<char>, pat: Seq<char>, i: int) -> bool {
    0 <= i && i + pat.len() <= s.len() && s.subrange(i, i + pat.len()) == pat
}

/// `s` with its leftmost occurrence of `from` replaced by `to`; `s` itself when
/// `from` does not occur.
pub open spec fn replace_first_spec(s: Seq<char>, from: Seq<char>, to: Seq<char>) -> Seq<char> {
    if exists|i: int| occurs_at(s, from, i) {
        let i = choose|i: int|
            occurs_at(s, from, i) && forall|j: int| occurs_at(s, from, j) ==> i <= j;
        s.subrange(0, i) + to + s.subrange(i + from.len(), s.len() as int)
    } else {
        s
    }
}

/// Relies on str::replacen with a count of one: it replaces the first (leftmost)
/// match of `from` by `to` and keeps the rest.
#[verifier::external_body]
pub(crate) fn replace_first(s: &str, from: &str, to: &str) -> (r: String)
    ensures
        r@ == replace_first_spec(s@, from@, to@),
{
    s.replacen(from, to, 1)
}

pub open spec fn has_prefix(s: Seq<char>, prefix: Seq<char>) -> bool {
    prefix.len() <= s.len() && s.subrange(0, prefix.len() as int) == prefix
}

/// Whether `s` begins with `prefix`.
pub fn starts_with(s: &str, prefix: &str) -> (r: bool)
    ensures
        r == has_prefix(s@, prefix@),
{
    let n = prefix.unicode_len();
    if n > s.unicode_len() {
        return false;
    }
    let mut i: usize = 0;
    while i < n
        invariant
            n == prefix@.len(),
            n <= s@.len(),
            i <= n,
            forall|k: int| 0 <= k < i ==> s@[k] == prefix@[k],
        decreases n - i,
    {
        if s.get_char(i) != prefix.get_char(i) {
            assert(s@.subrange(0, n as int)[i as int] != prefix@[i as int]);
            return false;
        }
        i = i + 1;
    }
    assert(s@.subrange(0, n as int) == prefix@);
    true
}

/// Whether `s` holds the character `c`.
pub fn contains_char(s: &str, c: char) -> (r: bool)
    ensures
        r == s@.contains(c),
{
    let n = s.unicode_len();
    let mut i: usize = 0;
    while i < n
        invariant
            n == s@.len(),
            i <= n,
            forall|k: int| 0 <= k < i ==> s@[k] != c,
        decreases n - i,
    {
        if s.get_char(i) == c {
            return true;
        }
        i = i + 1;
    }
    false
}

/// The characters with the Unicode property White_Space.
pub open spec fn is_white_space(c: char) -> bool {
    let u = c as u32;
    (0x9 <= u && u <= 0xd) || u == 0x20 || u == 0x85 || u == 0xa0 || u == 0x1680 || (0x2000 <= u
        && u <= 0x200a) || u == 0x2028 || u == 0x2029 || u == 0x202f || u == 0x205f || u == 0x3000
}

pub fn char_is_white_space(c: char) -> (r: bool)
    ensures
        r == is_white_space(c),
{
    let u = c as u32;
    (0x9 <= u && u <= 0xd) || u == 0x20 || u == 0x85 || u == 0xa0 || u == 0x1680 || (0x2000 <= u
        && u <= 0x200a) || u == 0x2028 || u == 0x2029 || u == 0x202f || u == 0x205f || u == 0x3000
}

/// A text is blank when all its characters are white space (the empty text is).
pub open spec fn is_blank_spec(s: Seq<char>) -> bool {
    forall|i: int| 0 <= i < s.len() ==> is_white_space(#[trigger] s[i])
}

/// Whether `s` holds nothing but white space, so that trimming it leaves nothing.
pub fn is_blank(s: &str) -> (r: bool)
    ensures
        r == is_blank_spec(s@),
{
    let n = s.unicode_len();
    let mut i: usize = 0;
    while i < n
        invariant
            n == s@.len(),
            i <= n,
            forall|k: int| 0 <= k < i ==> is_white_space(#[trigger] s@[k]),
        decreases n - i,
    {
        if !char_is_white_space(s.get_char(i)) {
            return false;
        }
        i = i + 1;
    }
    true
}

/// The lines joined with newlines.
pub open spec fn joined_lines(items: Seq<Seq<char>>) -> Seq<char>
    decreases items.len(),
{
    if items.len() == 0 {
        Seq::empty()
    } else if items.len() == 1 {
        items[0]
    } else {
        joined_lines(items.drop_last()) + "\n"@ + items.last()
    }
}

pub fn join_lines(items: &Vec<String>) -> (r: String)
    ensures
        r@ == joined_lines(views(items@)),
{
    if items.len() == 0 {
        return String::new();
    }
    let mut out = items[0].clone();
    let mut i: usize = 1;
    proof {
        assert(views(items@).subrange(0, 1).drop_last().len() == 0);
    }
    while i < items.len()
        invariant
            1 <= i <= items@.len(),
            out@ == joined_lines(views(items@).subrange(0, i as int)),
        decreases items@.len() - i,
    {
        proof {
            let pre = views(items@).subrange(0, i + 1);
            assert(pre.drop_last() == views(items@).subrange(0, i as int));
            assert(pre.last() == items@[i as int]@);
        }
        out.append("\n");
        out.append(items[i].as_str());
        i = i + 1;
    }
    proof {
        assert(views(items@).subrange(0, items@.len() as int) == views(items@));
    }
    out
}

} // verus!
