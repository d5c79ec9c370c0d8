//! String helpers shared by the rest of the library: equality and ordering of
//! string slices, whitespace trimming, comma splitting and list lookup, each
//! stated over the `Seq<char>` view of a string.

use vstd::prelude::*;
use vstd::string::*;

verus! {

/// View of a list of strings: the sequence of their character sequences.
pub open spec fn views(list: Seq<String>) -> Seq<Seq<char>> {
    Seq::new(list.len(), |i: int| list[i]@)
}

/// The optional text handed to a command, in the model.
pub open spec fn text_view(text: Option<&str>) -> Option<Seq<char>> {
    match text {
        Some(t) => Some(t@),
        None => None,
    }
}

/// Whether `c` is one of the Unicode `White_Space` code points.
pub open spec fn is_whitespace(c: char) -> bool {
    let u = c as u32;
    ||| 0x09 <= u <= 0x0D
    ||| u == 0x20
    ||| u == 0x85
    ||| u == 0xA0
    ||| u == 0x1680
    ||| 0x2000 <= u <= 0x200A
    ||| u == 0x2028
    ||| u == 0x2029
    ||| u == 0x202F
    ||| u == 0x205F
    ||| u == 0x3000
}

/// `s` without its leading whitespace.
pub open spec fn trim_start(s: Seq<char>) -> Seq<char>
    decreases s.len(),
{
    if s.len() > 0 && is_whitespace(s[0]) {
        trim_start(s.drop_first())
    } else {
        s
    }
}

/// `s` without its trailing whitespace.
pub open spec fn trim_end(s: Seq<char>) -> Seq<char>
    decreases s.len(),
{
    if s.len() > 0 && is_whitespace(s.last()) {
        trim_end(s.drop_last())
    } else {
        s
    }
}

/// `s` without leading and trailing whitespace.
pub open spec fn trim(s: Seq<char>) -> Seq<char> {
    trim_end(trim_start(s))
}

/// The pieces of `s` between its commas, in order. There is always one piece
/// more than there are commas, so the empty string has one empty piece.
pub open spec fn split_commas(s: Seq<char>) -> Seq<Seq<char>>
    decreases s.len(),
{
    if s.len() == 0 {
        seq![Seq::<char>::empty()]
    } else if s.last() == ',' {
        split_commas(s.drop_last()).push(Seq::<char>::empty())
    } else {
        let before = split_commas(s.drop_last());
        before.drop_last().push(before.last().push(s.last()))
    }
}

/// The trimmed, non-empty members of `pieces`, in order.
pub open spec fn tokens_of(pieces: Seq<Seq<char>>) -> Seq<Seq<char>>
    decreases pieces.len(),
{
    if pieces.len() == 0 {
        Seq::<Seq<char>>::empty()
    } else {
        let t = trim(pieces.last());
        if t.len() > 0 {
            tokens_of(pieces.drop_last()).push(t)
        } else {
            tokens_of(pieces.drop_last())
        }
    }
}

/// The comma-separated tokens of `s`: split at commas, trimmed, empties dropped.
pub open spec fn comma_tokens(s: Seq<char>) -> Seq<Seq<char>> {
    tokens_of(split_commas(s))
}

/// Strict lexicographic order on character sequences, by code point. On
/// well-formed `YYYY-MM-DD` dates this is the calendar order.
pub open spec fn lex_lt(a: Seq<char>, b: Seq<char>) -> bool
    decreases a.len(),
{
    if b.len() == 0 {
        false
    } else if a.len() == 0 {
        true
    } else if a[0] != b[0] {
        (a[0] as u32) < (b[0] as u32)
    } else {
        lex_lt(a.drop_first(), b.drop_first())
    }
}

/// The least index at which `list` holds `item`, if any.
pub open spec fn first_index_of(list: Seq<Seq<char>>, item: Seq<char>) -> Option<int>
    decreases list.len(),
{
    if list.len() == 0 {
        None
    } else {
        match first_index_of(list.drop_last(), item) {
            Some(i) => Some(i),
            None => if list.last() == item {
                Some(list.len() - 1)
            } else {
                None
            },
        }
    }
}

/// No string occurs twice in `list`.
pub open spec fn no_duplicates(list: Seq<Seq<char>>) -> bool {
    forall|i: int, j: int| 0 <= i < j < list.len() ==> list[i] != list[j]
}

/// `first_index_of` finds the least position of `item`, and finds one exactly
/// when `item` occurs.
pub proof fn lemma_first_index_of(list: Seq<Seq<char>>, item: Seq<char>)
    ensures
        match first_index_of(list, item) {
            Some(i) => 0 <= i < list.len() && list[i] == item && forall|j: int|
                0 <= j < i ==> list[j] != item,
            None => forall|j: int| 0 <= j < list.len() ==> list[j] != item,
        },
        first_index_of(list, item) is Some <==> list.contains(item),
    decreases list.len(),
{
    if list.len() > 0 {
        lemma_first_index_of(list.drop_last(), item);
        let shorter = list.drop_last();
        assert(forall|j: int| 0 <= j < shorter.len() ==> shorter[j] == list[j]);
        match first_index_of(shorter, item) {
            Some(i) => {
                assert(list[i] == item);
            },
            None => {
                if list.last() == item {
                    assert(list[list.len() - 1] == item);
                } else {
                    assert forall|j: int| 0 <= j < list.len() implies list[j] != item by {
                        if j < shorter.len() {
                            assert(shorter[j] == list[j]);
                        }
                    }
                }
            },
        }
    }
}

/// Whether two string slices hold the same characters.
pub fn str_eq(a: &str, b: &str) -> (r: bool)
    ensures
        r == (a@ == b@),
{
    let x = a.as_bytes();
    let y = b.as_bytes();
    proof {
        vstd::utf8::encode_utf8_decode_utf8(a@);
        vstd::utf8::encode_utf8_decode_utf8(b@);
    }
    if x.len() != y.len() {
        return false;
    }
    let mut i: usize = 0;
    while i < x.len()
        invariant
            i <= x.len(),
            x.len() == y.len(),
            x@ == a.spec_bytes(),
            y@ == b.spec_bytes(),
            forall|j: int| 0 <= j < i ==> x@[j] == y@[j],
        decreases x.len() - i,
    {
        if x[i] != y[i] {
            return false;
        }
        i += 1;
    }
    assert(x@ =~= y@);
    true
}

/// The characters of `s`, in order.
pub fn chars_of(s: &str) -> (r: Vec<char>)
    ensures
        r@ == s@,
{
    let mut out: Vec<char> = Vec::new();
    for c in it: s.chars()
        invariant
            out@ == it.seq().take(it.index() as int),
            it.seq() == s@,
    {
        out.push(c);
    }
    out
}

/// Whether `a` comes strictly before `b` in lexicographic order.
pub fn chars_lt(a: &Vec<char>, b: &Vec<char>) -> (r: bool)
    ensures
        r == lex_lt(a@, b@),
{
    let mut i: usize = 0;
    proof {
        assert(a@.skip(0) =~= a@);
        assert(b@.skip(0) =~= b@);
    }
    while i < a.len() && i < b.len()
        invariant
            i <= a.len(),
            i <= b.len(),
            lex_lt(a@, b@) == lex_lt(a@.skip(i as int), b@.skip(i as int)),
        decreases a.len() - i,
    {
        let x = a[i];
        let y = b[i];
        proof {
            assert(a@.skip(i as int).drop_first() =~= a@.skip(i as int + 1));
            assert(b@.skip(i as int).drop_first() =~= b@.skip(i as int + 1));
        }
        if x != y {
            return (x as u32) < (y as u32);
        }
        i += 1;
    }
    i < b.len()
}

/// Whether `c` is whitespace.
pub fn char_is_whitespace(c: char) -> (r: bool)
    ensures
        r == is_whitespace(c),
{
    let u: u32 = c as u32;
    (0x09 <= u && u <= 0x0D) || u == 0x20 || u == 0x85 || u == 0xA0 || u == 0x1680 || (0x2000 <= u
        && u <= 0x200A) || u == 0x2028 || u == 0x2029 || u == 0x202F || u == 0x205F || u == 0x3000
}

/// Trimming the start of a piece that starts with whitespace skips that
/// character.
proof fn lemma_trim_start_subrange(s: Seq<char>, lo: int, hi: int)
    requires
        0 <= lo < hi <= s.len(),
        is_whitespace(s[lo]),
    ensures
        trim_start(s.subrange(lo, hi)) == trim_start(s.subrange(lo + 1, hi)),
{
    assert(s.subrange(lo, hi).drop_first() =~= s.subrange(lo + 1, hi));
}

/// Trimming the end of a piece that ends with whitespace drops that
/// character.
proof fn lemma_trim_end_subrange(s: Seq<char>, lo: int, hi: int)
    requires
        0 <= lo < hi <= s.len(),
        is_whitespace(s[hi - 1]),
    ensures
        trim_end(s.subrange(lo, hi)) == trim_end(s.subrange(lo, hi - 1)),
{
    assert(s.subrange(lo, hi).drop_last() =~= s.subrange(lo, hi - 1));
}

/// The bounds of `chars[lo..hi]` after trimming whitespace from both ends.
pub fn trim_range(chars: &Vec<char>, lo: usize, hi: usize) -> (r: (usize, usize))
    requires
        lo <= hi <= chars.len(),
    ensures
        lo <= r.0 <= r.1 <= hi,
        chars@.subrange(r.0 as int, r.1 as int) == trim(chars@.subrange(lo as int, hi as int)),
{
    let mut start: usize = lo;
    while start < hi && char_is_whitespace(chars[start])
        invariant
            lo <= start <= hi <= chars.len(),
            trim_start(chars@.subrange(lo as int, hi as int)) == trim_start(
                chars@.subrange(start as int, hi as int),
            ),
        decreases hi - start,
    {
        proof {
            lemma_trim_start_subrange(chars@, start as int, hi as int);
        }
        start += 1;
    }
    let mut end: usize = hi;
    while start < end && char_is_whitespace(chars[end - 1])
        invariant
            start <= end <= hi <= chars.len(),
            trim_end(chars@.subrange(start as int, hi as int)) == trim_end(
                chars@.subrange(start as int, end as int),
            ),
        decreases end - start,
    {
        proof {
            lemma_trim_end_subrange(chars@, start as int, end as int);
        }
        end -= 1;
    }
    (start, end)
}

/// The trimmed copy of `s`.
pub fn trimmed(s: &str) -> (r: String)
    ensures
        r@ == trim(s@),
{
    let chars = chars_of(s);
    let (lo, hi) = trim_range(&chars, 0, chars.len());
    proof {
        assert(chars@.subrange(0, chars.len() as int) =~= s@);
    }
    String::from_str(s.substring_char(lo, hi))
}

/// Whether `s` is empty once trimmed.
pub fn is_blank(s: &str) -> (r: bool)
    ensures
        r == (trim(s@).len() == 0),
{
    let chars = chars_of(s);
    let (lo, hi) = trim_range(&chars, 0, chars.len());
    proof {
        assert(chars@.subrange(0, chars.len() as int) =~= s@);
    }
    lo == hi
}

/// The comma-separated tokens of `input`: it is split at each comma, every
/// piece is trimmed, and empty pieces are dropped.
pub fn split_tokens(input: &str) -> (r: Vec<String>)
    ensures
        views(r@) == comma_tokens(input@),
{
    let chars = chars_of(input);
    let n = chars.len();
    let mut out: Vec<String> = Vec::new();
    let mut start: usize = 0;
    let mut i: usize = 0;
    while i < n
        invariant
            n == chars.len(),
            chars@ == input@,
            start <= i <= n,
            split_commas(chars@.take(i as int)).len() > 0,
            split_commas(chars@.take(i as int)).last() == chars@.subrange(start as int, i as int),
            views(out@) == tokens_of(split_commas(chars@.take(i as int)).drop_last()),
        decreases n - i,
    {
        let c = chars[i];
        proof {
            let prefix = chars@.take(i as int);
            let next = chars@.take(i as int + 1);
            assert(next.drop_last() =~= prefix);
        }
        if c == ',' {
            let (lo, hi) = trim_range(&chars, start, i);
            if lo < hi {
                out.push(String::from_str(input.substring_char(lo, hi)));
            }
            proof {
                let pieces = split_commas(chars@.take(i as int));
                let next_pieces = split_commas(chars@.take(i as int + 1));
                assert(next_pieces.drop_last() =~= pieces);
            }
            start = i + 1;
        } else {
            proof {
                let pieces = split_commas(chars@.take(i as int));
                let next_pieces = split_commas(chars@.take(i as int + 1));
                assert(next_pieces.drop_last() =~= pieces.drop_last());
            }
        }
        i += 1;
    }
    let (lo, hi) = trim_range(&chars, start, n);
    if lo < hi {
        out.push(String::from_str(input.substring_char(lo, hi)));
    }
    proof {
        assert(chars@.take(n as int) =~= chars@);
    }
    out
}

/// The least position of `item` in `list`, if it occurs there.
pub fn position_of(list: &Vec<String>, item: &str) -> (r: Option<usize>)
    ensures
        match r {
            Some(i) => first_index_of(views(list@), item@) == Some(i as int),
            None => first_index_of(views(list@), item@) is None,
        },
{
    let mut i: usize = 0;
    while i < list.len()
        invariant
            i <= list.len(),
            first_index_of(views(list@).take(i as int), item@) is None,
        decreases list.len() - i,
    {
        proof {
            let next = views(list@).take(i as int + 1);
            assert(next.drop_last() =~= views(list@).take(i as int));
        }
        if str_eq(list[i].as_str(), item) {
            proof {
                lemma_first_index_found(views(list@), item@, i as int + 1);
            }
            return Some(i);
        }
        i += 1;
    }
    proof {
        assert(views(list@).take(list.len() as int) =~= views(list@));
    }
    None
}

/// A hit found within a prefix of `list` is the hit found in all of `list`.
pub proof fn lemma_first_index_found(list: Seq<Seq<char>>, item: Seq<char>, k: int)
    requires
        0 <= k <= list.len(),
        first_index_of(list.take(k), item) is Some,
    ensures
        first_index_of(list, item) == first_index_of(list.take(k), item),
    decreases list.len() - k,
{
    if k < list.len() {
        assert(list.take(k + 1).drop_last() =~= list.take(k));
        lemma_first_index_found(list, item, k + 1);
    } else {
        assert(list.take(k) =~= list);
    }
}

/// Whether `list` holds `item`.
pub fn contains_str(list: &Vec<String>, item: &str) -> (r: bool)
    ensures
        r == views(list@).contains(item@),
{
    let found = position_of(list, item);
    proof {
        lemma_first_index_of(views(list@), item@);
    }
    found.is_some()
}

/// A copy of `list`, string by string.
pub fn clone_strings(list: &Vec<String>) -> (r: Vec<String>)
    ensures
        views(r@) == views(list@),
{
    let mut copy: Vec<String> = Vec::new();
    let mut i: usize = 0;
    while i < list.len()
        invariant
            i <= list.len(),
            copy@.len() == i,
            forall|k: int| 0 <= k < i ==> copy@[k]@ == list@[k]@,
        decreases list.len() - i,
    {
        copy.push(list[i].clone());
        i += 1;
    }
    copy
}

} // verus!
