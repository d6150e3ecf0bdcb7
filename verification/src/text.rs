//! Verified text utilities: decimal rendering of integers, joining with a
//! separator, substring search, and sentence splitting on `". "`.

use vstd::prelude::*;
use vstd::string::StringExecFns;

verus! {

broadcast use vstd::string::group_string_axioms;

/// The character for a single decimal digit.
pub open spec fn digit_char(d: int) -> char {
    if d == 0 {
        '0'
    } else if d == 1 {
        '1'
    } else if d == 2 {
        '2'
    } else if d == 3 {
        '3'
    } else if d == 4 {
        '4'
    } else if d == 5 {
        '5'
    } else if d == 6 {
        '6'
    } else if d == 7 {
        '7'
    } else if d == 8 {
        '8'
    } else {
        '9'
    }
}

/// The decimal digits of a non-negative integer, most significant first.
pub open spec fn dec_chars(n: int) -> Seq<char>
    decreases n,
{
    if n < 10 {
        seq![digit_char(n)]
    } else {
        dec_chars(n / 10) + seq![digit_char(n % 10)]
    }
}

fn digit_str(d: u64) -> (s: &'static str)
    requires
        d < 10,
    ensures
        s@ =~= seq![digit_char(d as int)],
{
    proof {
        reveal_strlit("0");
        reveal_strlit("1");
        reveal_strlit("2");
        reveal_strlit("3");
        reveal_strlit("4");
        reveal_strlit("5");
        reveal_strlit("6");
        reveal_strlit("7");
        reveal_strlit("8");
        reveal_strlit("9");
    }
    match d {
        0 => "0",
        1 => "1",
        2 => "2",
        3 => "3",
        4 => "4",
        5 => "5",
        6 => "6",
        7 => "7",
        8 => "8",
        _ => "9",
    }
}

/// What an outside case-folding call returns: `str::to_lowercase` of a
/// character sequence. Stated by name only; the full mapping is the
/// Unicode lowercase table.
pub uninterp spec fn lower_of(s: Seq<char>) -> Seq<char>;

/// Relies on `str::to_lowercase`: the result depends on the characters
/// alone. An empty string stays empty.
#[verifier::external_body]
pub fn lowercase(s: &str) -> (r: String)
    ensures
        r@ == lower_of(s@),
        s@.len() == 0 ==> r@.len() == 0,
{
    s.to_lowercase()
}

/// What an outside whitespace-splitting call returns: the maximal
/// whitespace-free pieces of a character sequence, in order.
pub uninterp spec fn split_terms(s: Seq<char>) -> Seq<Seq<char>>;

/// Relies on `str::split_whitespace`: the split depends on the characters
/// alone. An empty string yields no terms.
#[verifier::external_body]
pub fn split_whitespace_terms(s: &str) -> (r: Vec<String>)
    ensures
        r.deep_view() == split_terms(s@),
        s@.len() == 0 ==> r.deep_view().len() == 0,
{
    s.split_whitespace().map(str::to_string).collect()
}

/// Renders a number in decimal, as the standard formatter would.
pub fn u64_to_string(n: u64) -> (s: String)
    ensures
        s@ == dec_chars(n as int),
    decreases n,
{
    if n < 10 {
        let mut s = String::new();
        s.append(digit_str(n));
        proof {
            assert(s@ =~= dec_chars(n as int));
        }
        s
    } else {
        let mut s = u64_to_string(n / 10);
        s.append(digit_str(n % 10));
        proof {
            assert(s@ =~= dec_chars(n as int));
        }
        s
    }
}

/// The pieces joined with `sep` between neighbours.
pub open spec fn join_with(parts: Seq<Seq<char>>, sep: Seq<char>) -> Seq<char>
    decreases parts.len(),
{
    if parts.len() == 0 {
        Seq::empty()
    } else if parts.len() == 1 {
        parts[0]
    } else {
        join_with(parts.drop_last(), sep) + sep + parts.last()
    }
}

/// Joins the strings with the separator, as `[_]::join` would.
pub fn join_strings(parts: &Vec<String>, sep: &str) -> (r: String)
    ensures
        r@ == join_with(parts.deep_view(), sep@),
{
    let mut r = String::new();
    let mut i: usize = 0;
    while i < parts.len()
        invariant
            i <= parts.len(),
            r@ == join_with(parts.deep_view().take(i as int), sep@),
        decreases parts.len() - i,
    {
        if i > 0 {
            r.append(sep);
        }
        r.append(parts[i].as_str());
        proof {
            let dv = parts.deep_view();
            assert(dv.take(i + 1).drop_last() =~= dv.take(i as int));
            assert(dv.take(i + 1).last() == dv[i as int]);
            assert(r@ =~= join_with(dv.take(i + 1), sep@));
        }
        i = i + 1;
    }
    proof {
        assert(parts.deep_view().take(parts.len() as int) =~= parts.deep_view());
    }
    r
}

/// Whether `needle` occurs as a contiguous run of characters in `hay`.
pub open spec fn has_sub(hay: Seq<char>, needle: Seq<char>) -> bool {
    exists|k: int|
        0 <= k <= hay.len() - needle.len() && #[trigger] hay.subrange(k, k + needle.len())
            == needle
}

fn match_at(hay: &str, needle: &str, k: usize, needle_len: usize) -> (r: bool)
    requires
        needle_len == needle@.len(),
        k + needle_len <= hay@.len(),
        hay@.len() <= usize::MAX,
    ensures
        r == (hay@.subrange(k as int, k + needle@.len()) == needle@),
{
    let mut j: usize = 0;
    while j < needle_len
        invariant
            j <= needle_len,
            needle_len == needle@.len(),
            k + needle_len <= hay@.len(),
            hay@.len() <= usize::MAX,
            forall|p: int| 0 <= p < j ==> hay@[k + p] == needle@[p],
        decreases needle_len - j,
    {
        if hay.get_char(k + j) != needle.get_char(j) {
            proof {
                let sub = hay@.subrange(k as int, k + needle@.len());
                assert(sub[j as int] == hay@[k + j]);
            }
            return false;
        }
        j = j + 1;
    }
    proof {
        assert(hay@.subrange(k as int, k + needle@.len()) =~= needle@);
    }
    true
}

/// Whether `needle` occurs in `hay`, as `str::contains` decides it.
pub fn contains_sub(hay: &str, needle: &str) -> (r: bool)
    ensures
        r == has_sub(hay@, needle@),
{
    let hay_len = hay.unicode_len();
    let needle_len = needle.unicode_len();
    if needle_len > hay_len {
        return false;
    }
    if needle_len == 0 {
        proof {
            assert(has_sub(hay@, needle@)) by {
                assert(hay@.subrange(0, 0 + needle@.len() as int) =~= needle@);
            }
        }
        return true;
    }
    let mut k: usize = 0;
    while k <= hay_len - needle_len
        invariant
            hay_len == hay@.len(),
            needle_len == needle@.len(),
            1 <= needle_len <= hay_len,
            k <= hay_len - needle_len + 1,
            forall|k2: int|
                0 <= k2 < k ==> #[trigger] hay@.subrange(k2, k2 + needle@.len()) != needle@,
        decreases hay_len - k,
    {
        if match_at(hay, needle, k, needle_len) {
            proof {
                assert(has_sub(hay@, needle@)) by {
                    assert(hay@.subrange(k as int, k + needle@.len()) == needle@);
                }
            }
            return true;
        }
        k = k + 1;
    }
    false
}

/// The pieces of `s` from `start` on, split on the separator `". "`; the
/// scan stands at `i`, and no separator begins in `s[start..i]`.
pub open spec fn split_from(s: Seq<char>, start: int, i: int) -> Seq<Seq<char>>
    decreases s.len() - i
        when 0 <= start <= i <= s.len()
{
    if i + 2 > s.len() {
        seq![s.subrange(start, s.len() as int)]
    } else if s[i] == '.' && s[i + 1] == ' ' {
        seq![s.subrange(start, i)] + split_from(s, i + 2, i + 2)
    } else {
        split_from(s, start, i + 1)
    }
}

/// The pieces of `s` split on `". "`, in order; always at least one piece.
pub open spec fn split_sentences(s: Seq<char>) -> Seq<Seq<char>> {
    split_from(s, 0, 0)
}

/// Splits on the separator `". "`, as `str::split(". ")` would.
pub fn split_sentences_exec(s: &str) -> (r: Vec<String>)
    ensures
        r.deep_view() == split_sentences(s@),
{
    let len = s.unicode_len();
    let mut pieces: Vec<String> = Vec::new();
    let mut start: usize = 0;
    let mut i: usize = 0;
    while i < len && i + 1 < len
        invariant
            len == s@.len(),
            start <= i <= len,
            pieces.deep_view() + split_from(s@, start as int, i as int) == split_sentences(s@),
        decreases len - i,
    {
        if s.get_char(i) == '.' && s.get_char(i + 1) == ' ' {
            let piece = s.substring_char(start, i).to_owned();
            let ghost prev = pieces.deep_view();
            pieces.push(piece);
            proof {
                let head = s@.subrange(start as int, i as int);
                let rest = split_from(s@, i + 2, i + 2);
                assert(split_from(s@, start as int, i as int) == seq![head] + rest);
                assert(pieces.deep_view() =~= prev.push(head));
                assert(prev.push(head) + rest =~= prev + (seq![head] + rest));
            }
            i = i + 2;
            start = i;
        } else {
            i = i + 1;
        }
    }
    let ghost prev = pieces.deep_view();
    let last = s.substring_char(start, len).to_owned();
    pieces.push(last);
    proof {
        let tail = s@.subrange(start as int, len as int);
        assert(split_from(s@, start as int, i as int) == seq![tail]);
        assert(pieces.deep_view() =~= prev.push(tail));
        assert(prev.push(tail) =~= prev + seq![tail]);
    }
    pieces
}

/// The pieces with the empty ones removed, order kept.
pub open spec fn keep_nonempty(parts: Seq<Seq<char>>) -> Seq<Seq<char>>
    decreases parts.len(),
{
    if parts.len() == 0 {
        Seq::empty()
    } else if parts.last().len() > 0 {
        keep_nonempty(parts.drop_last()).push(parts.last())
    } else {
        keep_nonempty(parts.drop_last())
    }
}

/// Drops the empty strings, keeping the order of the rest.
pub fn keep_nonempty_exec(parts: &Vec<String>) -> (r: Vec<String>)
    ensures
        r.deep_view() == keep_nonempty(parts.deep_view()),
{
    let mut r: Vec<String> = Vec::new();
    let mut i: usize = 0;
    while i < parts.len()
        invariant
            i <= parts.len(),
            r.deep_view() == keep_nonempty(parts.deep_view().take(i as int)),
        decreases parts.len() - i,
    {
        proof {
            let dv = parts.deep_view();
            assert(dv.take(i + 1).drop_last() =~= dv.take(i as int));
            assert(dv.take(i + 1).last() == dv[i as int]);
        }
        if !parts[i].as_str().is_empty() {
            let ghost prev = r.deep_view();
            r.push(parts[i].clone());
            proof {
                let dv = parts.deep_view();
                assert(r.deep_view() =~= prev.push(dv[i as int]));
            }
        }
        i = i + 1;
    }
    proof {
        assert(parts.deep_view().take(parts.len() as int) =~= parts.deep_view());
    }
    r
}

} // verus!
