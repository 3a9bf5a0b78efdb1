//! Unicode whitespace, trimming and splitting into words.

use vstd::prelude::*;

verus! {

/// Whether `c` has the Unicode `White_Space` property (the characters that
/// `char::is_whitespace` accepts).
pub open spec fn is_white_space(c: char) -> bool {
    let x = c as u32;
    ||| 0x09 <= x <= 0x0d
    ||| x == 0x20
    ||| x == 0x85
    ||| x == 0xa0
    ||| x == 0x1680
    ||| 0x2000 <= x <= 0x200a
    ||| x == 0x2028
    ||| x == 0x2029
    ||| x == 0x202f
    ||| x == 0x205f
    ||| x == 0x3000
}

/// Tests whether `c` has the Unicode `White_Space` property.
pub fn is_white_space_char(c: char) -> (b: bool)
    ensures
        b == is_white_space(c),
{
    let x: u32 = c as u32;
    (0x09 <= x && x <= 0x0d) || x == 0x20 || x == 0x85 || x == 0xa0 || x == 0x1680 || (0x2000
        <= x && x <= 0x200a) || x == 0x2028 || x == 0x2029 || x == 0x202f || x == 0x205f || x
        == 0x3000
}

/// `s` without its leading whitespace.
pub open spec fn trim_start_spec(s: Seq<char>) -> Seq<char>
    decreases s.len(),
{
    if s.len() > 0 && is_white_space(s[0]) {
        trim_start_spec(s.drop_first())
    } else {
        s
    }
}

/// `s` without its trailing whitespace.
pub open spec fn trim_end_spec(s: Seq<char>) -> Seq<char>
    decreases s.len(),
{
    if s.len() > 0 && is_white_space(s.last()) {
        trim_end_spec(s.drop_last())
    } else {
        s
    }
}

/// `s` without its leading and trailing whitespace, as `str::trim` gives it.
pub open spec fn trim_spec(s: Seq<char>) -> Seq<char> {
    trim_end_spec(trim_start_spec(s))
}

/// The characters of `s`.
pub(crate) fn chars_of(s: &str) -> (v: Vec<char>)
    ensures
        v@ == s@,
{
    let mut v: Vec<char> = Vec::new();
    for c in it: s.chars()
        invariant
            v@ == it.seq().take(it.index()),
    {
        v.push(c);
    }
    v
}


/// Scans `s` from the left: the words completed so far, and the word being read.
pub open spec fn word_scan(s: Seq<char>) -> (Seq<Seq<char>>, Seq<char>)
    decreases s.len(),
{
    if s.len() == 0 {
        (Seq::empty(), Seq::empty())
    } else {
        let (done, cur) = word_scan(s.drop_last());
        if is_white_space(s.last()) {
            if cur.len() == 0 {
                (done, cur)
            } else {
                (done.push(cur), Seq::empty())
            }
        } else {
            (done, cur.push(s.last()))
        }
    }
}

/// The maximal runs of non-whitespace characters of `s`, left to right, as
/// `str::split_whitespace` yields them.
pub open spec fn split_whitespace_spec(s: Seq<char>) -> Seq<Seq<char>> {
    let (done, cur) = word_scan(s);
    if cur.len() == 0 {
        done
    } else {
        done.push(cur)
    }
}

/// The view of a list of strings: each one as its characters.
pub open spec fn strings_view(v: Seq<String>) -> Seq<Seq<char>> {
    v.map_values(|x: String| x@)
}

/// `s` without leading and trailing whitespace.
pub fn trim(s: &str) -> (t: &str)
    ensures
        t@ == trim_spec(s@),
{
    let chars = chars_of(s);
    let n = chars.len();
    let ghost sv = s@;
    let mut i: usize = 0;
    assert(sv.subrange(0, n as int) =~= sv);
    while i < n && is_white_space_char(chars[i])
        invariant
            chars@ == sv,
            sv == s@,
            n == sv.len(),
            i <= n,
            trim_start_spec(sv) == trim_start_spec(sv.subrange(i as int, n as int)),
        decreases n - i,
    {
        assert(sv.subrange(i as int, n as int).drop_first() =~= sv.subrange(i + 1, n as int));
        i = i + 1;
    }
    assert(trim_start_spec(sv) == sv.subrange(i as int, n as int));
    let mut j: usize = n;
    while j > i && is_white_space_char(chars[j - 1])
        invariant
            chars@ == sv,
            sv == s@,
            n == sv.len(),
            i <= j <= n,
            trim_end_spec(sv.subrange(i as int, n as int)) == trim_end_spec(
                sv.subrange(i as int, j as int),
            ),
        decreases j,
    {
        assert(sv.subrange(i as int, j as int).drop_last() =~= sv.subrange(i as int, j - 1));
        j = j - 1;
    }
    assert(trim_end_spec(sv.subrange(i as int, j as int)) == sv.subrange(i as int, j as int));
    s.substring_char(i, j)
}

/// The words of `s`: its maximal runs of non-whitespace characters.
pub fn split_whitespace(s: &str) -> (words: Vec<String>)
    ensures
        strings_view(words@) == split_whitespace_spec(s@),
{
    let chars = chars_of(s);
    let n = chars.len();
    let ghost sv = s@;
    let mut words: Vec<String> = Vec::new();
    let mut start: usize = 0;
    let mut in_word = false;
    let mut i: usize = 0;
    while i < n
        invariant
            chars@ == sv,
            sv == s@,
            n == sv.len(),
            i <= n,
            start <= i,
            in_word ==> start < i,
            word_scan(sv.take(i as int)) == (strings_view(words@), if in_word {
                sv.subrange(start as int, i as int)
            } else {
                Seq::<char>::empty()
            }),
        decreases n - i,
    {
        let ghost pre = sv.take(i as int);
        let ghost old_words = words@;
        assert(sv.take(i + 1).drop_last() =~= pre);
        assert(sv.take(i + 1).last() == sv[i as int]);
        if is_white_space_char(chars[i]) {
            if in_word {
                let w = String::from_str(s.substring_char(start, i));
                words.push(w);
                assert(strings_view(words@) =~= strings_view(old_words).push(
                    sv.subrange(start as int, i as int),
                ));
                in_word = false;
            }
        } else {
            if !in_word {
                start = i;
                in_word = true;
            }
            assert(sv.subrange(start as int, i + 1) =~= (if start == i {
                Seq::<char>::empty()
            } else {
                sv.subrange(start as int, i as int)
            }).push(sv[i as int]));
        }
        i = i + 1;
    }
    assert(sv.take(n as int) =~= sv);
    if in_word {
        let ghost old_words = words@;
        let w = String::from_str(s.substring_char(start, n));
        words.push(w);
        assert(strings_view(words@) =~= strings_view(old_words).push(
            sv.subrange(start as int, n as int),
        ));
    }
    words
}


/// Stripping leading whitespace keeps a suffix of `s` and drops only whitespace.
proof fn lemma_trim_start_suffix(s: Seq<char>) -> (i: int)
    ensures
        0 <= i <= s.len(),
        trim_start_spec(s) == s.subrange(i, s.len() as int),
        forall|k: int| 0 <= k < i ==> is_white_space(#[trigger] s[k]),
        i < s.len() ==> !is_white_space(s[i]),
    decreases s.len(),
{
    if s.len() > 0 && is_white_space(s[0]) {
        let i = lemma_trim_start_suffix(s.drop_first());
        assert forall|k: int| 0 <= k < i + 1 implies is_white_space(#[trigger] s[k]) by {
            if k > 0 {
                assert(s[k] == s.drop_first()[k - 1]);
            }
        }
        assert(s.drop_first().subrange(i, s.len() - 1) =~= s.subrange(i + 1, s.len() as int));
        i + 1
    } else {
        assert(s.subrange(0, s.len() as int) =~= s);
        0
    }
}

/// Stripping trailing whitespace keeps a prefix of `s` and drops only whitespace.
proof fn lemma_trim_end_prefix(s: Seq<char>) -> (j: int)
    ensures
        0 <= j <= s.len(),
        trim_end_spec(s) == s.subrange(0, j),
        forall|k: int| j <= k < s.len() ==> is_white_space(#[trigger] s[k]),
        j > 0 ==> !is_white_space(s[j - 1]),
    decreases s.len(),
{
    if s.len() > 0 && is_white_space(s.last()) {
        let j = lemma_trim_end_prefix(s.drop_last());
        assert forall|k: int| j <= k < s.len() implies is_white_space(#[trigger] s[k]) by {
            if k < s.len() - 1 {
                assert(s[k] == s.drop_last()[k]);
            }
        }
        assert(s.drop_last().subrange(0, j) =~= s.subrange(0, j));
        j
    } else {
        assert(s.subrange(0, s.len() as int) =~= s);
        s.len() as int
    }
}

/// Trimming keeps a contiguous piece `s[i..j]` of `s`: everything cut off
/// before `i` and from `j` on is whitespace, and the piece neither starts nor
/// ends with whitespace.
pub proof fn lemma_trim_cuts_only_white_space(s: Seq<char>) -> (ij: (int, int))
    ensures
        0 <= ij.0 <= ij.1 <= s.len(),
        trim_spec(s) == s.subrange(ij.0, ij.1),
        forall|k: int| 0 <= k < ij.0 ==> is_white_space(#[trigger] s[k]),
        forall|k: int| ij.1 <= k < s.len() ==> is_white_space(#[trigger] s[k]),
        trim_spec(s).len() > 0 ==> !is_white_space(trim_spec(s)[0]) && !is_white_space(
            trim_spec(s).last(),
        ),
{
    let i = lemma_trim_start_suffix(s);
    let t = s.subrange(i, s.len() as int);
    let j = lemma_trim_end_prefix(t);
    assert(t.subrange(0, j) =~= s.subrange(i, i + j));
    assert forall|k: int| i + j <= k < s.len() implies is_white_space(#[trigger] s[k]) by {
        assert(s[k] == t[k - i]);
    }
    if j > 0 {
        assert(trim_spec(s)[0] == s[i]);
        assert(trim_spec(s).last() == t[j - 1]);
    }
    (i, i + j)
}

/// Trimming twice is trimming once.
pub proof fn lemma_trim_idempotent(s: Seq<char>)
    ensures
        trim_spec(trim_spec(s)) == trim_spec(s),
{
    let _ = lemma_trim_cuts_only_white_space(s);
    let t = trim_spec(s);
    let _ = lemma_trim_start_suffix(t);
    let _ = lemma_trim_end_prefix(t);
    assert(t.subrange(0, t.len() as int) =~= t);
}

/// Whether no character of `w` is whitespace.
pub open spec fn free_of_white_space(w: Seq<char>) -> bool {
    forall|k: int| 0 <= k < w.len() ==> !is_white_space(#[trigger] w[k])
}

proof fn lemma_word_scan_parts(s: Seq<char>)
    ensures
        free_of_white_space(word_scan(s).1),
        forall|i: int|
            0 <= i < word_scan(s).0.len() ==> #[trigger] word_scan(s).0[i].len() > 0
                && free_of_white_space(word_scan(s).0[i]),
    decreases s.len(),
{
    if s.len() > 0 {
        lemma_word_scan_parts(s.drop_last());
        let (done, cur) = word_scan(s.drop_last());
        if !is_white_space(s.last()) {
            assert forall|k: int| 0 <= k < cur.push(s.last()).len() implies !is_white_space(
                #[trigger] cur.push(s.last())[k],
            ) by {
                if k < cur.len() {
                    assert(cur.push(s.last())[k] == cur[k]);
                }
            }
        }
    }
}

/// Every word is nonempty and holds no whitespace.
pub proof fn lemma_words_are_nonempty_and_free_of_white_space(s: Seq<char>)
    ensures
        forall|i: int|
            0 <= i < split_whitespace_spec(s).len() ==> #[trigger] split_whitespace_spec(s)[i].len()
                > 0 && free_of_white_space(split_whitespace_spec(s)[i]),
{
    lemma_word_scan_parts(s);
}

/// Appending characters that are not whitespace extends the word being read.
pub proof fn lemma_word_scan_extends_word(p: Seq<char>, b: Seq<char>)
    requires
        free_of_white_space(b),
    ensures
        word_scan(p + b) == (word_scan(p).0, word_scan(p).1 + b),
    decreases b.len(),
{
    if b.len() == 0 {
        assert(p + b =~= p);
        assert(word_scan(p).1 + b =~= word_scan(p).1);
    } else {
        let b0 = b.drop_last();
        assert(free_of_white_space(b0)) by {
            assert forall|k: int| 0 <= k < b0.len() implies !is_white_space(#[trigger] b0[k]) by {
                assert(b0[k] == b[k]);
            }
        }
        lemma_word_scan_extends_word(p, b0);
        assert((p + b).drop_last() =~= p + b0);
        assert((p + b).last() == b.last());
        assert(!is_white_space(b[b.len() - 1]));
        assert((word_scan(p).1 + b0).push(b.last()) =~= word_scan(p).1 + b);
    }
}


/// Reading `b` after a prefix `p` that ends between words appends the words
/// of `b` to those of `p`.
proof fn lemma_word_scan_after_boundary(p: Seq<char>, b: Seq<char>)
    requires
        word_scan(p).1.len() == 0,
    ensures
        word_scan(p + b) == (word_scan(p).0 + word_scan(b).0, word_scan(b).1),
    decreases b.len(),
{
    if b.len() == 0 {
        assert(p + b =~= p);
        assert(word_scan(p).0 + Seq::<Seq<char>>::empty() =~= word_scan(p).0);
    } else {
        let b0 = b.drop_last();
        lemma_word_scan_after_boundary(p, b0);
        assert((p + b).drop_last() =~= p + b0);
        assert((p + b).last() == b.last());
        let (d, c) = word_scan(b0);
        assert((word_scan(p).0 + d).push(c) =~= word_scan(p).0 + d.push(c));
    }
}

/// How the words of a text are determined: a text without whitespace is one
/// word (none if it is empty), a whitespace character separates the words
/// before it from those after it,.
/// These three facts fix the result for every text.
pub proof fn law_split_whitespace_words(a: Seq<char>, c: char, b: Seq<char>)
    ensures
        split_whitespace_spec(Seq::empty()) == Seq::<Seq<char>>::empty(),
        free_of_white_space(a) && a.len() > 0 ==> split_whitespace_spec(a) == seq![a],
        is_white_space(c) ==> split_whitespace_spec(a + seq![c] + b) == split_whitespace_spec(a)
            + split_whitespace_spec(b),
{
    if free_of_white_space(a) {
        lemma_word_scan_extends_word(Seq::empty(), a);
        assert(Seq::<char>::empty() + a =~= a);
    }
    if is_white_space(c) {
        let p = a.push(c);
        assert(p.drop_last() =~= a);
        assert(a + seq![c] =~= p);
        let (da, ca) = word_scan(a);
        assert(word_scan(p).1.len() == 0);
        assert(word_scan(p).0 == split_whitespace_spec(a));
        lemma_word_scan_after_boundary(p, b);
    }
}

} // verus!
