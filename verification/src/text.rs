use vstd::prelude::*;
use vstd::utf8::is_ascii_chars;

verus! {

/// What `str::to_uppercase` returns for a string: the Unicode uppercase
/// mapping of every character, concatenated.
pub uninterp spec fn spec_to_uppercase(s: Seq<char>) -> Seq<char>;

/// What `str::trim` returns for a string: the string without its leading and
/// trailing Unicode white space.
pub uninterp spec fn spec_trim(s: Seq<char>) -> Seq<char>;

/// What `char::is_alphabetic` returns for a character: whether it has the
/// Unicode `Alphabetic` property.
pub uninterp spec fn spec_is_alphabetic(c: char) -> bool;

/// `c` with an ASCII lowercase letter made uppercase; any other character
/// unchanged.
pub open spec fn ascii_upper_char(c: char) -> char {
    if 'a' <= c && c <= 'z' {
        ((c as u32) - 32) as char
    } else {
        c
    }
}

/// Every character of `s` through `ascii_upper_char`.
pub open spec fn ascii_upper(s: Seq<char>) -> Seq<char> {
    s.map_values(|c: char| ascii_upper_char(c))
}

/// The uppercase form of a string: on ASCII text its letters `a` to `z` made
/// `A` to `Z` and every other character kept; on other text the Unicode
/// uppercase mapping.
pub open spec fn spec_upper(s: Seq<char>) -> Seq<char> {
    if is_ascii_chars(s) {
        ascii_upper(s)
    } else {
        spec_to_uppercase(s)
    }
}

/// A character of the Unicode `White_Space` property that is ASCII: space,
/// tab, line feed, vertical tab, form feed, carriage return.
pub open spec fn is_ascii_white_space(c: char) -> bool {
    c == ' ' || c == '\t' || c == '\n' || c == '\x0B' || c == '\x0C' || c == '\r'
}

/// `s` without its leading ASCII white space.
pub open spec fn ascii_trim_start(s: Seq<char>) -> Seq<char>
    decreases s.len(),
{
    if s.len() > 0 && is_ascii_white_space(s[0]) {
        ascii_trim_start(s.drop_first())
    } else {
        s
    }
}

/// `s` without its trailing ASCII white space.
pub open spec fn ascii_trim_end(s: Seq<char>) -> Seq<char>
    decreases s.len(),
{
    if s.len() > 0 && is_ascii_white_space(s.last()) {
        ascii_trim_end(s.drop_last())
    } else {
        s
    }
}

/// A string without its leading and trailing white space: on ASCII text the
/// six ASCII white-space characters are removed; on other text the Unicode
/// `White_Space` characters.
pub open spec fn spec_trimmed(s: Seq<char>) -> Seq<char> {
    if is_ascii_chars(s) {
        ascii_trim_end(ascii_trim_start(s))
    } else {
        spec_trim(s)
    }
}

/// Calls `str::to_uppercase`. The contract claims that the result is the
/// named function of the input's characters, and what the Unicode mapping
/// documented for the call gives on ASCII text: `a` to `z` become `A` to `Z`,
/// every other character is kept. The mapping of other characters is not
/// stated.
#[verifier::external_body]
pub(crate) fn to_uppercase(s: &str) -> (r: String)
    ensures
        r@ == spec_to_uppercase(s@),
        is_ascii_chars(s@) ==> r@ == ascii_upper(s@),
{
    s.to_uppercase()
}

/// Calls `str::trim`. The contract claims that the result is the named
/// function of the input's characters, and what the documented `White_Space`
/// property gives on ASCII text: the leading and trailing space, tab, line
/// feed, vertical tab, form feed and carriage return are removed. Which other
/// characters are white space is not stated.
#[verifier::external_body]
pub(crate) fn trim(s: &str) -> (r: &str)
    ensures
        r@ == spec_trim(s@),
        is_ascii_chars(s@) ==> r@ == ascii_trim_end(ascii_trim_start(s@)),
{
    s.trim()
}

/// Calls `char::is_alphabetic`. The contract claims only that the result is
/// the named function of the character.
#[verifier::external_body]
pub(crate) fn is_alphabetic(c: char) -> (r: bool)
    ensures
        r == spec_is_alphabetic(c),
{
    c.is_alphabetic()
}

/// `needle` occurs in `hay` starting at position `i`.
pub open spec fn occurs_at(hay: Seq<char>, needle: Seq<char>, i: int) -> bool {
    0 <= i && i + needle.len() <= hay.len() && hay.subrange(i, i + needle.len()) == needle
}

/// `needle` occurs somewhere in `hay` (the empty string occurs everywhere).
pub open spec fn contains_seq(hay: Seq<char>, needle: Seq<char>) -> bool {
    exists|i: int| occurs_at(hay, needle, i)
}

/// The alphabetic characters of `s`, in order.
pub open spec fn keep_alphabetic(s: Seq<char>) -> Seq<char>
    decreases s.len(),
{
    if s.len() == 0 {
        Seq::empty()
    } else {
        let rest = keep_alphabetic(s.drop_last());
        if spec_is_alphabetic(s.last()) {
            rest.push(s.last())
        } else {
            rest
        }
    }
}

/// The pieces of `s` between the occurrences of `sep`, as `str::split` with a
/// character pattern yields them: one more piece than separators, empty
/// pieces included.
pub open spec fn split_on(s: Seq<char>, sep: char) -> Seq<Seq<char>>
    decreases s.len(),
{
    if s.len() == 0 {
        seq![Seq::<char>::empty()]
    } else {
        let rest = split_on(s.drop_last(), sep);
        if s.last() == sep {
            rest.push(Seq::<char>::empty())
        } else {
            rest.update(rest.len() - 1, rest.last().push(s.last()))
        }
    }
}

/// The views of a sequence of strings.
pub open spec fn string_views(v: Seq<String>) -> Seq<Seq<char>> {
    v.map_values(|s: String| s@)
}

/// The characters of a string, one per element.
pub fn chars_of(s: &str) -> (v: Vec<char>)
    ensures
        v@ == s@,
{
    let n = s.unicode_len();
    let mut v: Vec<char> = Vec::new();
    let mut i: usize = 0;
    while i < n
        invariant
            n == s@.len(),
            i <= n,
            v@ == s@.take(i as int),
        decreases n - i,
    {
        v.push(s.get_char(i));
        i = i + 1;
        assert(v@ =~= s@.take(i as int));
    }
    assert(s@.take(n as int) =~= s@);
    v
}

/// A one-character string holding `s[i]`.
fn char_at_str(s: &str, i: usize) -> (r: &str)
    requires
        i < s@.len(),
        s@.len() <= usize::MAX,
    ensures
        r@ == seq![s@[i as int]],
{
    let r = s.substring_char(i, i + 1);
    assert(r@ =~= seq![s@[i as int]]);
    r
}

/// Whether two strings hold the same characters.
pub fn str_eq(a: &str, b: &str) -> (r: bool)
    ensures
        r == (a@ == b@),
{
    let n = a.unicode_len();
    let m = b.unicode_len();
    if n != m {
        return false;
    }
    let mut i: usize = 0;
    while i < n
        invariant
            n == a@.len(),
            n == b@.len(),
            i <= n,
            forall|j: int| 0 <= j < i ==> a@[j] == b@[j],
        decreases n - i,
    {
        if a.get_char(i) != b.get_char(i) {
            return false;
        }
        i = i + 1;
    }
    assert(a@ =~= b@);
    true
}

/// Whether `needle` occurs in `hay` at position `i`.
fn occurs_at_vec(hay: &Vec<char>, needle: &Vec<char>, i: usize) -> (r: bool)
    requires
        i + needle@.len() <= hay@.len(),
    ensures
        r == occurs_at(hay@, needle@, i as int),
{
    let m = needle.len();
    let mut j: usize = 0;
    while j < m
        invariant
            m == needle@.len(),
            i + m <= hay@.len(),
            hay@.len() == hay.len(),
            j <= m,
            forall|k: int| 0 <= k < j ==> hay@[i + k] == needle@[k],
        decreases m - j,
    {
        if hay[i + j] != needle[j] {
            assert(hay@.subrange(i as int, i + m)[j as int] != needle@[j as int]);
            return false;
        }
        j = j + 1;
    }
    assert(hay@.subrange(i as int, i + m) =~= needle@);
    true
}

/// Whether `needle` occurs as a contiguous part of `hay`, as `str::contains`
/// with a string pattern answers.
pub fn str_contains(hay: &str, needle: &str) -> (r: bool)
    ensures
        r == contains_seq(hay@, needle@),
{
    let h = chars_of(hay);
    let nd = chars_of(needle);
    let n = h.len();
    let m = nd.len();
    if m > n {
        assert forall|i: int| !occurs_at(hay@, needle@, i) by {}
        return false;
    }
    if m == 0 {
        assert(hay@.subrange(0, 0) =~= needle@);
        assert(occurs_at(hay@, needle@, 0));
        return true;
    }
    let mut i: usize = 0;
    while i <= n - m
        invariant
            n == h@.len(),
            m == nd@.len(),
            0 < m <= n,
            h@ == hay@,
            nd@ == needle@,
            i <= n - m + 1,
            forall|k: int| 0 <= k < i ==> !occurs_at(hay@, needle@, k),
        decreases n - m + 1 - i,
    {
        if occurs_at_vec(&h, &nd, i) {
            assert(occurs_at(hay@, needle@, i as int));
            return true;
        }
        i = i + 1;
    }
    assert forall|k: int| !occurs_at(hay@, needle@, k) by {
        if 0 <= k < i {
        }
    }
    false
}

/// The alphabetic characters of `s`, in order, as a new string.
pub fn filter_alphabetic(s: &str) -> (r: String)
    ensures
        r@ == keep_alphabetic(s@),
{
    let n = s.unicode_len();
    let mut r = String::new();
    let mut i: usize = 0;
    while i < n
        invariant
            n == s@.len(),
            i <= n,
            r@ == keep_alphabetic(s@.take(i as int)),
        decreases n - i,
    {
        let c = s.get_char(i);
        assert(s@.take(i + 1).drop_last() =~= s@.take(i as int));
        if is_alphabetic(c) {
            r.append(char_at_str(s, i));
        }
        i = i + 1;
    }
    assert(s@.take(n as int) =~= s@);
    r
}

/// The pieces of `s` between its commas, as `str::split(',')` yields them.
pub fn split_commas(s: &str) -> (pieces: Vec<String>)
    ensures
        string_views(pieces@) == split_on(s@, ','),
{
    let n = s.unicode_len();
    let mut pieces: Vec<String> = Vec::new();
    let mut cur = String::new();
    let mut i: usize = 0;
    assert(string_views(pieces@).push(cur@) =~= split_on(s@.take(0), ','));
    while i < n
        invariant
            n == s@.len(),
            i <= n,
            string_views(pieces@).push(cur@) == split_on(s@.take(i as int), ','),
        decreases n - i,
    {
        let c = s.get_char(i);
        let ghost before = string_views(pieces@).push(cur@);
        assert(s@.take(i + 1).drop_last() =~= s@.take(i as int));
        assert(s@.take(i + 1).last() == c);
        if c == ',' {
            pieces.push(cur);
            cur = String::new();
            assert(string_views(pieces@).push(cur@) =~= before.push(Seq::<char>::empty()));
        } else {
            let ghost old_cur = cur@;
            cur.append(char_at_str(s, i));
            assert(cur@ =~= old_cur.push(c));
            assert(string_views(pieces@).push(cur@) =~= before.update(
                before.len() - 1,
                before.last().push(c),
            ));
        }
        i = i + 1;
    }
    pieces.push(cur);
    assert(s@.take(n as int) =~= s@);
    assert(string_views(pieces@) =~= split_on(s@, ','));
    pieces
}


/// The pieces joined again, with `sep` between each two.
pub open spec fn join_with(pieces: Seq<Seq<char>>, sep: char) -> Seq<char>
    decreases pieces.len(),
{
    if pieces.len() <= 1 {
        if pieces.len() == 1 {
            pieces[0]
        } else {
            Seq::empty()
        }
    } else {
        join_with(pieces.drop_last(), sep) + seq![sep] + pieces.last()
    }
}

/// Splitting gives at least one piece, no piece holds the separator, and the
/// pieces joined with the separator give the string back.
pub proof fn lemma_split_join(s: Seq<char>, sep: char)
    ensures
        split_on(s, sep).len() >= 1,
        forall|i: int| 0 <= i < split_on(s, sep).len() ==> !(#[trigger] split_on(s, sep)[i]).contains(sep),
        join_with(split_on(s, sep), sep) == s,
    decreases s.len(),
{
    if s.len() > 0 {
        let prev = s.drop_last();
        lemma_split_join(prev, sep);
        let r = split_on(prev, sep);
        let c = s.last();
        if c == sep {
            let r2 = r.push(Seq::<char>::empty());
            assert(r2.drop_last() =~= r);
            assert(join_with(r2, sep) =~= prev + seq![sep]);
            assert(prev + seq![sep] =~= s);
            assert forall|i: int| 0 <= i < r2.len() implies !(#[trigger] r2[i]).contains(sep) by {
                if i < r.len() {
                    assert(r2[i] == r[i]);
                }
            }
        } else {
            let n = r.len() - 1;
            let r2 = r.update(n, r[n].push(c));
            assert forall|i: int| 0 <= i < r2.len() implies !(#[trigger] r2[i]).contains(sep) by {
                if i < n {
                    assert(r2[i] == r[i]);
                } else {
                    assert(!r[n].contains(sep));
                    if r2[i].contains(sep) {
                        let q = choose|q: int| 0 <= q < r2[i].len() && r2[i][q] == sep;
                        assert(q < r[n].len());
                        assert(r[n][q] == sep);
                    }
                }
            }
            if r.len() == 1 {
                assert(join_with(r2, sep) =~= r[0].push(c));
                assert(r[0].push(c) =~= s);
            } else {
                assert(r2.drop_last() =~= r.drop_last());
                assert(join_with(r2, sep) =~= join_with(r.drop_last(), sep) + seq![sep] + r.last().push(c));
                assert(join_with(r, sep) == join_with(r.drop_last(), sep) + seq![sep] + r.last());
                assert(join_with(r2, sep) =~= join_with(r, sep).push(c));
                assert(prev.push(c) =~= s);
            }
        }
    }
}

/// The letters of a string are exactly its alphabetic characters.
pub proof fn lemma_keep_alphabetic_members(s: Seq<char>, c: char)
    ensures
        keep_alphabetic(s).contains(c) <==> s.contains(c) && spec_is_alphabetic(c),
    decreases s.len(),
{
    if s.len() > 0 {
        let prev = s.drop_last();
        lemma_keep_alphabetic_members(prev, c);
        let r = keep_alphabetic(prev);
        if s.contains(c) && spec_is_alphabetic(c) {
            let q = choose|q: int| 0 <= q < s.len() && s[q] == c;
            if q < prev.len() {
                assert(prev[q] == c);
                let w = choose|w: int| 0 <= w < r.len() && r[w] == c;
                if spec_is_alphabetic(s.last()) {
                    assert(r.push(s.last())[w] == c);
                }
            } else {
                assert(r.push(s.last())[r.len() as int] == c);
            }
        }
        if keep_alphabetic(s).contains(c) {
            let w = choose|w: int| 0 <= w < keep_alphabetic(s).len() && keep_alphabetic(s)[w] == c;
            if w < r.len() {
                assert(r[w] == c);
                let q = choose|q: int| 0 <= q < prev.len() && prev[q] == c;
                assert(s[q] == c);
            } else {
                assert(s[s.len() - 1] == c);
            }
        }
    }
}

} // verus!
