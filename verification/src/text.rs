//! Verified text utilities: searching, quote handling, the normalization
//! steps of the operation extractor, and joining.

use vstd::prelude::*;

verus! {

/// Relies on `String`'s `FromIterator<char>`: collecting an iterator over
/// characters yields a string of exactly those characters, in order.
#[verifier::external_body]
pub(crate) fn chars_to_string(v: &Vec<char>) -> (r: String)
    ensures
        r@ == v@,
{
    v.iter().collect()
}

/// True when `pat` occurs in `s` starting at index `i`.
pub open spec fn matches_at(s: Seq<char>, pat: Seq<char>, i: int) -> bool {
    0 <= i && i + pat.len() <= s.len() && s.subrange(i, i + pat.len()) == pat
}

/// Index of the first occurrence of `c` in `s` at or after `from`.
pub open spec fn find_char_from(s: Seq<char>, c: char, from: int) -> Option<int>
    decreases s.len() - from,
{
    if from < 0 || from >= s.len() {
        None
    } else if s[from] == c {
        Some(from)
    } else {
        find_char_from(s, c, from + 1)
    }
}

/// Index of the first occurrence of `pat` in `s` at or after `from`.
pub open spec fn find_pat_from(s: Seq<char>, pat: Seq<char>, from: int) -> Option<int>
    decreases s.len() + 1 - from,
{
    if from < 0 || from + pat.len() > s.len() {
        None
    } else if matches_at(s, pat, from) {
        Some(from)
    } else {
        find_pat_from(s, pat, from + 1)
    }
}

/// `s` with every double-quote character removed.
pub open spec fn strip_quotes(s: Seq<char>) -> Seq<char>
    decreases s.len(),
{
    if s.len() == 0 {
        s
    } else if s[0] == '"' {
        strip_quotes(s.skip(1))
    } else {
        seq![s[0]] + strip_quotes(s.skip(1))
    }
}

/// `s` with every non-overlapping occurrence of the pair `a b`, scanned left
/// to right, replaced by the single character `r`.
pub open spec fn replace_pair(s: Seq<char>, a: char, b: char, r: char) -> Seq<char>
    decreases s.len(),
{
    if s.len() < 2 {
        s
    } else if s[0] == a && s[1] == b {
        seq![r] + replace_pair(s.skip(2), a, b, r)
    } else {
        seq![s[0]] + replace_pair(s.skip(1), a, b, r)
    }
}

/// The whitespace characters that trimming removes.
pub open spec fn is_space(c: char) -> bool {
    c == ' ' || c == '\t' || c == '\n' || c == '\r'
}

/// `s` without its leading whitespace.
pub open spec fn trim_front(s: Seq<char>) -> Seq<char>
    decreases s.len(),
{
    if s.len() > 0 && is_space(s[0]) {
        trim_front(s.skip(1))
    } else {
        s
    }
}

/// `s` without its trailing whitespace.
pub open spec fn trim_back(s: Seq<char>) -> Seq<char>
    decreases s.len(),
{
    if s.len() > 0 && is_space(s[s.len() - 1]) {
        trim_back(s.take(s.len() - 1))
    } else {
        s
    }
}

/// `s` without leading or trailing whitespace.
pub open spec fn trim_spec(s: Seq<char>) -> Seq<char> {
    trim_back(trim_front(s))
}

/// The elements of `items` joined by `sep`.
pub open spec fn join_with(items: Seq<Seq<char>>, sep: Seq<char>) -> Seq<char>
    decreases items.len(),
{
    if items.len() == 0 {
        Seq::empty()
    } else if items.len() == 1 {
        items[0]
    } else {
        items[0] + sep + join_with(items.skip(1), sep)
    }
}

/// The text between an opening quote character and a matching closing one,
/// when `s` is enclosed in them.
pub open spec fn inner_quoted_spec(s: Seq<char>) -> Option<Seq<char>> {
    if s.len() >= 2 && (s[0] == '"' || s[0] == '\'') && s[s.len() - 1] == s[0] {
        Some(s.subrange(1, s.len() - 1))
    } else {
        None
    }
}

/// Appending one more element extends a join by one separator.
pub proof fn lemma_join_push(items: Seq<Seq<char>>, sep: Seq<char>, x: Seq<char>)
    requires
        items.len() >= 1,
    ensures
        join_with(items.push(x), sep) == join_with(items, sep) + sep + x,
    decreases items.len(),
{
    assert(items.push(x)[0] == items[0]);
    assert(items.push(x).skip(1) =~= items.skip(1).push(x));
    if items.len() == 1 {
        assert(items.skip(1).push(x) =~= seq![x]);
        assert(join_with(seq![x], sep) == x);
        assert(join_with(items.push(x), sep) == items[0] + sep + join_with(
            items.skip(1).push(x),
            sep,
        ));
        assert(join_with(items.push(x), sep) == items[0] + sep + x);
    } else {
        lemma_join_push(items.skip(1), sep, x);
        assert(join_with(items.push(x), sep) == items[0] + sep + join_with(
            items.skip(1).push(x),
            sep,
        ));
        assert(join_with(items, sep) == items[0] + sep + join_with(items.skip(1), sep));
        assert(items[0] + sep + (join_with(items.skip(1), sep) + sep + x) =~= (items[0] + sep
            + join_with(items.skip(1), sep)) + sep + x);
    }
}

/// Character-for-character equality of two string slices.
pub fn str_eq(a: &str, b: &str) -> (r: bool)
    ensures
        r == (a@ == b@),
{
    let n = a.unicode_len();
    if n != b.unicode_len() {
        return false;
    }
    let mut i: usize = 0;
    while i < n
        invariant
            n == a@.len(),
            n == b@.len(),
            i <= n,
            forall|j: int| 0 <= j < i ==> a@[j] == b@[j],
        decreases n - i,
    {
        if a.get_char(i) != b.get_char(i) {
            return false;
        }
        i += 1;
    }
    proof {
        assert(a@ =~= b@);
    }
    true
}

/// Whether `pat` occurs in `s` at index `i`; `n` and `m` are the lengths.
fn occurs_at(s: &str, n: usize, pat: &str, m: usize, i: usize) -> (r: bool)
    requires
        n == s@.len(),
        m == pat@.len(),
        i + m <= n,
    ensures
        r == matches_at(s@, pat@, i as int),
{
    let mut j: usize = 0;
    while j < m
        invariant
            n == s@.len(),
            m == pat@.len(),
            i + m <= n,
            j <= m,
            forall|k: int| 0 <= k < j ==> s@[i + k] == pat@[k],
        decreases m - j,
    {
        if s.get_char(i + j) != pat.get_char(j) {
            proof {
                if matches_at(s@, pat@, i as int) {
                    assert(s@.subrange(i as int, i + m)[j as int] == s@[i + j]);
                }
            }
            return false;
        }
        j += 1;
    }
    proof {
        assert(s@.subrange(i as int, i + m) =~= pat@);
    }
    true
}

/// First occurrence of the character `c` at or after `from`.
pub fn find_char(s: &str, c: char, from: usize) -> (r: Option<usize>)
    ensures
        match r {
            Some(i) => find_char_from(s@, c, from as int) == Some(i as int),
            None => find_char_from(s@, c, from as int) is None,
        },
{
    let n = s.unicode_len();
    let mut i: usize = from;
    while i < n
        invariant
            n == s@.len(),
            from <= i,
            find_char_from(s@, c, from as int) == find_char_from(s@, c, i as int),
        decreases n - i,
    {
        if s.get_char(i) == c {
            return Some(i);
        }
        i += 1;
    }
    None
}

/// First occurrence of `pat` at or after `from`.
pub fn find_sub(s: &str, pat: &str, from: usize) -> (r: Option<usize>)
    ensures
        match r {
            Some(i) => find_pat_from(s@, pat@, from as int) == Some(i as int),
            None => find_pat_from(s@, pat@, from as int) is None,
        },
{
    let n = s.unicode_len();
    let m = pat.unicode_len();
    if m > n {
        return None;
    }
    if m == 0 {
        if from <= n {
            proof {
                assert(s@.subrange(from as int, from as int) =~= pat@);
            }
            return Some(from);
        }
        return None;
    }
    let mut i: usize = from;
    while i <= n - m
        invariant
            n == s@.len(),
            m == pat@.len(),
            1 <= m <= n,
            from <= i,
            find_pat_from(s@, pat@, from as int) == find_pat_from(s@, pat@, i as int),
        decreases n - i,
    {
        if occurs_at(s, n, pat, m, i) {
            return Some(i);
        }
        i += 1;
    }
    None
}

/// `s` with every double-quote character removed.
pub fn remove_quotes(s: &str) -> (r: String)
    ensures
        r@ == strip_quotes(s@),
{
    let n = s.unicode_len();
    let mut out: Vec<char> = Vec::new();
    let mut i: usize = 0;
    proof {
        assert(s@.skip(0) =~= s@);
        assert(out@ + strip_quotes(s@) =~= strip_quotes(s@));
    }
    while i < n
        invariant
            n == s@.len(),
            i <= n,
            out@ + strip_quotes(s@.skip(i as int)) == strip_quotes(s@),
        decreases n - i,
    {
        let c = s.get_char(i);
        proof {
            assert(s@.skip(i as int)[0] == s@[i as int]);
            assert(s@.skip(i as int).skip(1) =~= s@.skip(i + 1));
        }
        if c != '"' {
            out.push(c);
            proof {
                assert(out@ + strip_quotes(s@.skip(i + 1)) =~= out@.drop_last() + (seq![c]
                    + strip_quotes(s@.skip(i + 1))));
            }
        }
        i += 1;
    }
    proof {
        assert(s@.skip(n as int) =~= Seq::<char>::empty());
        assert(out@ + strip_quotes(s@.skip(n as int)) =~= out@);
    }
    chars_to_string(&out)
}

/// `s` with every occurrence of the pair `a b` replaced by `rep`, scanning
/// left to right.
pub fn replace_pair_str(s: &str, a: char, b: char, rep: char) -> (r: String)
    ensures
        r@ == replace_pair(s@, a, b, rep),
{
    let n = s.unicode_len();
    let mut out: Vec<char> = Vec::new();
    let mut i: usize = 0;
    proof {
        assert(s@.skip(0) =~= s@);
        assert(out@ + replace_pair(s@, a, b, rep) =~= replace_pair(s@, a, b, rep));
    }
    while i < n
        invariant
            n == s@.len(),
            i <= n,
            out@ + replace_pair(s@.skip(i as int), a, b, rep) == replace_pair(s@, a, b, rep),
        decreases n - i,
    {
        proof {
            assert(s@.skip(i as int)[0] == s@[i as int]);
            if i + 1 < n {
                assert(s@.skip(i as int)[1] == s@[i + 1]);
                assert(s@.skip(i as int).skip(2) =~= s@.skip(i + 2));
            }
            assert(s@.skip(i as int).skip(1) =~= s@.skip(i + 1));
        }
        if i + 1 < n && s.get_char(i) == a && s.get_char(i + 1) == b {
            out.push(rep);
            proof {
                assert(out@ + replace_pair(s@.skip(i + 2), a, b, rep) =~= out@.drop_last() + (
                seq![rep] + replace_pair(s@.skip(i + 2), a, b, rep)));
            }
            i += 2;
        } else {
            let c = s.get_char(i);
            out.push(c);
            proof {
                if s@.skip(i as int).len() >= 2 {
                    assert(out@ + replace_pair(s@.skip(i + 1), a, b, rep) =~= out@.drop_last() + (
                    seq![c] + replace_pair(s@.skip(i + 1), a, b, rep)));
                } else {
                    assert(s@.skip(i as int) =~= seq![c]);
                    assert(out@ + replace_pair(s@.skip(i + 1), a, b, rep) =~= out@.drop_last()
                        + s@.skip(i as int));
                }
            }
            i += 1;
        }
    }
    proof {
        assert(s@.skip(n as int) =~= Seq::<char>::empty());
        assert(out@ + replace_pair(s@.skip(n as int), a, b, rep) =~= out@);
    }
    chars_to_string(&out)
}

/// `s` without leading or trailing whitespace.
pub fn trim_str(s: &str) -> (r: String)
    ensures
        r@ == trim_spec(s@),
{
    let n = s.unicode_len();
    let mut i: usize = 0;
    proof {
        assert(s@.skip(0) =~= s@);
    }
    while i < n && is_space_exec(s.get_char(i))
        invariant
            n == s@.len(),
            i <= n,
            trim_front(s@) == trim_front(s@.skip(i as int)),
        decreases n - i,
    {
        proof {
            assert(s@.skip(i as int)[0] == s@[i as int]);
            assert(s@.skip(i as int).skip(1) =~= s@.skip(i + 1));
        }
        i += 1;
    }
    if i == n {
        proof {
            assert(s@.skip(n as int) =~= Seq::<char>::empty());
            assert(trim_front(s@) =~= Seq::<char>::empty());
        }
        return String::new();
    }
    proof {
        assert(trim_front(s@.skip(i as int)) == s@.skip(i as int));
    }
    let ghost t = s@.skip(i as int);
    let mut j: usize = n;
    proof {
        assert(t.take(n - i) =~= t);
    }
    while j > i + 1 && is_space_exec(s.get_char(j - 1))
        invariant
            n == s@.len(),
            t == s@.skip(i as int),
            i < j <= n,
            trim_back(t) == trim_back(t.take(j - i)),
        decreases j,
    {
        proof {
            let m = j - i;
            assert(t.take(m)[m - 1] == s@[j - 1]);
            assert(t.take(m).take(m - 1) =~= t.take(m - 1));
        }
        j -= 1;
    }
    proof {
        let m = j - i;
        assert(t.take(m)[m - 1] == s@[j - 1]);
        if !is_space(s@[j - 1]) {
            assert(trim_back(t.take(m)) == t.take(m));
        } else {
            assert(j == i + 1);
            assert(t.take(1).take(0) =~= Seq::<char>::empty());
            assert(trim_back(t.take(1)) =~= Seq::<char>::empty());
        }
    }
    if is_space_exec(s.get_char(j - 1)) {
        proof {
            assert(trim_spec(s@) =~= Seq::<char>::empty());
        }
        return String::new();
    }
    let r = s.substring_char(i, j).to_owned();
    proof {
        assert(s@.subrange(i as int, j as int) =~= t.take(j - i));
    }
    r
}

/// Whether trimming removes `c`.
pub fn is_space_exec(c: char) -> (r: bool)
    ensures
        r == is_space(c),
{
    c == ' ' || c == '\t' || c == '\n' || c == '\r'
}

/// The elements of `items` joined by `sep`.
pub fn join_strings(items: &Vec<String>, sep: &str) -> (r: String)
    ensures
        r@ == join_with(items.deep_view(), sep@),
{
    if items.len() == 0 {
        proof {
            assert(items.deep_view().len() == 0);
        }
        return String::new();
    }
    let mut out: String = items[0].clone();
    let mut i: usize = 1;
    proof {
        assert(items.deep_view().take(1).len() == 1);
        assert(items.deep_view().take(1)[0] == items@[0]@);
    }
    while i < items.len()
        invariant
            1 <= i <= items@.len(),
            items.deep_view().len() == items@.len(),
            out@ == join_with(items.deep_view().take(i as int), sep@),
        decreases items@.len() - i,
    {
        out.append(sep);
        out.append(items[i].as_str());
        proof {
            lemma_join_push(items.deep_view().take(i as int), sep@, items@[i as int]@);
            assert(items.deep_view().take(i as int).push(items@[i as int]@)
                =~= items.deep_view().take(i + 1));
        }
        i += 1;
    }
    proof {
        assert(items.deep_view().take(items@.len() as int) =~= items.deep_view());
    }
    out
}

/// The text between the enclosing quote characters of `s`, when present.
pub fn inner_quoted(s: &str) -> (r: Option<String>)
    ensures
        match r {
            Some(t) => inner_quoted_spec(s@) == Some(t@),
            None => inner_quoted_spec(s@) is None,
        },
{
    let n = s.unicode_len();
    if n < 2 {
        return None;
    }
    let first = s.get_char(0);
    if !(first == '"' || first == '\'') {
        return None;
    }
    if s.get_char(n - 1) != first {
        return None;
    }
    Some(s.substring_char(1, n - 1).to_owned())
}

} // verus!
