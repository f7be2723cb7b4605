//! Verified text utilities: character classes, string comparison and the
//! tokenisers (lines and whitespace-separated words) that the recipe parser
//! is built on.

use vstd::prelude::*;

verus! {

/// The ASCII whitespace characters, as `char::is_ascii_whitespace` defines
/// them: space, horizontal tab, line feed, form feed and carriage return.
pub open spec fn is_ascii_ws(c: char) -> bool {
    c == ' ' || c == '\t' || c == '\n' || c == '\u{c}' || c == '\r'
}

/// Executable check for `is_ascii_ws`.
pub fn is_ascii_ws_char(c: char) -> (r: bool)
    ensures
        r == is_ascii_ws(c),
{
    c == ' ' || c == '\t' || c == '\n' || c == '\u{c}' || c == '\r'
}

/// String equality over the character views.
pub fn str_eq(a: &str, b: &str) -> (r: bool)
    ensures
        r == (a@ == b@),
{
    let a_len = a.unicode_len();
    let b_len = b.unicode_len();
    if a_len != b_len {
        assert(a@ != b@);
        return false;
    }
    let mut i: usize = 0;
    while i < a_len
        invariant
            i <= a_len,
            a_len == a@.len(),
            a_len == b@.len(),
            forall|j: int| 0 <= j < i ==> a@[j] == b@[j],
        decreases a_len - i,
    {
        if a.get_char(i) != b.get_char(i) {
            return false;
        }
        i += 1;
    }
    assert(a@ =~= b@);
    true
}

/// Index of the first character of `s` satisfying `p`, or `s.len()` when no
/// character does.
pub open spec fn scan_if(s: Seq<char>, p: spec_fn(char) -> bool) -> int
    decreases s.len(),
{
    if s.len() == 0 {
        0
    } else if p(s[0]) {
        0
    } else {
        1 + scan_if(s.drop_first(), p)
    }
}

/// `scan_if` lands in range, on a satisfying character when one exists, and
/// nothing before it satisfies `p`.
pub proof fn lemma_scan_if_bounds(s: Seq<char>, p: spec_fn(char) -> bool)
    ensures
        0 <= scan_if(s, p) <= s.len(),
        scan_if(s, p) < s.len() ==> p(s[scan_if(s, p)]),
        forall|j: int| 0 <= j < scan_if(s, p) ==> !p(s[j]),
    decreases s.len(),
{
    if s.len() != 0 && !p(s[0]) {
        lemma_scan_if_bounds(s.drop_first(), p);
        assert forall|j: int| 0 <= j < scan_if(s, p) implies !p(s[j]) by {
            if j > 0 {
                assert(s.drop_first()[j - 1] == s[j]);
            }
        }
    }
}

/// A position that satisfies the first-match characterisation is the one
/// `scan_if` finds.
pub proof fn lemma_scan_if_eq(s: Seq<char>, p: spec_fn(char) -> bool, i: int)
    requires
        0 <= i <= s.len(),
        forall|j: int| 0 <= j < i ==> !p(s[j]),
        i < s.len() ==> p(s[i]),
    ensures
        scan_if(s, p) == i,
    decreases i,
{
    if i == 0 {
    } else {
        assert(!p(s[0]));
        lemma_scan_if_eq(s.drop_first(), p, i - 1);
    }
}

/// Equality with a fixed character, as a predicate.
pub open spec fn eq_pred(c: char) -> spec_fn(char) -> bool {
    |x: char| x == c
}

/// The ASCII whitespace predicate used to split words.
pub open spec fn ws_pred() -> spec_fn(char) -> bool {
    |c: char| is_ascii_ws(c)
}

/// Index of the first character of `s@` equal to `c`, or `s@.len()`.
pub fn scan_char(s: &str, c: char) -> (r: usize)
    ensures
        r as int == scan_if(s@, eq_pred(c)),
{
    let n = s.unicode_len();
    let mut i: usize = 0;
    while i < n
        invariant
            i <= n,
            n == s@.len(),
            forall|j: int| 0 <= j < i ==> !eq_pred(c)(s@[j]),
        decreases n - i,
    {
        if s.get_char(i) == c {
            proof {
                assert(eq_pred(c)(s@[i as int]));
                lemma_scan_if_eq(s@, eq_pred(c), i as int);
            }
            return i;
        }
        proof {
            assert(!eq_pred(c)(s@[i as int]));
        }
        i += 1;
    }
    proof {
        lemma_scan_if_eq(s@, eq_pred(c), n as int);
    }
    n
}

/// Index of the first ASCII whitespace character of `s@`, or `s@.len()`.
pub fn scan_ws(s: &str) -> (r: usize)
    ensures
        r as int == scan_if(s@, ws_pred()),
{
    let n = s.unicode_len();
    let mut i: usize = 0;
    while i < n
        invariant
            i <= n,
            n == s@.len(),
            forall|j: int| 0 <= j < i ==> !ws_pred()(s@[j]),
        decreases n - i,
    {
        if is_ascii_ws_char(s.get_char(i)) {
            proof {
                assert(ws_pred()(s@[i as int]));
                lemma_scan_if_eq(s@, ws_pred(), i as int);
            }
            return i;
        }
        proof {
            assert(!ws_pred()(s@[i as int]));
        }
        i += 1;
    }
    proof {
        lemma_scan_if_eq(s@, ws_pred(), n as int);
    }
    n
}

/// A line as `str::lines` yields it: the text up to a line feed, with one
/// carriage return immediately before the line feed removed.
pub open spec fn strip_cr(l: Seq<char>) -> Seq<char> {
    if l.len() > 0 && l[l.len() - 1] == '\r' {
        l.drop_last()
    } else {
        l
    }
}

/// The lines of `s`, split at `'\n'`, each with a final `'\r'` stripped; a
/// final line ending yields no empty trailing line.
pub open spec fn spec_lines(s: Seq<char>) -> Seq<Seq<char>>
    decreases s.len(),
    via spec_lines_decreases
{
    if s.len() == 0 {
        Seq::empty()
    } else {
        let i = scan_if(s, eq_pred('\n'));
        if i >= s.len() {
            seq![s]
        } else {
            seq![strip_cr(s.take(i))] + spec_lines(s.skip(i + 1))
        }
    }
}

#[via_fn]
proof fn spec_lines_decreases(s: Seq<char>) {
    lemma_scan_if_bounds(s, eq_pred('\n'));
}

/// The maximal runs of non-whitespace characters of `s`, in order, as
/// `str::split_ascii_whitespace` yields them.
pub open spec fn spec_words(s: Seq<char>) -> Seq<Seq<char>>
    decreases s.len(),
    via spec_words_decreases
{
    if s.len() == 0 {
        Seq::empty()
    } else if is_ascii_ws(s[0]) {
        spec_words(s.drop_first())
    } else {
        let j = scan_if(s, ws_pred());
        seq![s.take(j)] + spec_words(s.skip(j))
    }
}

#[via_fn]
proof fn spec_words_decreases(s: Seq<char>) {
    lemma_scan_if_bounds(s, ws_pred());
}

/// `w` holds no ASCII whitespace.
pub open spec fn ws_free(w: Seq<char>) -> bool {
    forall|j: int| 0 <= j < w.len() ==> !is_ascii_ws(#[trigger] w[j])
}

/// `l` holds no line feed.
pub open spec fn nl_free(l: Seq<char>) -> bool {
    forall|j: int| 0 <= j < l.len() ==> #[trigger] l[j] != '\n'
}

/// Every word of a split is a non-empty run without whitespace: splitting
/// yields tokens, never separators and never blanks.
pub proof fn lemma_words_are_tokens(s: Seq<char>)
    ensures
        forall|i: int|
            0 <= i < spec_words(s).len() ==> (#[trigger] spec_words(s)[i]).len() > 0 && ws_free(
                spec_words(s)[i],
            ),
    decreases s.len(),
{
    if s.len() == 0 {
    } else if is_ascii_ws(s[0]) {
        lemma_words_are_tokens(s.drop_first());
        assert forall|i: int|
            0 <= i < spec_words(s).len() implies (#[trigger] spec_words(s)[i]).len() > 0
            && ws_free(spec_words(s)[i]) by {
            assert(spec_words(s)[i] == spec_words(s.drop_first())[i]);
        }
    } else {
        lemma_scan_if_bounds(s, ws_pred());
        let j = scan_if(s, ws_pred());
        lemma_words_are_tokens(s.skip(j));
        assert forall|i: int|
            0 <= i < spec_words(s).len() implies (#[trigger] spec_words(s)[i]).len() > 0
            && ws_free(spec_words(s)[i]) by {
            if i == 0 {
                assert(spec_words(s)[0] == s.take(j));
                assert forall|k: int| 0 <= k < s.take(j).len() implies !is_ascii_ws(
                    #[trigger] s.take(j)[k],
                ) by {
                    assert(s.take(j)[k] == s[k]);
                    assert(!ws_pred()(s[k]));
                }
            } else {
                assert(spec_words(s)[i] == spec_words(s.skip(j))[i - 1]);
            }
        }
    }
}

/// Every line of a split holds no line feed: the separators never reach the
/// lines.
pub proof fn lemma_lines_have_no_newline(s: Seq<char>)
    ensures
        forall|i: int| 0 <= i < spec_lines(s).len() ==> nl_free(#[trigger] spec_lines(s)[i]),
    decreases s.len(),
{
    if s.len() == 0 {
    } else {
        lemma_scan_if_bounds(s, eq_pred('\n'));
        let i = scan_if(s, eq_pred('\n'));
        if i >= s.len() {
            assert forall|k: int| 0 <= k < s.len() implies #[trigger] s[k] != '\n' by {
                assert(!eq_pred('\n')(s[k]));
            }
            assert(nl_free(spec_lines(s)[0]));
        } else {
            lemma_lines_have_no_newline(s.skip(i + 1));
            assert forall|n: int|
                0 <= n < spec_lines(s).len() implies nl_free(#[trigger] spec_lines(s)[n]) by {
                if n == 0 {
                    let head = strip_cr(s.take(i));
                    assert forall|k: int| 0 <= k < head.len() implies #[trigger] head[k]
                        != '\n' by {
                        assert(head[k] == s[k]);
                        assert(!eq_pred('\n')(s[k]));
                    }
                } else {
                    assert(spec_lines(s)[n] == spec_lines(s.skip(i + 1))[n - 1]);
                }
            }
        }
    }
}

/// The lines of `s`, as `spec_lines` describes them.
pub fn lines_of(s: &str) -> (r: Vec<String>)
    ensures
        r.deep_view() == spec_lines(s@),
    decreases s@.len(),
{
    let n = s.unicode_len();
    if n == 0 {
        let r: Vec<String> = Vec::new();
        assert(r.deep_view() =~= spec_lines(s@));
        return r;
    }
    proof {
        lemma_scan_if_bounds(s@, eq_pred('\n'));
    }
    let i = scan_char(s, '\n');
    if i == n {
        let mut r: Vec<String> = Vec::new();
        r.push(s.to_owned());
        assert(r.deep_view() =~= spec_lines(s@));
        return r;
    }
    let head = if i > 0 && s.get_char(i - 1) == '\r' {
        s.substring_char(0, i - 1)
    } else {
        s.substring_char(0, i)
    };
    assert(head@ == strip_cr(s@.take(i as int)));
    let rest = s.substring_char(i + 1, n);
    let mut r = lines_of(rest);
    r.insert(0, head.to_owned());
    assert(r.deep_view() =~= spec_lines(s@));
    r
}

/// The whitespace-separated words of `s`, as `spec_words` describes them.
pub fn words_of(s: &str) -> (r: Vec<String>)
    ensures
        r.deep_view() == spec_words(s@),
    decreases s@.len(),
{
    let n = s.unicode_len();
    if n == 0 {
        let r: Vec<String> = Vec::new();
        assert(r.deep_view() =~= spec_words(s@));
        return r;
    }
    if is_ascii_ws_char(s.get_char(0)) {
        let rest = s.substring_char(1, n);
        assert(rest@ == s@.drop_first());
        let r = words_of(rest);
        return r;
    }
    proof {
        lemma_scan_if_bounds(s@, ws_pred());
    }
    let j = scan_ws(s);
    assert(j >= 1) by {
        assert(!ws_pred()(s@[0]));
    }
    let word = s.substring_char(0, j);
    let rest = s.substring_char(j, n);
    let mut r = words_of(rest);
    r.insert(0, word.to_owned());
    assert(r.deep_view() =~= spec_words(s@));
    r
}

/// The words of `s` joined with nothing between them, as collecting string
/// slices into a `String` does.
pub open spec fn spec_concat(words: Seq<Seq<char>>) -> Seq<char>
    decreases words.len(),
{
    if words.len() == 0 {
        Seq::empty()
    } else {
        words[0] + spec_concat(words.drop_first())
    }
}

/// Concatenation of `words[from..]` with nothing between the words.
pub fn concat_from(words: &Vec<String>, from: usize) -> (r: String)
    requires
        from <= words@.len(),
    ensures
        r@ == spec_concat(words.deep_view().skip(from as int)),
    decreases words@.len() - from,
{
    if from == words.len() {
        let r = String::new();
        assert(r@ =~= spec_concat(words.deep_view().skip(from as int)));
        r
    } else {
        let mut r: String = words[from].clone();
        let tail = concat_from(words, from + 1);
        r.append(tail.as_str());
        proof {
            let wv = words.deep_view();
            assert(wv.skip(from as int).drop_first() =~= wv.skip(from as int + 1));
            assert(wv.skip(from as int)[0] == words@[from as int]@);
        }
        r
    }
}

} // verus!
