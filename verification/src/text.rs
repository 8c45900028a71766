//! Small string helpers shared by the parser, the encoders and the error messages.
use vstd::prelude::*;
use vstd::string::StrSliceExecFns;
use vstd::string::StringExecFns;

verus! {

/// Appends one character to a string (`String::push`).
#[verifier::external_body]
pub(crate) fn push_char(s: &mut String, c: char)
    ensures
        final(s)@ == old(s)@.push(c),
{
    s.push(c);
}

/// Character-wise equality of two string slices.
pub fn str_eq(a: &str, b: &str) -> (r: bool)
    ensures
        r == (a@ == b@),
{
    let n = a.unicode_len();
    let m = b.unicode_len();
    if n != m {
        return false;
    }
    let mut i: usize = 0;
    while i < n
        invariant
            n == a@.len(),
            m == b@.len(),
            n == m,
            i <= n,
            forall|j: int| 0 <= j < i ==> a@[j] == b@[j],
        decreases n - i,
    {
        if a.get_char(i) != b.get_char(i) {
            return false;
        }
        i = i + 1;
    }
    assert(a@ =~= b@);
    true
}

/// The decimal digits of a natural number, most significant first.
pub open spec fn decimal(n: nat) -> Seq<char>
    decreases n,
{
    if n < 10 {
        seq![digit_char(n)]
    } else {
        decimal(n / 10).push(digit_char(n % 10))
    }
}

/// The character of a digit below ten.
pub open spec fn digit_char(d: nat) -> char {
    if d == 0 { '0' } else if d == 1 { '1' } else if d == 2 { '2' } else if d == 3 { '3' }
    else if d == 4 { '4' } else if d == 5 { '5' } else if d == 6 { '6' } else if d == 7 { '7' }
    else if d == 8 { '8' } else { '9' }
}

fn digit_to_char(d: u64) -> (c: char)
    requires
        d < 10,
    ensures
        c == digit_char(d as nat),
{
    if d == 0 { '0' } else if d == 1 { '1' } else if d == 2 { '2' } else if d == 3 { '3' }
    else if d == 4 { '4' } else if d == 5 { '5' } else if d == 6 { '6' } else if d == 7 { '7' }
    else if d == 8 { '8' } else { '9' }
}

/// Appends the decimal digits of `n` to `s`.
pub fn append_decimal(s: &mut String, n: u64)
    ensures
        final(s)@ == old(s)@ + decimal(n as nat),
    decreases n,
{
    if n < 10 {
        push_char(s, digit_to_char(n));
        assert(decimal(n as nat) =~= seq![digit_char(n as nat)]);
    } else {
        append_decimal(s, n / 10);
        push_char(s, digit_to_char(n % 10));
        assert(decimal(n as nat) =~= decimal((n / 10) as nat).push(digit_char((n % 10) as nat)));
    }
}

} // verus!

verus! {

/// The characters of a string slice, in order (`str::chars`, collected).
#[verifier::external_body]
pub fn chars_of(s: &str) -> (v: Vec<char>)
    ensures
        v@ == s@,
{
    s.chars().collect()
}

} // verus!

verus! {

/// The uppercase form of a text in the sense of `str::to_uppercase`.
pub uninterp spec fn uppercase(s: Seq<char>) -> Seq<char>;

/// The lowercase form of a text in the sense of `str::to_lowercase`.
pub uninterp spec fn lowercase(s: Seq<char>) -> Seq<char>;

/// All characters are ASCII.
pub open spec fn all_ascii(s: Seq<char>) -> bool {
    forall|i: int| 0 <= i < s.len() ==> (s[i] as u32) < 128
}

/// An ASCII letter turned to uppercase; other characters unchanged.
pub open spec fn ascii_upper_char(c: char) -> char {
    if 'a' <= c && c <= 'z' { ((c as u32) - 32) as char } else { c }
}

/// An ASCII letter turned to lowercase; other characters unchanged.
pub open spec fn ascii_lower_char(c: char) -> char {
    if 'A' <= c && c <= 'Z' { ((c as u32) + 32) as char } else { c }
}

/// `str::to_uppercase`. Its result is named [`uppercase`]; on ASCII text it
/// turns each lowercase letter to uppercase and keeps the other characters.
/// The Unicode case mappings of other characters are left unsaid.
#[verifier::external_body]
pub fn to_uppercase(s: &str) -> (r: String)
    ensures
        r@ == uppercase(s@),
        all_ascii(s@) ==> r@ == s@.map_values(|c: char| ascii_upper_char(c)),
{
    s.to_uppercase()
}

/// `str::to_lowercase`. Its result is named [`lowercase`]; on ASCII text it
/// turns each uppercase letter to lowercase and keeps the other characters.
/// The Unicode case mappings of other characters are left unsaid.
#[verifier::external_body]
pub fn to_lowercase(s: &str) -> (r: String)
    ensures
        r@ == lowercase(s@),
        all_ascii(s@) ==> r@ == s@.map_values(|c: char| ascii_lower_char(c)),
{
    s.to_lowercase()
}

/// A copy of a string slice.
pub fn to_owned_string(s: &str) -> (r: String)
    ensures
        r@ == s@,
{
    String::from_str(s)
}

/// The first index at or after `i` whose character is not white space.
pub open spec fn trim_start_index(s: Seq<char>, i: int) -> int
    decreases s.len() - i,
{
    if 0 <= i < s.len() && crate::tokenizer::is_white_space(s[i]) {
        trim_start_index(s, i + 1)
    } else {
        i
    }
}

/// The end of the text once white space at its end, down to `lo`, is removed.
pub open spec fn trim_end_index(s: Seq<char>, lo: int, j: int) -> int
    decreases j - lo,
{
    if lo < j && j <= s.len() && crate::tokenizer::is_white_space(s[j - 1]) {
        trim_end_index(s, lo, j - 1)
    } else {
        j
    }
}

/// A text without white space at its start and its end (`str::trim`).
pub open spec fn trimmed(s: Seq<char>) -> Seq<char> {
    let a = trim_start_index(s, 0);
    s.subrange(a, trim_end_index(s, a, s.len() as int))
}

proof fn lemma_trim_start_bounds(s: Seq<char>, i: int)
    requires
        0 <= i <= s.len(),
    ensures
        i <= trim_start_index(s, i) <= s.len(),
    decreases s.len() - i,
{
    if 0 <= i < s.len() && crate::tokenizer::is_white_space(s[i]) {
        lemma_trim_start_bounds(s, i + 1);
    }
}

proof fn lemma_trim_end_bounds(s: Seq<char>, lo: int, j: int)
    requires
        0 <= lo <= j <= s.len(),
    ensures
        lo <= trim_end_index(s, lo, j) <= j,
    decreases j - lo,
{
    if lo < j && j <= s.len() && crate::tokenizer::is_white_space(s[j - 1]) {
        lemma_trim_end_bounds(s, lo, j - 1);
    }
}

/// The characters of `v` from `a` up to `b`, as a string.
pub fn string_of_range(v: &Vec<char>, a: usize, b: usize) -> (r: String)
    requires
        a <= b <= v@.len(),
    ensures
        r@ == v@.subrange(a as int, b as int),
{
    let mut r = String::new();
    let mut k = a;
    while k < b
        invariant
            a <= k <= b,
            b <= v@.len(),
            r@ == v@.subrange(a as int, k as int),
        decreases b - k,
    {
        push_char(&mut r, v[k]);
        k = k + 1;
        proof {
            assert(r@ =~= v@.subrange(a as int, k as int));
        }
    }
    r
}

/// The text of `v` from `a` up to `b`, with white space at both ends removed.
pub fn trim_range(v: &Vec<char>, a: usize, b: usize) -> (r: String)
    requires
        a <= b <= v@.len(),
    ensures
        r@ == trimmed(v@.subrange(a as int, b as int)),
{
    let ghost s = v@.subrange(a as int, b as int);
    let mut i = a;
    while i < b && crate::tokenizer::is_whitespace(v[i])
        invariant
            a <= i <= b,
            b <= v@.len(),
            s == v@.subrange(a as int, b as int),
            trim_start_index(s, i - a) == trim_start_index(s, 0),
        decreases b - i,
    {
        i = i + 1;
    }
    let mut j = b;
    while j > i && crate::tokenizer::is_whitespace(v[j - 1])
        invariant
            a <= i <= j <= b,
            b <= v@.len(),
            s == v@.subrange(a as int, b as int),
            trim_start_index(s, 0) == i - a,
            trim_end_index(s, i - a, j - a) == trim_end_index(s, i - a, b - a),
        decreases j - i,
    {
        j = j - 1;
    }
    let r = string_of_range(v, i, j);
    proof {
        assert(r@ =~= s.subrange(i - a, j - a));
    }
    r
}

/// `str::trim`: the text without white space at its start and its end.
pub fn trim(s: &str) -> (r: String)
    ensures
        r@ == trimmed(s@),
{
    let v = chars_of(s);
    let r = trim_range(&v, 0, v.len());
    proof {
        assert(v@.subrange(0, v@.len() as int) =~= v@);
    }
    r
}

/// Whether an optional text is given and holds `s`.
pub open spec fn is_text(o: Option<String>, s: Seq<char>) -> bool {
    o matches Some(x) && x@ == s
}

/// Whether `s` begins with `prefix`.
pub fn starts_with(s: &str, prefix: &str) -> (r: bool)
    ensures
        r == (prefix@.len() <= s@.len() && s@.subrange(0, prefix@.len() as int) == prefix@),
{
    let n = prefix.unicode_len();
    let m = s.unicode_len();
    if n > m {
        return false;
    }
    let mut i: usize = 0;
    while i < n
        invariant
            n == prefix@.len(),
            m == s@.len(),
            n <= m,
            i <= n,
            forall|j: int| 0 <= j < i ==> s@[j] == prefix@[j],
        decreases n - i,
    {
        if s.get_char(i) != prefix.get_char(i) {
            return false;
        }
        i = i + 1;
    }
    assert(s@.subrange(0, n as int) =~= prefix@);
    true
}

} // verus!

verus! {

/// The first index at or after `i` whose character is `sep` (the length of
/// the text when there is none).
pub open spec fn first_sep(s: Seq<char>, sep: char, i: int) -> int
    decreases s.len() - i,
{
    if 0 <= i < s.len() && s[i] != sep {
        first_sep(s, sep, i + 1)
    } else {
        i
    }
}

pub proof fn lemma_first_sep_bounds(s: Seq<char>, sep: char, i: int)
    requires
        0 <= i <= s.len(),
    ensures
        i <= first_sep(s, sep, i) <= s.len(),
        first_sep(s, sep, i) < s.len() ==> s[first_sep(s, sep, i)] == sep,
        forall|k: int| i <= k < first_sep(s, sep, i) ==> s[k] != sep,
    decreases s.len() - i,
{
    if 0 <= i < s.len() && s[i] != sep {
        lemma_first_sep_bounds(s, sep, i + 1);
    }
}

/// The pieces of the text from `i` on, split at each `sep` (`str::split`).
pub open spec fn split_from(s: Seq<char>, sep: char, i: int) -> Seq<Seq<char>>
    decreases s.len() - i,
{
    if i < 0 || i > s.len() {
        Seq::empty()
    } else {
        let j = first_sep(s, sep, i);
        if j >= s.len() || j < i {
            seq![s.subrange(i, s.len() as int)]
        } else {
            seq![s.subrange(i, j)] + split_from(s, sep, j + 1)
        }
    }
}

/// The pieces of a text split at each `sep`, each without white space at its ends.
pub open spec fn split_trimmed(s: Seq<char>, sep: char) -> Seq<Seq<char>> {
    split_from(s, sep, 0).map_values(|p: Seq<char>| trimmed(p))
}

/// The views of a list of strings.
pub open spec fn string_views(v: Seq<String>) -> Seq<Seq<char>> {
    v.map_values(|x: String| x@)
}

/// Splits a text at each `sep` and removes white space from the ends of each piece.
pub fn split_and_trim(s: &str, sep: char) -> (r: Vec<String>)
    ensures
        string_views(r@) == split_trimmed(s@, sep),
{
    let v = chars_of(s);
    let ghost t = v@;
    let mut out: Vec<String> = Vec::new();
    let mut i: usize = 0;
    loop
        invariant
            t == s@,
            v@ == t,
            i <= v@.len(),
            string_views(out@) + split_from(t, sep, i as int).map_values(|p: Seq<char>| trimmed(p))
                == split_trimmed(t, sep),
        decreases v@.len() - i,
    {
        let mut j = i;
        while j < v.len() && v[j] != sep
            invariant
                i <= j <= v@.len(),
                first_sep(t, sep, j as int) == first_sep(t, sep, i as int),
                v@ == t,
            decreases v@.len() - j,
        {
            j = j + 1;
        }
        proof {
            lemma_first_sep_bounds(t, sep, i as int);
        }
        let piece = trim_range(&v, i, j);
        let ghost before = out@;
        out.push(piece);
        proof {
            assert(string_views(out@) =~= string_views(before).push(piece@));
        }
        if j >= v.len() {
            proof {
                let rest = split_from(t, sep, i as int);
                assert(rest =~= seq![t.subrange(i as int, t.len() as int)]);
                assert(rest.map_values(|p: Seq<char>| trimmed(p)) =~= seq![piece@]);
                assert(string_views(before).push(piece@) =~= string_views(before) + seq![piece@]);
            }
            return out;
        }
        proof {
            let rest = split_from(t, sep, i as int);
            let tail = split_from(t, sep, j + 1);
            assert(rest =~= seq![t.subrange(i as int, j as int)] + tail);
            assert(rest.map_values(|p: Seq<char>| trimmed(p)) =~= seq![piece@] + tail.map_values(|p: Seq<char>| trimmed(p)));
            assert(string_views(out@) + tail.map_values(|p: Seq<char>| trimmed(p))
                =~= string_views(before) + rest.map_values(|p: Seq<char>| trimmed(p)));
        }
        i = j + 1;
    }
}

} // verus!

verus! {

/// A text without any occurrence of `c`.
pub open spec fn without_char(s: Seq<char>, c: char) -> Seq<char>
    decreases s.len(),
{
    if s.len() == 0 {
        Seq::empty()
    } else {
        let before = without_char(s.drop_last(), c);
        if s.last() == c { before } else { before.push(s.last()) }
    }
}

/// Removes every occurrence of `c` from a text.
pub fn remove_char(s: &str, c: char) -> (r: String)
    ensures
        r@ == without_char(s@, c),
{
    let v = chars_of(s);
    let mut r = String::new();
    let mut i: usize = 0;
    while i < v.len()
        invariant
            i <= v@.len(),
            v@ == s@,
            r@ == without_char(v@.subrange(0, i as int), c),
        decreases v@.len() - i,
    {
        proof {
            assert(v@.subrange(0, i + 1).drop_last() =~= v@.subrange(0, i as int));
        }
        if v[i] != c {
            push_char(&mut r, v[i]);
        }
        i = i + 1;
    }
    proof {
        assert(v@.subrange(0, v@.len() as int) =~= v@);
    }
    r
}

} // verus!

verus! {

/// A text with each occurrence of `pat` replaced by `rep`, from the left and
/// without overlaps, as `str::replace` does. An empty pattern replaces nothing.
pub open spec fn replaced(s: Seq<char>, pat: Seq<char>, rep: Seq<char>) -> Seq<char>
    decreases s.len(),
{
    if s.len() == 0 {
        Seq::empty()
    } else if pat.len() > 0 && pat.len() <= s.len() && s.subrange(0, pat.len() as int) == pat {
        rep + replaced(s.subrange(pat.len() as int, s.len() as int), pat, rep)
    } else {
        seq![s[0]] + replaced(s.subrange(1, s.len() as int), pat, rep)
    }
}

/// Whether `p` occurs in `v` at `i`.
fn occurs_at(v: &Vec<char>, i: usize, p: &Vec<char>) -> (r: bool)
    requires
        i <= v@.len(),
    ensures
        r == (i + p@.len() <= v@.len() && v@.subrange(i as int, i + p@.len()) == p@),
{
    let vl = v.len();
    if p.len() > vl - i {
        return false;
    }
    let mut j: usize = 0;
    while j < p.len()
        invariant
            j <= p@.len(),
            i <= v@.len(),
            vl == v@.len(),
            i + p@.len() <= v@.len(),
            forall|k: int| 0 <= k < j ==> v@[i + k] == p@[k],
        decreases p@.len() - j,
    {
        if v[i + j] != p[j] {
            proof {
                assert(v@.subrange(i as int, i + p@.len())[j as int] != p@[j as int]);
            }
            return false;
        }
        j = j + 1;
    }
    proof {
        assert(v@.subrange(i as int, i + p@.len()) =~= p@);
    }
    true
}

/// Replaces each occurrence of `pat` in `s` by `rep` (`str::replace`).
pub fn replace_all(s: &str, pat: &str, rep: &str) -> (r: String)
    ensures
        r@ == replaced(s@, pat@, rep@),
{
    let v = chars_of(s);
    let p = chars_of(pat);
    let ghost n = v@.len() as int;
    let mut out = String::new();
    let mut i: usize = 0;
    proof {
        assert(v@.subrange(0, n) =~= v@);
    }
    while i < v.len()
        invariant
            i <= v@.len(),
            n == v@.len(),
            v@ == s@,
            p@ == pat@,
            out@ + replaced(v@.subrange(i as int, n), pat@, rep@) == replaced(s@, pat@, rep@),
        decreases v@.len() - i,
    {
        let ghost rest = v@.subrange(i as int, n);
        if p.len() > 0 && occurs_at(&v, i, &p) {
            proof {
                assert(rest.subrange(0, p@.len() as int) =~= v@.subrange(i as int, i + p@.len()));
                assert(rest.subrange(p@.len() as int, rest.len() as int) =~= v@.subrange(i + p@.len(), n));
                assert(out@ + rep@ + replaced(v@.subrange(i + p@.len(), n), pat@, rep@)
                    =~= out@ + (rep@ + replaced(v@.subrange(i + p@.len(), n), pat@, rep@)));
            }
            out.append(rep);
            i = i + p.len();
        } else {
            proof {
                if p@.len() > 0 && p@.len() <= rest.len() {
                    assert(rest.subrange(0, p@.len() as int) =~= v@.subrange(i as int, i + p@.len()));
                }
                assert(rest.subrange(1, rest.len() as int) =~= v@.subrange(i + 1, n));
                assert(out@.push(v@[i as int]) + replaced(v@.subrange(i + 1, n), pat@, rep@)
                    =~= out@ + (seq![rest[0]] + replaced(v@.subrange(i + 1, n), pat@, rep@)));
            }
            push_char(&mut out, v[i]);
            i = i + 1;
        }
    }
    proof {
        assert(v@.subrange(i as int, n) =~= Seq::<char>::empty());
        assert(out@ + Seq::<char>::empty() =~= out@);
    }
    out
}

} // verus!

verus! {

/// Whether `needle` occurs in `hay`.
pub open spec fn has_substring(hay: Seq<char>, needle: Seq<char>) -> bool {
    exists|k: int| 0 <= k && k + needle.len() <= hay.len() && #[trigger] hay.subrange(k, k + needle.len()) == needle
}

/// Whether `needle` occurs in `hay` (`str::contains`).
pub fn contains_text(hay: &str, needle: &str) -> (r: bool)
    ensures
        r == has_substring(hay@, needle@),
{
    let v = chars_of(hay);
    let p = chars_of(needle);
    let mut i: usize = 0;
    while i < v.len()
        invariant
            i <= v@.len(),
            v@ == hay@,
            p@ == needle@,
            forall|k: int| 0 <= k < i && k + p@.len() <= v@.len() ==> #[trigger] v@.subrange(k, k + p@.len()) != p@,
        decreases v@.len() - i,
    {
        if occurs_at(&v, i, &p) {
            return true;
        }
        i = i + 1;
    }
    if occurs_at(&v, i, &p) {
        return true;
    }
    proof {
        assert forall|k: int| 0 <= k && k + needle@.len() <= hay@.len() implies #[trigger] hay@.subrange(k, k + needle@.len()) != needle@ by {
            assert(k < i || k == i || k + p@.len() > v@.len());
        }
    }
    false
}

} // verus!

verus! {

/// The lines of a text, as `str::lines` gives them: the pieces between
/// newlines, where a final empty piece (after a last newline, or of an empty
/// text) is not a line, and a carriage return before a newline is dropped.
pub open spec fn lines_of(s: Seq<char>) -> Seq<Seq<char>> {
    let pieces = split_from(s, '\n', 0);
    let n = pieces.len() as int;
    let ended = pieces.subrange(0, n - 1).map_values(|p: Seq<char>| without_cr(p));
    if pieces[n - 1].len() == 0 { ended } else { ended.push(pieces[n - 1]) }
}

/// A line without the carriage return at its end, if there is one.
pub open spec fn without_cr(p: Seq<char>) -> Seq<char> {
    if p.len() > 0 && p.last() == '\r' { p.drop_last() } else { p }
}

proof fn lemma_split_from_nonempty(s: Seq<char>, sep: char, i: int)
    requires
        0 <= i <= s.len(),
    ensures
        split_from(s, sep, i).len() >= 1,
    decreases s.len() - i,
{
    lemma_first_sep_bounds(s, sep, i);
    let j = first_sep(s, sep, i);
    if j < s.len() && j >= i {
        lemma_split_from_nonempty(s, sep, j + 1);
    }
}

/// Splits a text into its lines (`str::lines`).
pub fn lines(s: &str) -> (r: Vec<String>)
    ensures
        string_views(r@) == lines_of(s@),
{
    let v = chars_of(s);
    let ghost t = v@;
    let mut pieces: Vec<String> = Vec::new();
    let mut i: usize = 0;
    proof {
        lemma_split_from_nonempty(t, '\n', 0);
    }
    loop
        invariant_except_break
            string_views(pieces@) + split_from(t, '\n', i as int) == split_from(t, '\n', 0),
        invariant
            t == s@,
            v@ == t,
            i <= v@.len(),
        ensures
            string_views(pieces@) == split_from(t, '\n', 0),
        decreases v@.len() - i,
    {
        let mut j = i;
        while j < v.len() && v[j] != '\n'
            invariant
                i <= j <= v@.len(),
                first_sep(t, '\n', j as int) == first_sep(t, '\n', i as int),
                v@ == t,
            decreases v@.len() - j,
        {
            j = j + 1;
        }
        proof {
            lemma_first_sep_bounds(t, '\n', i as int);
        }
        let piece = string_of_range(&v, i, j);
        let ghost before = pieces@;
        pieces.push(piece);
        proof {
            assert(string_views(pieces@) =~= string_views(before).push(piece@));
        }
        if j >= v.len() {
            proof {
                assert(split_from(t, '\n', i as int) =~= seq![t.subrange(i as int, t.len() as int)]);
                assert(string_views(before).push(piece@) =~= string_views(before) + seq![piece@]);
                assert(string_views(pieces@) =~= split_from(t, '\n', 0));
            }
            break;
        }
        proof {
            let rest = split_from(t, '\n', i as int);
            let tail = split_from(t, '\n', j + 1);
            assert(rest =~= seq![t.subrange(i as int, j as int)] + tail);
            assert(string_views(pieces@) + tail =~= string_views(before) + rest);
        }
        i = j + 1;
    }
    // `pieces` now holds every piece; drop the final empty one and the
    // carriage returns before newlines.
    let ghost all = split_from(t, '\n', 0);
    assert(string_views(pieces@) == all);
    let n = pieces.len();
    let mut out: Vec<String> = Vec::new();
    let mut k: usize = 0;
    while k + 1 < n
        invariant
            n == pieces@.len(),
            n >= 1,
            k + 1 <= n,
            string_views(pieces@) == all,
            string_views(out@) == all.subrange(0, k as int).map_values(|p: Seq<char>| without_cr(p)),
        decreases n - k,
    {
        let p = pieces[k].as_str();
        let pv = chars_of(p);
        let line = if pv.len() > 0 && pv[pv.len() - 1] == '\r' {
            string_of_range(&pv, 0, pv.len() - 1)
        } else {
            proof {
                assert(pv@.subrange(0, pv@.len() as int) =~= pv@);
            }
            string_of_range(&pv, 0, pv.len())
        };
        let ghost before = out@;
        out.push(line);
        proof {
            assert(string_views(pieces@)[k as int] == pieces@[k as int]@);
            assert(all.subrange(0, k + 1) =~= all.subrange(0, k as int).push(all[k as int]));
            assert(string_views(out@) =~= string_views(before).push(line@));
        }
        k = k + 1;
    }
    proof {
        assert(string_views(pieces@)[n - 1] == pieces@[n - 1]@);
    }
    if !pieces[n - 1].as_str().is_empty() {
        let last = pieces[n - 1].clone();
        let ghost before = out@;
        out.push(last);
        proof {
            assert(string_views(out@) =~= string_views(before).push(last@));
        }
    }
    out
}

/// The position of the first character from `i` on that is not white space.
pub open spec fn skip_white(s: Seq<char>, i: int) -> int
    decreases s.len() - i,
{
    if 0 <= i < s.len() && crate::tokenizer::is_white_space(s[i]) { skip_white(s, i + 1) } else { i }
}

/// The position of the first white space character from `i` on.
pub open spec fn word_stop(s: Seq<char>, i: int) -> int
    decreases s.len() - i,
{
    if 0 <= i < s.len() && !crate::tokenizer::is_white_space(s[i]) { word_stop(s, i + 1) } else { i }
}

proof fn lemma_skip_word_bounds(s: Seq<char>, i: int)
    requires
        0 <= i <= s.len(),
    ensures
        i <= skip_white(s, i) <= s.len(),
        i <= word_stop(s, i) <= s.len(),
        skip_white(s, i) < s.len() ==> !crate::tokenizer::is_white_space(s[skip_white(s, i)]),
    decreases s.len() - i,
{
    if i < s.len() {
        lemma_skip_word_bounds(s, i + 1);
    }
}

/// The words of a text from `i` on: its runs of characters that are not
/// white space (`str::split_whitespace`).
pub open spec fn words_from(s: Seq<char>, i: int) -> Seq<Seq<char>>
    decreases s.len() - i,
{
    let a = skip_white(s, i);
    if i < 0 || a >= s.len() || a < i {
        Seq::empty()
    } else {
        let b = word_stop(s, a);
        if b <= a || b > s.len() {
            Seq::empty()
        } else {
            seq![s.subrange(a, b)] + words_from(s, b)
        }
    }
}

/// The words of a text.
pub open spec fn words(s: Seq<char>) -> Seq<Seq<char>> {
    words_from(s, 0)
}

/// Splits a text into its words (`str::split_whitespace`).
pub fn split_whitespace(s: &str) -> (r: Vec<String>)
    ensures
        string_views(r@) == words(s@),
{
    let v = chars_of(s);
    let ghost t = v@;
    let mut out: Vec<String> = Vec::new();
    let mut i: usize = 0;
    loop
        invariant
            t == s@,
            v@ == t,
            i <= v@.len(),
            string_views(out@) + words_from(t, i as int) == words(t),
        decreases v@.len() - i,
    {
        proof {
            lemma_skip_word_bounds(t, i as int);
        }
        let mut a = i;
        while a < v.len() && crate::tokenizer::is_whitespace(v[a])
            invariant
                i <= a <= v@.len(),
                v@ == t,
                skip_white(t, a as int) == skip_white(t, i as int),
            decreases v@.len() - a,
        {
            a = a + 1;
        }
        if a >= v.len() {
            proof {
                assert(words_from(t, i as int) =~= Seq::<Seq<char>>::empty());
                assert(string_views(out@) + Seq::<Seq<char>>::empty() =~= string_views(out@));
            }
            return out;
        }
        proof {
            lemma_skip_word_bounds(t, a as int);
        }
        let mut b = a;
        while b < v.len() && !crate::tokenizer::is_whitespace(v[b])
            invariant
                a <= b <= v@.len(),
                v@ == t,
                word_stop(t, b as int) == word_stop(t, a as int),
            decreases v@.len() - b,
        {
            b = b + 1;
        }
        let word = string_of_range(&v, a, b);
        let ghost before = out@;
        out.push(word);
        proof {
            assert(string_views(out@) =~= string_views(before).push(word@));
            assert(words_from(t, i as int) =~= seq![t.subrange(a as int, b as int)] + words_from(t, b as int));
            assert(string_views(out@) + words_from(t, b as int) =~= string_views(before) + words_from(t, i as int));
        }
        i = b;
    }
}

} // verus!

verus! {

/// Pieces of text put end to end with `sep` between each two.
pub open spec fn joined(parts: Seq<Seq<char>>, sep: Seq<char>) -> Seq<char>
    decreases parts.len(),
{
    if parts.len() == 0 {
        Seq::empty()
    } else if parts.len() == 1 {
        parts[0]
    } else {
        joined(parts.drop_last(), sep) + sep + parts.last()
    }
}

/// Puts strings end to end with `sep` between each two (`[String]::join`).
pub fn join_strings(parts: &Vec<String>, sep: &str) -> (r: String)
    ensures
        r@ == joined(string_views(parts@), sep@),
{
    let mut out = String::new();
    let mut i: usize = 0;
    while i < parts.len()
        invariant
            i <= parts@.len(),
            out@ == joined(string_views(parts@.take(i as int)), sep@),
        decreases parts@.len() - i,
    {
        proof {
            assert(string_views(parts@.take(i + 1)).drop_last() =~= string_views(parts@.take(i as int)));
        }
        if i > 0 {
            out.append(sep);
        }
        out.append(parts[i].as_str());
        i = i + 1;
    }
    proof {
        assert(parts@.take(parts@.len() as int) =~= parts@);
    }
    out
}

/// The number of bytes that UTF-8 takes for a character.
pub open spec fn utf8_width(c: char) -> nat {
    if (c as u32) < 0x80 {
        1
    } else if (c as u32) < 0x800 {
        2
    } else if (c as u32) < 0x10000 {
        3
    } else {
        4
    }
}

/// The number of bytes that UTF-8 takes for a text (`str::len`).
pub open spec fn utf8_len(s: Seq<char>) -> nat
    decreases s.len(),
{
    if s.len() == 0 {
        0
    } else {
        utf8_len(s.drop_last()) + utf8_width(s.last())
    }
}

/// How many characters, from index `i` on, a text can show within `n`
/// bytes: the first `k >= i` whose next character would pass `n` bytes.
pub open spec fn chars_within(s: Seq<char>, n: nat, i: int) -> int
    decreases s.len() - i,
{
    if i < 0 || i >= s.len() || utf8_len(s.take(i + 1)) > n {
        i
    } else {
        chars_within(s, n, i + 1)
    }
}

/// Whether a text longer than `n` bytes has a character boundary at byte
/// `n`, so that its first `n` bytes can be cut off.
pub open spec fn cuttable(s: Seq<char>, n: nat) -> bool {
    utf8_len(s) > n ==> utf8_len(s.take(chars_within(s, n, 0))) == n
}

/// A text cut to its first `n` bytes followed by `...` when it is longer
/// than `n` bytes, else the text itself.
pub open spec fn shortened(s: Seq<char>, n: nat) -> Seq<char> {
    if utf8_len(s) > n {
        s.take(chars_within(s, n, 0)) + "..."@
    } else {
        s
    }
}

proof fn lemma_utf8_len_take(s: Seq<char>, i: int)
    requires
        0 <= i < s.len(),
    ensures
        utf8_len(s.take(i + 1)) == utf8_len(s.take(i)) + utf8_width(s[i]),
{
    assert(s.take(i + 1).drop_last() =~= s.take(i));
}

proof fn lemma_utf8_len_grows(s: Seq<char>, i: int)
    requires
        0 <= i <= s.len(),
    ensures
        utf8_len(s.take(i)) <= utf8_len(s),
    decreases s.len() - i,
{
    if i < s.len() {
        lemma_utf8_len_take(s, i);
        lemma_utf8_len_grows(s, i + 1);
    } else {
        assert(s.take(i) =~= s);
    }
}

fn char_width(c: char) -> (w: usize)
    ensures
        w == utf8_width(c),
{
    let u = c as u32;
    if u < 0x80 {
        1
    } else if u < 0x800 {
        2
    } else if u < 0x10000 {
        3
    } else {
        4
    }
}

/// Cuts a text to its first `n` bytes and appends `...` when it is longer
/// than `n` bytes (`&s[..n]`, which needs a character boundary there).
pub fn shorten(s: &str, n: usize) -> (r: String)
    requires
        cuttable(s@, n as nat),
    ensures
        r@ == shortened(s@, n as nat),
{
    let v = chars_of(s);
    let mut i: usize = 0;
    let mut used: usize = 0;
    while i < v.len() && char_width(v[i]) <= n - used
        invariant
            v@ == s@,
            i <= v@.len(),
            used == utf8_len(s@.take(i as int)),
            used <= n,
            chars_within(s@, n as nat, i as int) == chars_within(s@, n as nat, 0),
        decreases v@.len() - i,
    {
        proof {
            lemma_utf8_len_take(s@, i as int);
        }
        used = used + char_width(v[i]);
        i = i + 1;
    }
    proof {
        if i < v@.len() {
            lemma_utf8_len_take(s@, i as int);
            lemma_utf8_len_grows(s@, i + 1);
        } else {
            assert(s@.take(i as int) =~= s@);
        }
    }
    if i < v.len() {
        let mut r = string_of_range(&v, 0, i);
        r.append("...");
        r
    } else {
        string_of_range(&v, 0, v.len())
    }
}

} // verus!
