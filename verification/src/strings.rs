//! Verified string utilities: character search, substring search, slicing,
//! trimming, splitting and joining, all specified over `Seq<char>` views.

use vstd::prelude::*;
use vstd::string::StrSliceExecFns;
use vstd::string::StringExecFns;

verus! {

/// The whitespace recognised by the metadata grammar: the four common
/// ASCII whitespace characters.
pub open spec fn is_space_char(c: char) -> bool {
    c == ' ' || c == '\t' || c == '\n' || c == '\r'
}

/// An ASCII decimal digit.
pub open spec fn is_digit_char(c: char) -> bool {
    48 <= (c as u32) && (c as u32) <= 57
}

/// Index of the first occurrence of `c` in `s` at or after `from`.
pub open spec fn spec_find_char(s: Seq<char>, c: char, from: int) -> Option<int>
    decreases s.len() - from,
{
    if from < 0 || from >= s.len() {
        None
    } else if s[from] == c {
        Some(from)
    } else {
        spec_find_char(s, c, from + 1)
    }
}

/// Index of the last occurrence of `c` in `s` strictly before `upto`.
pub open spec fn spec_rfind_char(s: Seq<char>, c: char, upto: int) -> Option<int>
    decreases upto,
{
    if upto <= 0 || upto > s.len() {
        None
    } else if s[upto - 1] == c {
        Some(upto - 1)
    } else {
        spec_rfind_char(s, c, upto - 1)
    }
}

/// Does `pat` occur in `s` starting at index `i`?
pub open spec fn spec_match_at(s: Seq<char>, pat: Seq<char>, i: int) -> bool {
    0 <= i && i + pat.len() <= s.len() && s.subrange(i, i + pat.len()) == pat
}

/// Index of the first occurrence of `pat` in `s` at or after `from`.
pub open spec fn spec_find_sub(s: Seq<char>, pat: Seq<char>, from: int) -> Option<int>
    decreases s.len() - from,
{
    if from < 0 || from + pat.len() > s.len() {
        None
    } else if pat.len() == 0 || spec_match_at(s, pat, from) {
        Some(from)
    } else {
        spec_find_sub(s, pat, from + 1)
    }
}

/// Does `pat` occur anywhere in `s`?
pub open spec fn spec_contains(s: Seq<char>, pat: Seq<char>) -> bool {
    spec_find_sub(s, pat, 0) is Some
}

/// Index of the first non-whitespace character at or after `i`.
pub open spec fn spec_skip_spaces(s: Seq<char>, i: int) -> int
    decreases s.len() - i,
{
    if i < 0 || i >= s.len() {
        s.len() as int
    } else if is_space_char(s[i]) {
        spec_skip_spaces(s, i + 1)
    } else {
        i
    }
}

/// One past the last non-whitespace character strictly before `i`.
pub open spec fn spec_skip_spaces_rev(s: Seq<char>, i: int) -> int
    decreases i,
{
    if i <= 0 || i > s.len() {
        0
    } else if is_space_char(s[i - 1]) {
        spec_skip_spaces_rev(s, i - 1)
    } else {
        i
    }
}

/// `s` with leading and trailing whitespace removed.
pub open spec fn spec_trim(s: Seq<char>) -> Seq<char> {
    let a = spec_skip_spaces(s, 0);
    if a == s.len() {
        Seq::empty()
    } else {
        s.subrange(a, spec_skip_spaces_rev(s, s.len() as int))
    }
}

/// Every character of `s` is an ASCII decimal digit.
pub open spec fn spec_all_digits(s: Seq<char>) -> bool {
    forall|j: int| 0 <= j < s.len() ==> is_digit_char(#[trigger] s[j])
}

/// The character of the given string at character index `i`.
pub fn char_at(s: &str, i: usize) -> (c: char)
    requires
        i < s@.len(),
    ensures
        c == s@[i as int],
{
    s.get_char(i)
}

/// The character count of the given string.
pub fn str_len(s: &str) -> (n: usize)
    ensures
        n == s@.len(),
{
    s.unicode_len()
}

/// The characters of `s` from index `a` to index `b`, as an owned string.
pub fn substr(s: &str, a: usize, b: usize) -> (r: String)
    requires
        a <= b <= s@.len(),
    ensures
        r@ == s@.subrange(a as int, b as int),
{
    s.substring_char(a, b).to_owned()
}

/// First occurrence of the character `c` in `s` at or after `from`.
pub fn find_char_from(s: &str, c: char, from: usize) -> (r: Option<usize>)
    ensures
        match r {
            Some(i) => from <= i < s@.len() && spec_find_char(s@, c, from as int) == Some(
                i as int,
            ),
            None => spec_find_char(s@, c, from as int) is None,
        },
{
    let n = str_len(s);
    let mut i = from;
    while i < n
        invariant
            n == s@.len(),
            from <= i,
            spec_find_char(s@, c, from as int) == spec_find_char(s@, c, i as int),
        decreases n - i,
    {
        if char_at(s, i) == c {
            return Some(i);
        }
        i = i + 1;
    }
    None
}

/// Last occurrence of the character `c` in `s`.
pub fn rfind_char(s: &str, c: char) -> (r: Option<usize>)
    ensures
        match r {
            Some(i) => i < s@.len() && spec_rfind_char(s@, c, s@.len() as int) == Some(i as int),
            None => spec_rfind_char(s@, c, s@.len() as int) is None,
        },
{
    let n = str_len(s);
    let mut i = n;
    while i > 0
        invariant
            n == s@.len(),
            i <= n,
            spec_rfind_char(s@, c, n as int) == spec_rfind_char(s@, c, i as int),
        decreases i,
    {
        if char_at(s, i - 1) == c {
            return Some(i - 1);
        }
        i = i - 1;
    }
    None
}

/// Does `pat` occur in `s` starting at character index `i`?
pub fn match_at(s: &str, pat: &str, i: usize) -> (r: bool)
    ensures
        r == spec_match_at(s@, pat@, i as int),
{
    let n = str_len(s);
    let m = str_len(pat);
    if m > n || i > n - m {
        assert(!spec_match_at(s@, pat@, i as int));
        return false;
    }
    let mut j: usize = 0;
    while j < m
        invariant
            n == s@.len(),
            m == pat@.len(),
            i + m <= n,
            j <= m,
            forall|k: int| 0 <= k < j ==> s@[i + k] == pat@[k],
        decreases m - j,
    {
        if char_at(s, i + j) != char_at(pat, j) {
            assert(s@.subrange(i as int, i + m) != pat@) by {
                assert(s@.subrange(i as int, i + m)[j as int] == s@[i + j]);
            }
            return false;
        }
        j = j + 1;
    }
    assert(s@.subrange(i as int, i + m) =~= pat@);
    true
}

/// First occurrence of `pat` in `s` at or after `from`.
pub fn find_sub_from(s: &str, pat: &str, from: usize) -> (r: Option<usize>)
    ensures
        match r {
            Some(i) => from <= i && i + pat@.len() <= s@.len() && spec_find_sub(
                s@,
                pat@,
                from as int,
            ) == Some(i as int),
            None => spec_find_sub(s@, pat@, from as int) is None,
        },
{
    let n = str_len(s);
    let m = str_len(pat);
    if m > n || from > n - m {
        return None;
    }
    if m == 0 {
        return Some(from);
    }
    let mut i = from;
    while i <= n - m
        invariant
            n == s@.len(),
            m == pat@.len(),
            0 < m <= n,
            from <= i <= n - m + 1,
            spec_find_sub(s@, pat@, from as int) == spec_find_sub(s@, pat@, i as int),
        decreases n - i,
    {
        if match_at(s, pat, i) {
            return Some(i);
        }
        i = i + 1;
    }
    None
}

/// Does `pat` occur anywhere in `s`?
pub fn contains_sub(s: &str, pat: &str) -> (r: bool)
    ensures
        r == spec_contains(s@, pat@),
{
    find_sub_from(s, pat, 0).is_some()
}

/// Does `s` begin with `pat`?
pub fn starts_with(s: &str, pat: &str) -> (r: bool)
    ensures
        r == spec_match_at(s@, pat@, 0),
{
    match_at(s, pat, 0)
}

/// Does `s` end with `pat`?
pub open spec fn spec_ends_with(s: Seq<char>, pat: Seq<char>) -> bool {
    pat.len() <= s.len() && spec_match_at(s, pat, s.len() - pat.len())
}

/// Does `s` end with `pat`?
pub fn ends_with(s: &str, pat: &str) -> (r: bool)
    ensures
        r == spec_ends_with(s@, pat@),
{
    let n = str_len(s);
    let m = str_len(pat);
    if m > n {
        return false;
    }
    match_at(s, pat, n - m)
}

/// `s` without leading and trailing whitespace.
pub fn trim(s: &str) -> (r: String)
    ensures
        r@ == spec_trim(s@),
{
    let n = str_len(s);
    let mut a: usize = 0;
    while a < n && is_space(char_at(s, a))
        invariant
            n == s@.len(),
            a <= n,
            spec_skip_spaces(s@, 0) == spec_skip_spaces(s@, a as int),
        decreases n - a,
    {
        a = a + 1;
    }
    assert(spec_skip_spaces(s@, a as int) == a as int);
    if a == n {
        let r = String::new();
        assert(r@ =~= spec_trim(s@));
        return r;
    }
    let mut b: usize = n;
    while b > 0 && is_space(char_at(s, b - 1))
        invariant
            n == s@.len(),
            b <= n,
            spec_skip_spaces_rev(s@, n as int) == spec_skip_spaces_rev(s@, b as int),
        decreases b,
    {
        b = b - 1;
    }
    assert(spec_skip_spaces_rev(s@, b as int) == b as int);
    proof {
        lemma_skip_spaces_le(s@, a as int);
        lemma_skip_spaces_rev_ge(s@, n as int, a as int);
    }
    substr(s, a, b)
}

/// Whitespace test for one character.
pub fn is_space(c: char) -> (r: bool)
    ensures
        r == is_space_char(c),
{
    c == ' ' || c == '\t' || c == '\n' || c == '\r'
}

/// Decimal-digit test for one character.
pub fn is_digit(c: char) -> (r: bool)
    ensures
        r == is_digit_char(c),
{
    let u = c as u32;
    48 <= u && u <= 57
}

/// Is every character of `s` a decimal digit?
pub fn all_digits(s: &str) -> (r: bool)
    ensures
        r == spec_all_digits(s@),
{
    let n = str_len(s);
    let mut i: usize = 0;
    while i < n
        invariant
            n == s@.len(),
            i <= n,
            forall|j: int| 0 <= j < i ==> is_digit_char(#[trigger] s@[j]),
        decreases n - i,
    {
        if !is_digit(char_at(s, i)) {
            return false;
        }
        i = i + 1;
    }
    true
}

/// The views of a sequence of owned strings.
pub open spec fn views_of(v: Seq<String>) -> Seq<Seq<char>> {
    Seq::new(v.len(), |i: int| v[i]@)
}

/// The pieces of `s` between occurrences of `c`, scanning from `start`.
pub open spec fn spec_split_char_from(s: Seq<char>, c: char, start: int) -> Seq<Seq<char>>
    decreases s.len() - start,
{
    if start < 0 || start > s.len() {
        Seq::empty()
    } else {
        let found = spec_find_char(s, c, start);
        if found is Some && start <= found.unwrap() < s.len() {
            seq![s.subrange(start, found.unwrap())] + spec_split_char_from(
                s,
                c,
                found.unwrap() + 1,
            )
        } else {
            seq![s.subrange(start, s.len() as int)]
        }
    }
}

/// The pieces of `s` between occurrences of `c`.
pub open spec fn spec_split_char(s: Seq<char>, c: char) -> Seq<Seq<char>> {
    spec_split_char_from(s, c, 0)
}

/// The pieces of `s` between occurrences of the separator `sep`,
/// scanning from `start`.
pub open spec fn spec_split_str_from(s: Seq<char>, sep: Seq<char>, start: int) -> Seq<Seq<char>>
    decreases s.len() - start,
{
    if start < 0 || start > s.len() || sep.len() == 0 {
        Seq::empty()
    } else {
        let found = spec_find_sub(s, sep, start);
        if found is Some && start <= found.unwrap() <= s.len() - sep.len() {
            seq![s.subrange(start, found.unwrap())] + spec_split_str_from(
                s,
                sep,
                found.unwrap() + sep.len(),
            )
        } else {
            seq![s.subrange(start, s.len() as int)]
        }
    }
}

/// The pieces of `s` between occurrences of `sep`.
pub open spec fn spec_split_str(s: Seq<char>, sep: Seq<char>) -> Seq<Seq<char>> {
    spec_split_str_from(s, sep, 0)
}

/// The pieces joined with the separator between consecutive pieces.
pub open spec fn spec_join(pieces: Seq<Seq<char>>, sep: Seq<char>) -> Seq<char>
    decreases pieces.len(),
{
    if pieces.len() == 0 {
        Seq::empty()
    } else if pieces.len() == 1 {
        pieces[0]
    } else {
        pieces[0] + sep + spec_join(pieces.subrange(1, pieces.len() as int), sep)
    }
}

/// Appending one more piece extends the join by a separator and the piece.
pub proof fn lemma_join_push(pieces: Seq<Seq<char>>, x: Seq<char>, sep: Seq<char>)
    ensures
        spec_join(pieces.push(x), sep) == if pieces.len() == 0 {
            x
        } else {
            spec_join(pieces, sep) + sep + x
        },
    decreases pieces.len(),
{
    let p = pieces.push(x);
    if pieces.len() == 0 {
        assert(p.len() == 1);
        assert(p[0] == x);
    } else if pieces.len() == 1 {
        assert(p.subrange(1, p.len() as int) =~= seq![x]);
        assert(spec_join(p.subrange(1, p.len() as int), sep) == x);
    } else {
        lemma_join_push(pieces.subrange(1, pieces.len() as int), x, sep);
        assert(p.subrange(1, p.len() as int) =~= pieces.subrange(1, pieces.len() as int).push(x));
        assert(spec_join(pieces, sep) + sep + x == pieces[0] + sep + (spec_join(
            pieces.subrange(1, pieces.len() as int),
            sep,
        ) + sep + x)) by {
            assert((pieces[0] + sep + spec_join(pieces.subrange(1, pieces.len() as int), sep)) + sep
                + x =~= pieces[0] + sep + (spec_join(pieces.subrange(1, pieces.len() as int), sep)
                + sep + x));
        }
    }
}

/// Are the two strings the same sequence of characters?
pub fn str_eq(a: &str, b: &str) -> (r: bool)
    ensures
        r == (a@ == b@),
{
    let n = str_len(a);
    let m = str_len(b);
    if n != m {
        return false;
    }
    let r = match_at(a, b, 0);
    proof {
        if r {
            assert(a@.subrange(0, m as int) =~= a@);
        } else {
            assert(a@.subrange(0, m as int) =~= a@);
        }
    }
    r
}

/// A character folded to upper case when it is an ASCII lower-case letter.
pub open spec fn upper_code(c: char) -> int {
    if 97 <= (c as u32) && (c as u32) <= 122 {
        (c as u32) - 32
    } else {
        (c as u32) as int
    }
}

/// Equality of two strings up to ASCII letter case.
pub open spec fn spec_ieq(a: Seq<char>, b: Seq<char>) -> bool {
    a.len() == b.len() && forall|i: int|
        0 <= i < a.len() ==> upper_code(#[trigger] a[i]) == upper_code(b[i])
}

/// Are the two strings equal up to ASCII letter case?
pub fn eq_ignore_case(a: &str, b: &str) -> (r: bool)
    ensures
        r == spec_ieq(a@, b@),
{
    let n = str_len(a);
    let m = str_len(b);
    if n != m {
        return false;
    }
    let mut i: usize = 0;
    while i < n
        invariant
            n == a@.len(),
            n == b@.len(),
            i <= n,
            forall|j: int| 0 <= j < i ==> upper_code(#[trigger] a@[j]) == upper_code(b@[j]),
        decreases n - i,
    {
        let ca = char_at(a, i) as u32;
        let cb = char_at(b, i) as u32;
        let ua = if 97 <= ca && ca <= 122 {
            ca - 32
        } else {
            ca
        };
        let ub = if 97 <= cb && cb <= 122 {
            cb - 32
        } else {
            cb
        };
        if ua != ub {
            return false;
        }
        i = i + 1;
    }
    true
}

/// The pieces of `s` between occurrences of the character `c`.
pub fn split_char(s: &str, c: char) -> (r: Vec<String>)
    ensures
        views_of(r@) == spec_split_char(s@, c),
{
    let n = str_len(s);
    let mut acc: Vec<String> = Vec::new();
    let mut pos: usize = 0;
    loop
        invariant
            n == s@.len(),
            pos <= n,
            views_of(acc@) + spec_split_char_from(s@, c, pos as int) == spec_split_char(s@, c),
        decreases n - pos,
    {
        match find_char_from(s, c, pos) {
            Some(i) => {
                let piece = substr(s, pos, i);
                proof {
                    assert(views_of(acc@.push(piece)) =~= views_of(acc@) + seq![piece@]);
                    assert(views_of(acc@) + (seq![piece@] + spec_split_char_from(
                        s@,
                        c,
                        i + 1,
                    )) =~= (views_of(acc@) + seq![piece@]) + spec_split_char_from(s@, c, i + 1));
                }
                acc.push(piece);
                pos = i + 1;
            },
            None => {
                let piece = substr(s, pos, n);
                proof {
                    assert(views_of(acc@.push(piece)) =~= views_of(acc@) + seq![piece@]);
                }
                acc.push(piece);
                assert(views_of(acc@) =~= spec_split_char(s@, c));
                return acc;
            },
        }
    }
}

/// The pieces of `s` between occurrences of the separator `sep`.
pub fn split_str(s: &str, sep: &str) -> (r: Vec<String>)
    requires
        sep@.len() > 0,
    ensures
        views_of(r@) == spec_split_str(s@, sep@),
{
    let n = str_len(s);
    let m = str_len(sep);
    let mut acc: Vec<String> = Vec::new();
    let mut pos: usize = 0;
    loop
        invariant
            n == s@.len(),
            m == sep@.len(),
            0 < m,
            pos <= n,
            views_of(acc@) + spec_split_str_from(s@, sep@, pos as int) == spec_split_str(s@, sep@),
        decreases n - pos,
    {
        match find_sub_from(s, sep, pos) {
            Some(i) => {
                let piece = substr(s, pos, i);
                proof {
                    assert(views_of(acc@.push(piece)) =~= views_of(acc@) + seq![piece@]);
                    assert(views_of(acc@) + (seq![piece@] + spec_split_str_from(
                        s@,
                        sep@,
                        i + m,
                    )) =~= (views_of(acc@) + seq![piece@]) + spec_split_str_from(s@, sep@, i + m));
                }
                acc.push(piece);
                pos = i + m;
            },
            None => {
                let piece = substr(s, pos, n);
                proof {
                    assert(views_of(acc@.push(piece)) =~= views_of(acc@) + seq![piece@]);
                }
                acc.push(piece);
                assert(views_of(acc@) =~= spec_split_str(s@, sep@));
                return acc;
            },
        }
    }
}

/// The given strings joined with the separator between consecutive pieces.
pub fn join_with(pieces: &Vec<String>, sep: &str) -> (r: String)
    ensures
        r@ == spec_join(views_of(pieces@), sep@),
{
    let mut out = String::new();
    let mut i: usize = 0;
    while i < pieces.len()
        invariant
            i <= pieces@.len(),
            out@ == spec_join(views_of(pieces@.subrange(0, i as int)), sep@),
        decreases pieces@.len() - i,
    {
        proof {
            lemma_join_push(views_of(pieces@.subrange(0, i as int)), pieces@[i as int]@, sep@);
            assert(views_of(pieces@.subrange(0, i + 1)) =~= views_of(
                pieces@.subrange(0, i as int),
            ).push(pieces@[i as int]@));
        }
        if i > 0 {
            out.append(sep);
        }
        out.append(pieces[i].as_str());
        i = i + 1;
    }
    proof {
        assert(pieces@.subrange(0, pieces@.len() as int) =~= pieces@);
    }
    out
}

/// Index of the first character at or after `i` that is not `c`.
pub open spec fn spec_skip_char(s: Seq<char>, c: char, i: int) -> int
    decreases s.len() - i,
{
    if i < 0 || i >= s.len() {
        s.len() as int
    } else if s[i] == c {
        spec_skip_char(s, c, i + 1)
    } else {
        i
    }
}

/// One past the last character strictly before `i` that is not `c`.
pub open spec fn spec_skip_char_rev(s: Seq<char>, c: char, i: int) -> int
    decreases i,
{
    if i <= 0 || i > s.len() {
        0
    } else if s[i - 1] == c {
        spec_skip_char_rev(s, c, i - 1)
    } else {
        i
    }
}

/// `s` with every leading and trailing occurrence of `c` removed.
pub open spec fn spec_trim_char(s: Seq<char>, c: char) -> Seq<char> {
    let a = spec_skip_char(s, c, 0);
    if a == s.len() {
        Seq::empty()
    } else {
        s.subrange(a, spec_skip_char_rev(s, c, s.len() as int))
    }
}

/// `s` with every leading and trailing occurrence of `c` removed.
pub fn trim_char(s: &str, c: char) -> (r: String)
    ensures
        r@ == spec_trim_char(s@, c),
{
    let n = str_len(s);
    let mut a: usize = 0;
    while a < n && char_at(s, a) == c
        invariant
            n == s@.len(),
            a <= n,
            spec_skip_char(s@, c, 0) == spec_skip_char(s@, c, a as int),
        decreases n - a,
    {
        a = a + 1;
    }
    assert(spec_skip_char(s@, c, a as int) == a as int);
    if a == n {
        let r = String::new();
        assert(r@ =~= spec_trim_char(s@, c));
        return r;
    }
    let mut b: usize = n;
    while b > 0 && char_at(s, b - 1) == c
        invariant
            n == s@.len(),
            b <= n,
            spec_skip_char_rev(s@, c, n as int) == spec_skip_char_rev(s@, c, b as int),
        decreases b,
    {
        b = b - 1;
    }
    assert(spec_skip_char_rev(s@, c, b as int) == b as int);
    proof {
        lemma_skip_char_le(s@, c, a as int);
        lemma_skip_char_rev_ge(s@, c, n as int, a as int);
    }
    substr(s, a, b)
}

/// `s` with every leading occurrence of `c` removed.
pub open spec fn spec_trim_start_char(s: Seq<char>, c: char) -> Seq<char> {
    s.subrange(spec_skip_char(s, c, 0), s.len() as int)
}

/// `s` with every trailing occurrence of `c` removed.
pub open spec fn spec_trim_end_char(s: Seq<char>, c: char) -> Seq<char> {
    s.subrange(0, spec_skip_char_rev(s, c, s.len() as int))
}

/// `s` with every leading occurrence of `c` removed.
pub fn trim_start_char(s: &str, c: char) -> (r: String)
    ensures
        r@ == spec_trim_start_char(s@, c),
{
    let n = str_len(s);
    let mut a: usize = 0;
    while a < n && char_at(s, a) == c
        invariant
            n == s@.len(),
            a <= n,
            spec_skip_char(s@, c, 0) == spec_skip_char(s@, c, a as int),
        decreases n - a,
    {
        a = a + 1;
    }
    assert(spec_skip_char(s@, c, a as int) == a as int);
    substr(s, a, n)
}

/// `s` with every trailing occurrence of `c` removed.
pub fn trim_end_char(s: &str, c: char) -> (r: String)
    ensures
        r@ == spec_trim_end_char(s@, c),
{
    let n = str_len(s);
    let mut b: usize = n;
    while b > 0 && char_at(s, b - 1) == c
        invariant
            n == s@.len(),
            b <= n,
            spec_skip_char_rev(s@, c, n as int) == spec_skip_char_rev(s@, c, b as int),
        decreases b,
    {
        b = b - 1;
    }
    assert(spec_skip_char_rev(s@, c, b as int) == b as int);
    substr(s, 0, b)
}

/// Is `c` one of the characters a type name loses when it becomes an
/// identifier?
pub open spec fn is_type_punct(c: char) -> bool {
    c == '<' || c == '>' || c == ' ' || c == ',' || c == ':' || c == ';' || c == '(' || c == ')'
        || c == '[' || c == ']' || c == '{' || c == '}' || c == '&' || c == '*'
}

/// Each punctuation character replaced by an underscore.
pub open spec fn spec_punct_mapped(s: Seq<char>) -> Seq<char> {
    Seq::new(
        s.len(),
        |i: int|
            if is_type_punct(s[i]) {
                '_'
            } else {
                s[i]
            },
    )
}

/// One left-to-right pass over `s` from `i`, writing a single underscore
/// for each non-overlapping underscore pair.
pub open spec fn spec_squash_uu(s: Seq<char>, i: int) -> Seq<char>
    decreases s.len() - i,
{
    if i < 0 || i >= s.len() {
        Seq::empty()
    } else if i + 1 < s.len() && s[i] == '_' && s[i + 1] == '_' {
        seq!['_'] + spec_squash_uu(s, i + 2)
    } else {
        seq![s[i]] + spec_squash_uu(s, i + 1)
    }
}

/// A type name reduced to an identifier: punctuation characters become
/// underscores, each underscore pair collapses once, and leading and
/// trailing underscores go.
pub open spec fn spec_sanitized(s: Seq<char>) -> Seq<char> {
    spec_trim_char(spec_squash_uu(spec_punct_mapped(s), 0), '_')
}

/// A type name reduced to an identifier, for generated schema names:
/// punctuation becomes underscores, underscore pairs collapse once, and
/// the ends are trimmed of underscores.
pub fn sanitize_type_for_identifier(type_str: &str) -> (r: String)
    ensures
        r@ == spec_sanitized(type_str@),
{
    let n = str_len(type_str);
    let mut mapped = String::new();
    let mut i: usize = 0;
    while i < n
        invariant
            n == type_str@.len(),
            i <= n,
            mapped@ =~= spec_punct_mapped(type_str@).subrange(0, i as int),
        decreases n - i,
    {
        let c = char_at(type_str, i);
        let punct = c == '<' || c == '>' || c == ' ' || c == ',' || c == ':' || c == ';' || c
            == '(' || c == ')' || c == '[' || c == ']' || c == '{' || c == '}' || c == '&' || c
            == '*';
        if punct {
            mapped.append("_");
            proof {
                reveal_strlit("_");
                assert(mapped@ =~= spec_punct_mapped(type_str@).subrange(0, i + 1));
            }
        } else {
            let piece = substr(type_str, i, i + 1);
            proof {
                assert(piece@ =~= seq![type_str@[i as int]]);
            }
            mapped.append(piece.as_str());
            proof {
                assert(mapped@ =~= spec_punct_mapped(type_str@).subrange(0, i + 1));
            }
        }
        i = i + 1;
    }
    proof {
        assert(spec_punct_mapped(type_str@).subrange(0, n as int) =~= spec_punct_mapped(
            type_str@,
        ));
    }
    let mstr = mapped.as_str();
    let mn = str_len(mstr);
    let mut out = String::new();
    let mut j: usize = 0;
    while j < mn
        invariant
            mn == mapped@.len(),
            mstr@ == mapped@,
            j <= mn,
            out@ + spec_squash_uu(mapped@, j as int) =~= spec_squash_uu(mapped@, 0),
        decreases mn - j,
    {
        if j + 1 < mn && char_at(mstr, j) == '_' && char_at(mstr, j + 1) == '_' {
            out.append("_");
            proof {
                reveal_strlit("_");
                assert(("_")@ =~= seq!['_']);
            }
            j = j + 2;
        } else {
            let piece = substr(mstr, j, j + 1);
            proof {
                assert(piece@ =~= seq![mapped@[j as int]]);
            }
            out.append(piece.as_str());
            j = j + 1;
        }
    }
    trim_char(out.as_str(), '_')
}

/// The first index past a run of `c` never moves left of its argument.
proof fn lemma_skip_char_le(s: Seq<char>, c: char, i: int)
    requires
        0 <= i <= s.len(),
    ensures
        i <= spec_skip_char(s, c, i) <= s.len(),
    decreases s.len() - i,
{
    if i < s.len() && s[i] == c {
        lemma_skip_char_le(s, c, i + 1);
    }
}

/// Trimming `c` on the right stops strictly after a position holding a
/// different character.
proof fn lemma_skip_char_rev_ge(s: Seq<char>, c: char, i: int, a: int)
    requires
        0 <= a < s.len(),
        s[a] != c,
        a < i <= s.len(),
    ensures
        a < spec_skip_char_rev(s, c, i) <= i,
    decreases i,
{
    if a < i - 1 && s[i - 1] == c {
        lemma_skip_char_rev_ge(s, c, i - 1, a);
    }
}

/// What a found character index means: the character stands there, and
/// nowhere earlier in the searched range.
pub proof fn lemma_find_char_props(s: Seq<char>, c: char, from: int)
    requires
        0 <= from,
    ensures
        match spec_find_char(s, c, from) {
            Some(i) => from <= i < s.len() && s[i] == c && forall|j: int|
                from <= j < i ==> s[j] != c,
            None => forall|j: int| from <= j < s.len() ==> s[j] != c,
        },
    decreases s.len() - from,
{
    if from < s.len() && s[from] != c {
        lemma_find_char_props(s, c, from + 1);
    }
}

/// What a found last index means: the character stands there, and nowhere
/// later before the bound.
pub proof fn lemma_rfind_char_props(s: Seq<char>, c: char, upto: int)
    requires
        upto <= s.len(),
    ensures
        match spec_rfind_char(s, c, upto) {
            Some(i) => 0 <= i < upto && s[i] == c && forall|j: int| i < j < upto ==> s[j] != c,
            None => forall|j: int| 0 <= j < upto ==> s[j] != c,
        },
    decreases upto,
{
    if upto > 0 && s[upto - 1] != c {
        lemma_rfind_char_props(s, c, upto - 1);
    }
}

/// The first non-space index never moves left of its argument.
proof fn lemma_skip_spaces_le(s: Seq<char>, i: int)
    requires
        0 <= i <= s.len(),
    ensures
        i <= spec_skip_spaces(s, i) <= s.len(),
    decreases s.len() - i,
{
    if i < s.len() && is_space_char(s[i]) {
        lemma_skip_spaces_le(s, i + 1);
    }
}

/// Trimming on the right stops at or after any non-space position `a`
/// known to lie left of a non-space character.
proof fn lemma_skip_spaces_rev_ge(s: Seq<char>, i: int, a: int)
    requires
        0 <= a < s.len(),
        !is_space_char(s[a]),
        a < i <= s.len(),
    ensures
        a < spec_skip_spaces_rev(s, i) <= i,
    decreases i,
{
    if a < i - 1 && is_space_char(s[i - 1]) {
        lemma_skip_spaces_rev_ge(s, i - 1, a);
    }
}

} // verus!
