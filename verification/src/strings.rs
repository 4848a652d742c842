use vstd::prelude::*;
use vstd::string::StrSliceExecFns;
use vstd::string::StringExecFns;

verus! {

// ---------------------------------------------------------------------------
// Substring and suffix search over character sequences.
// ---------------------------------------------------------------------------

/// `t` occurs in `s` starting at position `i`.
pub open spec fn matches_at(s: Seq<char>, t: Seq<char>, i: int) -> bool {
    0 <= i && i + t.len() <= s.len() && s.subrange(i, i + t.len() as int) == t
}

/// `t` occurs somewhere in `s`.
pub open spec fn contains_seq(s: Seq<char>, t: Seq<char>) -> bool {
    exists|i: int| matches_at(s, t, i)
}

/// `s` ends with `t`.
pub open spec fn ends_with_seq(s: Seq<char>, t: Seq<char>) -> bool {
    t.len() <= s.len() && s.subrange(s.len() - t.len(), s.len() as int) == t
}

/// Compares `t` against the characters of `s` starting at position `i`.
pub fn matches_at_exec(s: &str, t: &str, i: usize) -> (r: bool)
    requires
        i + t@.len() <= s@.len(),
    ensures
        r == matches_at(s@, t@, i as int),
{
    let t_len = t.unicode_len();
    let s_len = s.unicode_len();
    let mut j: usize = 0;
    while j < t_len
        invariant
            j <= t_len,
            t_len == t@.len(),
            s_len == s@.len(),
            i + t_len <= s_len,
            forall|k: int| 0 <= k < j ==> s@[i + k] == t@[k],
        decreases t_len - j,
    {
        if s.get_char(i + j) != t.get_char(j) {
            assert(s@.subrange(i as int, i + t@.len() as int)[j as int] == s@[i + j]);
            return false;
        }
        j += 1;
    }
    assert(s@.subrange(i as int, i + t@.len() as int) =~= t@);
    true
}

/// Whether `t` occurs anywhere in `s`; mirrors `str::contains`.
pub fn contains_pattern(s: &str, t: &str) -> (r: bool)
    ensures
        r == contains_seq(s@, t@),
{
    let s_len = s.unicode_len();
    let t_len = t.unicode_len();
    if t_len > s_len {
        return false;
    }
    if t_len == 0 {
        assert(s@.subrange(0, 0) =~= t@);
        assert(matches_at(s@, t@, 0));
        return true;
    }
    let mut i: usize = 0;
    while i <= s_len - t_len
        invariant
            0 < t_len <= s_len,
            s_len == s@.len(),
            t_len == t@.len(),
            i <= s_len - t_len + 1,
            forall|k: int| 0 <= k < i ==> !matches_at(s@, t@, k),
        decreases s_len - t_len - i + 1,
    {
        if matches_at_exec(s, t, i) {
            return true;
        }
        i += 1;
    }
    false
}

/// Whether `s` ends with `t`; mirrors `str::ends_with`.
pub fn ends_with_pattern(s: &str, t: &str) -> (r: bool)
    ensures
        r == ends_with_seq(s@, t@),
{
    let s_len = s.unicode_len();
    let t_len = t.unicode_len();
    if t_len > s_len {
        return false;
    }
    matches_at_exec(s, t, s_len - t_len)
}

/// Character-for-character equality of two string slices.
pub fn str_eq(a: &str, b: &str) -> (r: bool)
    ensures
        r == (a@ == b@),
{
    let a_len = a.unicode_len();
    let b_len = b.unicode_len();
    if a_len != b_len {
        return false;
    }
    let r = matches_at_exec(a, b, 0);
    assert(a@.subrange(0, a@.len() as int) =~= a@);
    r
}

// ---------------------------------------------------------------------------
// Case-insensitive search (ASCII folding), the model of the store's
// case-insensitive title match.
// ---------------------------------------------------------------------------

/// The character's code with an ASCII upper-case letter folded to lower case.
pub open spec fn folded_code(c: char) -> u32 {
    if 65 <= c as u32 && c as u32 <= 90 {
        (c as u32 + 32) as u32
    } else {
        c as u32
    }
}

/// `t` occurs in `s` at position `i`, ignoring ASCII case.
pub open spec fn matches_at_ci(s: Seq<char>, t: Seq<char>, i: int) -> bool {
    0 <= i && i + t.len() <= s.len() && forall|k: int|
        0 <= k < t.len() ==> folded_code(s[i + k]) == folded_code(t[k])
}

/// `t` occurs somewhere in `s`, ignoring ASCII case.
pub open spec fn contains_seq_ci(s: Seq<char>, t: Seq<char>) -> bool {
    exists|i: int| matches_at_ci(s, t, i)
}

fn folded_code_exec(c: char) -> (r: u32)
    ensures
        r == folded_code(c),
{
    let u = c as u32;
    if 65 <= u && u <= 90 {
        u + 32
    } else {
        u
    }
}

fn matches_at_ci_exec(s: &str, t: &str, i: usize) -> (r: bool)
    requires
        i + t@.len() <= s@.len(),
    ensures
        r == matches_at_ci(s@, t@, i as int),
{
    let t_len = t.unicode_len();
    let s_len = s.unicode_len();
    let mut j: usize = 0;
    while j < t_len
        invariant
            j <= t_len,
            t_len == t@.len(),
            s_len == s@.len(),
            i + t_len <= s_len,
            forall|k: int| 0 <= k < j ==> folded_code(s@[i + k]) == folded_code(t@[k]),
        decreases t_len - j,
    {
        if folded_code_exec(s.get_char(i + j)) != folded_code_exec(t.get_char(j)) {
            return false;
        }
        j += 1;
    }
    true
}

/// Whether `t` occurs anywhere in `s` ignoring ASCII case; the model of a
/// `%t%` case-insensitive pattern match.
pub fn contains_pattern_ci(s: &str, t: &str) -> (r: bool)
    ensures
        r == contains_seq_ci(s@, t@),
{
    let s_len = s.unicode_len();
    let t_len = t.unicode_len();
    if t_len > s_len {
        return false;
    }
    if t_len == 0 {
        assert(matches_at_ci(s@, t@, 0));
        return true;
    }
    let mut i: usize = 0;
    while i <= s_len - t_len
        invariant
            0 < t_len <= s_len,
            s_len == s@.len(),
            t_len == t@.len(),
            i <= s_len - t_len + 1,
            forall|k: int| 0 <= k < i ==> !matches_at_ci(s@, t@, k),
        decreases s_len - t_len - i + 1,
    {
        if matches_at_ci_exec(s, t, i) {
            return true;
        }
        i += 1;
    }
    false
}

// ---------------------------------------------------------------------------
// Decimal formatting.
// ---------------------------------------------------------------------------

/// The decimal digit `d` as a character, for `d < 10`.
pub open spec fn digit_char(d: nat) -> char {
    if d == 0 {
        '0'
    } else if d == 1 {
        '1'
    } else if d == 2 {
        '2'
    } else if d == 3 {
        '3'
    } else if d == 4 {
        '4'
    } else if d == 5 {
        '5'
    } else if d == 6 {
        '6'
    } else if d == 7 {
        '7'
    } else if d == 8 {
        '8'
    } else {
        '9'
    }
}

/// The decimal notation of `n`, most significant digit first.
pub open spec fn decimal_digits(n: nat) -> Seq<char>
    decreases n,
{
    if n < 10 {
        seq![digit_char(n)]
    } else {
        decimal_digits(n / 10) + seq![digit_char(n % 10)]
    }
}

fn digit_str(d: u32) -> (r: &'static str)
    requires
        d < 10,
    ensures
        r@ == seq![digit_char(d as nat)],
{
    if d == 0 {
        proof { reveal_strlit("0"); }
        assert("0"@ =~= seq![digit_char(0)]);
        "0"
    } else if d == 1 {
        proof { reveal_strlit("1"); }
        assert("1"@ =~= seq![digit_char(1)]);
        "1"
    } else if d == 2 {
        proof { reveal_strlit("2"); }
        assert("2"@ =~= seq![digit_char(2)]);
        "2"
    } else if d == 3 {
        proof { reveal_strlit("3"); }
        assert("3"@ =~= seq![digit_char(3)]);
        "3"
    } else if d == 4 {
        proof { reveal_strlit("4"); }
        assert("4"@ =~= seq![digit_char(4)]);
        "4"
    } else if d == 5 {
        proof { reveal_strlit("5"); }
        assert("5"@ =~= seq![digit_char(5)]);
        "5"
    } else if d == 6 {
        proof { reveal_strlit("6"); }
        assert("6"@ =~= seq![digit_char(6)]);
        "6"
    } else if d == 7 {
        proof { reveal_strlit("7"); }
        assert("7"@ =~= seq![digit_char(7)]);
        "7"
    } else if d == 8 {
        proof { reveal_strlit("8"); }
        assert("8"@ =~= seq![digit_char(8)]);
        "8"
    } else {
        proof { reveal_strlit("9"); }
        assert("9"@ =~= seq![digit_char(9)]);
        "9"
    }
}

/// Formats `n` in decimal.
pub fn u32_to_decimal(n: u32) -> (r: String)
    ensures
        r@ == decimal_digits(n as nat),
    decreases n,
{
    if n < 10 {
        String::from_str(digit_str(n))
    } else {
        let prefix = u32_to_decimal(n / 10);
        prefix.concat(digit_str(n % 10))
    }
}

/// Joins a base name and an extension with a dot, as blob keys and download
/// file names are built.
pub fn dotted(name: &str, extension: &str) -> (r: String)
    ensures
        r@ == name@ + "."@ + extension@,
{
    let mut s = String::from_str(name);
    s.append(".");
    s.append(extension);
    s
}

/// The `cache-control` header value granting caching for `max_age_seconds`.
pub fn cache_control_value(max_age_seconds: u32) -> (r: String)
    ensures
        r@ == "public, max-age="@ + decimal_digits(max_age_seconds as nat),
{
    let mut s = String::from_str("public, max-age=");
    let digits = u32_to_decimal(max_age_seconds);
    s.append(digits.as_str());
    s
}

// ---------------------------------------------------------------------------
// Last/first occurrence of a single character, used to pull a file extension
// out of a URL.
// ---------------------------------------------------------------------------

/// The largest index at which `c` occurs in `s`, or -1 if it does not occur.
pub open spec fn last_index_of(s: Seq<char>, c: char) -> int
    decreases s.len(),
{
    if s.len() == 0 {
        -1
    } else if s[s.len() - 1] == c {
        s.len() - 1
    } else {
        last_index_of(s.drop_last(), c)
    }
}

/// The smallest index at which `c` occurs in `s`, or -1 if it does not occur.
pub open spec fn first_index_of(s: Seq<char>, c: char) -> int
    decreases s.len(),
{
    if s.len() == 0 {
        -1
    } else if s[0] == c {
        0
    } else if first_index_of(s.drop_first(), c) == -1 {
        -1
    } else {
        1 + first_index_of(s.drop_first(), c)
    }
}

proof fn lemma_last_index_of_found(s: Seq<char>, c: char, i: int)
    requires
        0 <= i < s.len(),
        s[i] == c,
        forall|j: int| i < j < s.len() ==> s[j] != c,
    ensures
        last_index_of(s, c) == i,
    decreases s.len(),
{
    if i < s.len() - 1 {
        lemma_last_index_of_found(s.drop_last(), c, i);
    }
}

proof fn lemma_last_index_of_none(s: Seq<char>, c: char)
    requires
        forall|j: int| 0 <= j < s.len() ==> s[j] != c,
    ensures
        last_index_of(s, c) == -1,
    decreases s.len(),
{
    if s.len() > 0 {
        lemma_last_index_of_none(s.drop_last(), c);
    }
}

proof fn lemma_first_index_of_found(s: Seq<char>, c: char, i: int)
    requires
        0 <= i < s.len(),
        s[i] == c,
        forall|j: int| 0 <= j < i ==> s[j] != c,
    ensures
        first_index_of(s, c) == i,
    decreases s.len(),
{
    if i > 0 {
        lemma_first_index_of_found(s.drop_first(), c, i - 1);
    }
}

proof fn lemma_first_index_of_none(s: Seq<char>, c: char)
    requires
        forall|j: int| 0 <= j < s.len() ==> s[j] != c,
    ensures
        first_index_of(s, c) == -1,
    decreases s.len(),
{
    if s.len() > 0 {
        lemma_first_index_of_none(s.drop_first(), c);
    }
}

/// Scans `s` for the last occurrence of `c`; returns the count of characters
/// if there is none, so that the result always bounds the suffix after `c`.
fn find_last(s: &str, c: char) -> (r: Option<usize>)
    ensures
        r matches Some(i) ==> i < s@.len() && last_index_of(s@, c) == i,
        r is None ==> last_index_of(s@, c) == -1,
{
    let s_len = s.unicode_len();
    let mut i: usize = s_len;
    while i > 0
        invariant
            i <= s_len,
            s_len == s@.len(),
            forall|j: int| i <= j < s@.len() ==> s@[j] != c,
        decreases i,
    {
        i -= 1;
        if s.get_char(i) == c {
            proof {
                lemma_last_index_of_found(s@, c, i as int);
            }
            return Some(i);
        }
    }
    proof {
        lemma_last_index_of_none(s@, c);
    }
    None
}

fn find_first(s: &str, c: char) -> (r: Option<usize>)
    ensures
        r matches Some(i) ==> i < s@.len() && first_index_of(s@, c) == i,
        r is None ==> first_index_of(s@, c) == -1,
{
    let s_len = s.unicode_len();
    let mut i: usize = 0;
    while i < s_len
        invariant
            i <= s_len,
            s_len == s@.len(),
            forall|j: int| 0 <= j < i ==> s@[j] != c,
        decreases s_len - i,
    {
        if s.get_char(i) == c {
            proof {
                lemma_first_index_of_found(s@, c, i as int);
            }
            return Some(i);
        }
        i += 1;
    }
    proof {
        lemma_first_index_of_none(s@, c);
    }
    None
}

/// The file extension carried by a URL: everything after the last dot, cut
/// short at the first query-string delimiter that follows.
pub open spec fn spec_extension_of(s: Seq<char>) -> Seq<char> {
    let tail = s.subrange(last_index_of(s, '.') + 1, s.len() as int);
    if first_index_of(tail, '?') == -1 {
        tail
    } else {
        tail.subrange(0, first_index_of(tail, '?'))
    }
}

/// Pulls the file extension out of a URL: the text after the last dot,
/// trimmed of any query string that follows it.
pub fn extension_of(url: &str) -> (r: String)
    ensures
        r@ == spec_extension_of(url@),
{
    let url_len = url.unicode_len();
    let start = match find_last(url, '.') {
        Some(i) => i + 1,
        None => {
            assert(last_index_of(url@, '.') == -1);
            0
        },
    };
    let tail = url.substring_char(start, url_len);
    let tail_len = tail.unicode_len();
    let end = match find_first(tail, '?') {
        Some(i) => i,
        None => tail_len,
    };
    let result = tail.substring_char(0, end);
    proof {
        assert(tail@ =~= url@.subrange(last_index_of(url@, '.') + 1, url@.len() as int));
        if first_index_of(tail@, '?') == -1 {
            assert(result@ =~= tail@);
        }
    }
    String::from_str(result)
}

} // verus!
