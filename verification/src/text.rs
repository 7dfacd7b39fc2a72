//! Text helpers over `char` sequences: lowercasing (exact for ASCII text,
//! a named result of std beyond it), trimming, equality, substring search
//! and lexicographic order.

use vstd::prelude::*;

verus! {

/// What `str::to_lowercase` returns for a string with the given characters
/// (Unicode lowercase mapping, fixed by the std version in use).
pub uninterp spec fn lowercase_of(s: Seq<char>) -> Seq<char>;

/// The characters with the Unicode property `White_Space` (what
/// `char::is_whitespace` accepts): U+0009 to U+000D, U+0020, U+0085, U+00A0,
/// U+1680, U+2000 to U+200A, U+2028, U+2029, U+202F, U+205F and U+3000.
pub open spec fn is_white_space(c: char) -> bool {
    let n = c as u32;
    ||| 0x9 <= n <= 0xd
    ||| n == 0x20
    ||| n == 0x85
    ||| n == 0xa0
    ||| n == 0x1680
    ||| 0x2000 <= n <= 0x200a
    ||| n == 0x2028
    ||| n == 0x2029
    ||| n == 0x202f
    ||| n == 0x205f
    ||| n == 0x3000
}

/// `s` without its leading white space.
pub open spec fn trim_start_of(s: Seq<char>) -> Seq<char>
    decreases s.len(),
{
    if s.len() > 0 && is_white_space(s[0]) {
        trim_start_of(s.drop_first())
    } else {
        s
    }
}

/// `s` without its trailing white space.
pub open spec fn trim_end_of(s: Seq<char>) -> Seq<char>
    decreases s.len(),
{
    if s.len() > 0 && is_white_space(s.last()) {
        trim_end_of(s.drop_last())
    } else {
        s
    }
}

/// `s` without leading and trailing white space (what `str::trim` returns).
pub open spec fn trimmed_of(s: Seq<char>) -> Seq<char> {
    trim_end_of(trim_start_of(s))
}

/// `s` is empty or has no white space at either end.
pub open spec fn has_trimmed_ends(s: Seq<char>) -> bool {
    s.len() == 0 || (!is_white_space(s[0]) && !is_white_space(s.last()))
}

/// The characters of `s` are all ASCII.
pub open spec fn is_ascii_text(s: Seq<char>) -> bool {
    forall|i: int| 0 <= i < s.len() ==> (#[trigger] s[i] as u32) < 128
}

/// `c`, an ASCII uppercase letter replaced by its lowercase letter.
pub open spec fn ascii_lower_char(c: char) -> char {
    if 'A' <= c && c <= 'Z' {
        ((c as u32) + 32) as char
    } else {
        c
    }
}

/// `s` with each ASCII uppercase letter replaced by its lowercase letter.
pub open spec fn ascii_lowercase_of(s: Seq<char>) -> Seq<char> {
    s.map_values(|c: char| ascii_lower_char(c))
}

/// The lowercase form of `s` as `str::to_lowercase` gives it: for ASCII
/// text the letters A to Z become a to z, other text has the named result.
pub open spec fn lowercase_text(s: Seq<char>) -> Seq<char> {
    if is_ascii_text(s) {
        ascii_lowercase_of(s)
    } else {
        lowercase_of(s)
    }
}

/// ASCII lowercasing keeps a character white space or not white space.
pub proof fn lemma_ascii_lower_keeps_white_space(c: char)
    ensures
        is_white_space(ascii_lower_char(c)) == is_white_space(c),
        (ascii_lower_char(c) as u32) < 128 <==> (c as u32) < 128,
{
}

/// Dropping leading white space and ASCII lowercasing can be done in
/// either order.
proof fn lemma_trim_start_lowercase(s: Seq<char>)
    ensures
        trim_start_of(ascii_lowercase_of(s)) == ascii_lowercase_of(trim_start_of(s)),
    decreases s.len(),
{
    let l = ascii_lowercase_of(s);
    if s.len() > 0 {
        lemma_ascii_lower_keeps_white_space(s[0]);
        assert(l[0] == ascii_lower_char(s[0]));
        if is_white_space(s[0]) {
            assert(l.drop_first() =~= ascii_lowercase_of(s.drop_first()));
            lemma_trim_start_lowercase(s.drop_first());
        }
    }
}

/// Dropping trailing white space and ASCII lowercasing can be done in
/// either order.
proof fn lemma_trim_end_lowercase(s: Seq<char>)
    ensures
        trim_end_of(ascii_lowercase_of(s)) == ascii_lowercase_of(trim_end_of(s)),
    decreases s.len(),
{
    let l = ascii_lowercase_of(s);
    if s.len() > 0 {
        lemma_ascii_lower_keeps_white_space(s.last());
        assert(l.last() == ascii_lower_char(s.last()));
        if is_white_space(s.last()) {
            assert(l.drop_last() =~= ascii_lowercase_of(s.drop_last()));
            lemma_trim_end_lowercase(s.drop_last());
        }
    }
}

/// Trimming and ASCII lowercasing can be done in either order.
pub proof fn lemma_trimmed_lowercase(s: Seq<char>)
    ensures
        trimmed_of(ascii_lowercase_of(s)) == ascii_lowercase_of(trimmed_of(s)),
{
    lemma_trim_start_lowercase(s);
    lemma_trim_end_lowercase(trim_start_of(s));
}

/// Dropping leading white space keeps ASCII text ASCII.
proof fn lemma_trim_start_ascii(s: Seq<char>)
    requires
        is_ascii_text(s),
    ensures
        is_ascii_text(trim_start_of(s)),
    decreases s.len(),
{
    if s.len() > 0 && is_white_space(s[0]) {
        assert forall|i: int| 0 <= i < s.drop_first().len() implies (#[trigger] s.drop_first()[i] as u32) < 128 by {
            assert(s.drop_first()[i] == s[i + 1]);
        }
        lemma_trim_start_ascii(s.drop_first());
    }
}

/// Dropping trailing white space keeps ASCII text ASCII.
proof fn lemma_trim_end_ascii(s: Seq<char>)
    requires
        is_ascii_text(s),
    ensures
        is_ascii_text(trim_end_of(s)),
    decreases s.len(),
{
    if s.len() > 0 && is_white_space(s.last()) {
        assert forall|i: int| 0 <= i < s.drop_last().len() implies (#[trigger] s.drop_last()[i] as u32) < 128 by {
            assert(s.drop_last()[i] == s[i]);
        }
        lemma_trim_end_ascii(s.drop_last());
    }
}

/// Trimming keeps ASCII text ASCII.
pub proof fn lemma_trimmed_ascii(s: Seq<char>)
    requires
        is_ascii_text(s),
    ensures
        is_ascii_text(trimmed_of(s)),
{
    lemma_trim_start_ascii(s);
    lemma_trim_end_ascii(trim_start_of(s));
}

/// Removing leading white space leaves no white space in front.
proof fn lemma_trim_start_front(s: Seq<char>)
    ensures
        trim_start_of(s).len() == 0 || !is_white_space(trim_start_of(s)[0]),
    decreases s.len(),
{
    if s.len() > 0 && is_white_space(s[0]) {
        lemma_trim_start_front(s.drop_first());
    }
}

/// Removing trailing white space leaves no white space at the back and
/// keeps a front character that is no white space.
proof fn lemma_trim_end_ends(s: Seq<char>)
    ensures
        trim_end_of(s).len() == 0 || !is_white_space(trim_end_of(s).last()),
        s.len() > 0 && !is_white_space(s[0]) ==> trim_end_of(s).len() > 0 && trim_end_of(s)[0] == s[0],
    decreases s.len(),
{
    if s.len() > 0 && is_white_space(s.last()) {
        lemma_trim_end_ends(s.drop_last());
        if s.len() > 1 {
            assert(s.drop_last()[0] == s[0]);
        }
    }
}

/// Trimmed text has no white space at either end.
pub proof fn lemma_trimmed_ends(s: Seq<char>)
    ensures
        has_trimmed_ends(trimmed_of(s)),
{
    lemma_trim_start_front(s);
    lemma_trim_end_ends(trim_start_of(s));
}

/// Trimming twice is trimming once.
pub proof fn lemma_trim_idempotent(s: Seq<char>)
    ensures
        trimmed_of(trimmed_of(s)) == trimmed_of(s),
{
    let t = trimmed_of(s);
    lemma_trimmed_ends(s);
    assert(trim_start_of(t) == t);
    assert(trim_end_of(t) == t);
}

/// Calls `str::to_lowercase`. Claimed: the result is the named lowercase form
/// of the argument, and for ASCII text it is the text with A to Z replaced
/// by a to z (the Unicode lowercase mapping of ASCII). Nothing is claimed
/// of other text beyond the name.
#[verifier::external_body]
pub(crate) fn to_lowercase(s: &str) -> (r: String)
    ensures
        r@ == lowercase_of(s@),
        is_ascii_text(s@) ==> r@ == ascii_lowercase_of(s@),
{
    s.to_lowercase()
}

/// Whether `c` is Unicode white space.
pub fn is_white_space_char(c: char) -> (r: bool)
    ensures
        r == is_white_space(c),
{
    let n = c as u32;
    (0x9 <= n && n <= 0xd) || n == 0x20 || n == 0x85 || n == 0xa0 || n == 0x1680 || (0x2000 <= n
        && n <= 0x200a) || n == 0x2028 || n == 0x2029 || n == 0x202f || n == 0x205f || n == 0x3000
}

/// `s` without its leading and trailing Unicode white space (what
/// `str::trim` returns).
pub fn trim(s: &str) -> (r: &str)
    ensures
        r@ == trimmed_of(s@),
{
    let cs = chars_of(s);
    let n = cs.len();
    let mut start: usize = 0;
    assert(s@.subrange(0, n as int) =~= s@);
    while start < n && is_white_space_char(cs[start])
        invariant
            cs@ == s@,
            n == cs.len(),
            start <= n,
            trim_start_of(s@) == trim_start_of(s@.subrange(start as int, n as int)),
        decreases n - start,
    {
        assert(s@.subrange(start as int, n as int).drop_first() =~= s@.subrange(start + 1, n as int));
        start += 1;
    }
    let mut end: usize = n;
    while end > start && is_white_space_char(cs[end - 1])
        invariant
            cs@ == s@,
            n == cs.len(),
            start <= end <= n,
            trim_end_of(s@.subrange(start as int, n as int)) == trim_end_of(
                s@.subrange(start as int, end as int),
            ),
        decreases end - start,
    {
        assert(s@.subrange(start as int, end as int).drop_last() =~= s@.subrange(
            start as int,
            end - 1,
        ));
        end -= 1;
    }
    s.substring_char(start, end)
}

/// The characters of `s`, in order.
pub fn chars_of(s: &str) -> (r: Vec<char>)
    ensures
        r@ == s@,
{
    broadcast use vstd::string::group_string_axioms;
    let mut r: Vec<char> = Vec::new();
    for c in it: s.chars()
        invariant
            it.seq() == s@,
            r@ == it.seq().take(it.index() as int),
    {
        r.push(c);
    }
    r
}


/// Whether `s` holds `p` as a contiguous run of characters
/// (what `str::contains` answers for a string pattern).
pub open spec fn has_substring(s: Seq<char>, p: Seq<char>) -> bool {
    exists|i: int| 0 <= i && i + p.len() <= s.len() && #[trigger] s.subrange(i, i + p.len()) == p
}

/// Lexicographic order on character sequences, by code point: the order in
/// which `String`'s `Ord` puts two strings.
pub open spec fn lex_less(a: Seq<char>, b: Seq<char>) -> bool
    decreases a.len(),
{
    if a.len() == 0 {
        b.len() > 0
    } else if b.len() == 0 {
        false
    } else if a[0] != b[0] {
        a[0] < b[0]
    } else {
        lex_less(a.drop_first(), b.drop_first())
    }
}

/// Whether `a` and `b` hold the same characters.
pub fn same_text(a: &str, b: &str) -> (r: bool)
    ensures
        r == (a@ == b@),
{
    let x = a.to_owned();
    let y = b.to_owned();
    x == y
}

/// Whether the run `needle` occurs in `hay` starting at `start`.
fn occurs_at(hay: &Vec<char>, needle: &Vec<char>, start: usize) -> (r: bool)
    requires
        start + needle.len() <= hay.len(),
    ensures
        r == (hay@.subrange(start as int, start + needle.len()) == needle@),
{
    let mut k: usize = 0;
    while k < needle.len()
        invariant
            start + needle.len() <= hay.len(),
            k <= needle.len(),
            forall|j: int| 0 <= j < k ==> hay@[start + j] == needle@[j],
        decreases needle.len() - k,
    {
        if hay[start + k] != needle[k] {
            assert(hay@.subrange(start as int, start + needle.len())[k as int] != needle@[k as int]);
            return false;
        }
        k += 1;
    }
    assert(hay@.subrange(start as int, start + needle.len()) =~= needle@);
    true
}

/// Substring search: whether `needle` occurs in `hay`.
pub fn contains_text(hay: &str, needle: &str) -> (r: bool)
    ensures
        r == has_substring(hay@, needle@),
{
    let h = chars_of(hay);
    let n = chars_of(needle);
    if n.len() > h.len() {
        assert forall|i: int| 0 <= i && i + n@.len() <= h@.len() implies
            #[trigger] h@.subrange(i, i + n@.len()) != n@ by {}
        return false;
    }
    let last = h.len() - n.len();
    let mut i: usize = 0;
    loop
        invariant
            last == h.len() - n.len(),
            n.len() <= h.len(),
            i <= last,
            h@ == hay@,
            n@ == needle@,
            forall|j: int| 0 <= j < i ==> #[trigger] h@.subrange(j, j + n@.len()) != n@,
        decreases last - i,
    {
        if occurs_at(&h, &n, i) {
            return true;
        }
        if i == last {
            return false;
        }
        i += 1;
    }
}

/// `lex_less` on a sequence and itself is false.
pub proof fn lemma_lex_irreflexive(a: Seq<char>)
    ensures
        !lex_less(a, a),
    decreases a.len(),
{
    if a.len() > 0 {
        lemma_lex_irreflexive(a.drop_first());
    }
}

/// `lex_less` is transitive.
pub proof fn lemma_lex_transitive(a: Seq<char>, b: Seq<char>, c: Seq<char>)
    requires
        lex_less(a, b),
        lex_less(b, c),
    ensures
        lex_less(a, c),
    decreases a.len(),
{
    if a.len() > 0 && b.len() > 0 && c.len() > 0 && a[0] == b[0] && b[0] == c[0] {
        lemma_lex_transitive(a.drop_first(), b.drop_first(), c.drop_first());
    }
}

/// Two different sequences are ordered one way or the other.
pub proof fn lemma_lex_total(a: Seq<char>, b: Seq<char>)
    requires
        a != b,
    ensures
        lex_less(a, b) || lex_less(b, a),
    decreases a.len(),
{
    if a.len() == 0 && b.len() == 0 {
        assert(a =~= b);
    } else if a.len() > 0 && b.len() > 0 && a[0] == b[0] {
        if a.drop_first() == b.drop_first() {
            assert(a.drop_first().len() == a.len() - 1);
            assert(b.drop_first().len() == b.len() - 1);
            assert forall|i: int| 0 <= i < a.len() implies a[i] == b[i] by {
                if i > 0 {
                    assert(a[i] == a.drop_first()[i - 1]);
                    assert(b[i] == b.drop_first()[i - 1]);
                }
            }
            assert(a.len() == b.len());
            assert(a =~= b);
        } else {
            lemma_lex_total(a.drop_first(), b.drop_first());
        }
    } else if a.len() > 0 && b.len() > 0 {
    }
}

/// Lexicographic comparison of two character vectors.
pub fn lex_less_chars(a: &Vec<char>, b: &Vec<char>) -> (r: bool)
    ensures
        r == lex_less(a@, b@),
{
    let mut i: usize = 0;
    assert(a@.skip(0) =~= a@);
    assert(b@.skip(0) =~= b@);
    while i < a.len() && i < b.len()
        invariant
            i <= a.len(),
            i <= b.len(),
            lex_less(a@, b@) == lex_less(a@.skip(i as int), b@.skip(i as int)),
        decreases a.len() - i,
    {
        let x = a[i];
        let y = b[i];
        if x != y {
            return x < y;
        }
        assert(a@.skip(i as int).drop_first() =~= a@.skip(i + 1));
        assert(b@.skip(i as int).drop_first() =~= b@.skip(i + 1));
        i += 1;
    }
    i < b.len()
}


/// Whether `s` begins with `prefix`.
pub fn starts_with_text(s: &str, prefix: &str) -> (r: bool)
    ensures
        r == prefix@.is_prefix_of(s@),
{
    let a = chars_of(s);
    let p = chars_of(prefix);
    if p.len() > a.len() {
        return false;
    }
    let mut k: usize = 0;
    while k < p.len()
        invariant
            p.len() <= a.len(),
            a@ == s@,
            p@ == prefix@,
            k <= p.len(),
            forall|j: int| 0 <= j < k ==> a@[j] == p@[j],
        decreases p.len() - k,
    {
        if a[k] != p[k] {
            return false;
        }
        k += 1;
    }
    true
}

/// The code of `c` with ASCII uppercase letters mapped to lowercase.
pub open spec fn ascii_lower(c: char) -> u32 {
    if 'A' <= c && c <= 'Z' {
        ((c as u32) + 32) as u32
    } else {
        c as u32
    }
}

/// `a` and `b` are equal up to ASCII case (what `eq_ignore_ascii_case`
/// answers).
pub open spec fn equal_ignoring_ascii_case(a: Seq<char>, b: Seq<char>) -> bool {
    a.len() == b.len() && forall|i: int| 0 <= i < a.len() ==> ascii_lower(#[trigger] a[i]) == ascii_lower(b[i])
}

/// `ascii_lower` on one character.
fn lower_ascii_code(c: char) -> (r: u32)
    ensures
        r == ascii_lower(c),
{
    if 'A' <= c && c <= 'Z' {
        (c as u32) + 32
    } else {
        c as u32
    }
}

/// Whether `a` and `b` are equal up to ASCII case.
pub fn eq_ignore_ascii_case(a: &str, b: &str) -> (r: bool)
    ensures
        r == equal_ignoring_ascii_case(a@, b@),
{
    let x = chars_of(a);
    let y = chars_of(b);
    if x.len() != y.len() {
        return false;
    }
    let mut k: usize = 0;
    while k < x.len()
        invariant
            x.len() == y.len(),
            x@ == a@,
            y@ == b@,
            k <= x.len(),
            forall|j: int| 0 <= j < k ==> ascii_lower(#[trigger] x@[j]) == ascii_lower(y@[j]),
        decreases x.len() - k,
    {
        if lower_ascii_code(x[k]) != lower_ascii_code(y[k]) {
            return false;
        }
        k += 1;
    }
    true
}

} // verus!
