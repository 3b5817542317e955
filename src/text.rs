//! Small string utilities shared by the route synthesizer, the resolver and
//! the resource stores.
use vstd::prelude::*;
use vstd::string::*;

verus! {

pub open spec fn is_ascii_lower(c: char) -> bool {
    'a' <= c && c <= 'z'
}

pub open spec fn is_ascii_upper(c: char) -> bool {
    'A' <= c && c <= 'Z'
}

/// The name with `_` inserted before every ASCII upper-case letter that
/// directly follows an ASCII lower-case letter (`hubId` becomes `hub_Id`).
pub open spec fn word_breaks(s: Seq<char>) -> Seq<char>
    decreases s.len(),
{
    if s.len() == 0 {
        s
    } else if s.len() >= 2 && is_ascii_lower(s[s.len() - 2]) && is_ascii_upper(s.last()) {
        word_breaks(s.drop_last()).push('_').push(s.last())
    } else {
        word_breaks(s.drop_last()).push(s.last())
    }
}

/// The ASCII lower-case form of a character; other characters stay.
pub open spec fn ascii_lower_char(c: char) -> char {
    if is_ascii_upper(c) { ((c as u32) + 32) as char } else { c }
}

pub open spec fn all_ascii(s: Seq<char>) -> bool {
    forall|i: int| 0 <= i < s.len() ==> (#[trigger] s[i] as u32) < 128
}

/// What `str::to_lowercase` returns for a string.
pub uninterp spec fn lower_of(s: Seq<char>) -> Seq<char>;

/// Relies on `str::to_lowercase`: its result depends on the characters alone,
/// and on ASCII text it maps `A`-`Z` to `a`-`z` and keeps every other character.
#[verifier::external_body]
pub(crate) fn lowercase(s: &str) -> (r: String)
    ensures
        r@ == lower_of(s@),
        all_ascii(s@) ==> r@ == s@.map_values(|c: char| ascii_lower_char(c)),
{
    s.to_lowercase()
}

/// Relies on regex's `replace_all` with the pattern `([a-z])([A-Z])` and the
/// replacement `${1}_${2}`: every non-overlapping match, leftmost first, gets an
/// underscore between its two letters. A match ends on an upper-case letter, so
/// the next one cannot start there and every lower-to-upper boundary is hit.
#[verifier::external_body]
pub(crate) fn insert_word_breaks(s: &str) -> (r: String)
    ensures
        r@ == word_breaks(s@),
{
    let re = regex::Regex::new(r"([a-z])([A-Z])").unwrap();
    re.replace_all(s, "${1}_${2}").into_owned()
}

pub open spec fn digit_char(d: nat) -> char {
    if d == 0 { '0' }
    else if d == 1 { '1' }
    else if d == 2 { '2' }
    else if d == 3 { '3' }
    else if d == 4 { '4' }
    else if d == 5 { '5' }
    else if d == 6 { '6' }
    else if d == 7 { '7' }
    else if d == 8 { '8' }
    else { '9' }
}

/// Decimal notation of a natural number, without leading zeros.
pub open spec fn decimal(n: nat) -> Seq<char>
    decreases n,
{
    if n < 10 {
        seq![digit_char(n)]
    } else {
        decimal(n / 10).push(digit_char(n % 10))
    }
}

fn digit_str(d: u64) -> (r: &'static str)
    requires
        d < 10,
    ensures
        r@ == seq![digit_char(d as nat)],
{
    proof {
        reveal_strlit("0");
        reveal_strlit("1");
        reveal_strlit("2");
        reveal_strlit("3");
        reveal_strlit("4");
        reveal_strlit("5");
        reveal_strlit("6");
        reveal_strlit("7");
        reveal_strlit("8");
        reveal_strlit("9");
    }
    if d == 0 { "0" }
    else if d == 1 { "1" }
    else if d == 2 { "2" }
    else if d == 3 { "3" }
    else if d == 4 { "4" }
    else if d == 5 { "5" }
    else if d == 6 { "6" }
    else if d == 7 { "7" }
    else if d == 8 { "8" }
    else { "9" }
}

/// The decimal notation of `n`.
pub fn decimal_string(n: u64) -> (r: String)
    ensures
        r@ == decimal(n as nat),
    decreases n,
{
    if n < 10 {
        String::from_str(digit_str(n))
    } else {
        let mut s = decimal_string(n / 10);
        s.append(digit_str(n % 10));
        s
    }
}

/// Character-wise equality of two strings.
pub fn same_text(a: &str, b: &str) -> (r: bool)
    ensures
        r == (a@ == b@),
{
    let n = a.unicode_len();
    if n != b.unicode_len() {
        return false;
    }
    let mut i: usize = 0;
    while i < n
        invariant
            n == a@.len(),
            n == b@.len(),
            i <= n,
            forall|j: int| 0 <= j < i ==> a@[j] == b@[j],
        decreases n - i,
    {
        if a.get_char(i) != b.get_char(i) {
            return false;
        }
        i = i + 1;
    }
    assert(a@ =~= b@);
    true
}

pub open spec fn has_prefix(s: Seq<char>, p: Seq<char>) -> bool {
    p.len() <= s.len() && s.subrange(0, p.len() as int) == p
}

/// The rest of `s` after the prefix `p`, if `s` starts with `p`.
pub fn strip_prefix<'a>(s: &'a str, p: &str) -> (r: Option<&'a str>)
    ensures
        match r {
            Some(rest) => has_prefix(s@, p@) && rest@ == s@.subrange(p@.len() as int, s@.len() as int),
            None => !has_prefix(s@, p@),
        },
{
    let n = s.unicode_len();
    let m = p.unicode_len();
    if m > n {
        return None;
    }
    let head = s.substring_char(0, m);
    if same_text(head, p) {
        Some(s.substring_char(m, n))
    } else {
        None
    }
}

/// Index of the last occurrence of `c` in `s`, or -1.
pub open spec fn last_index_of(s: Seq<char>, c: char) -> int
    decreases s.len(),
{
    if s.len() == 0 {
        -1
    } else if s.last() == c {
        s.len() - 1
    } else {
        last_index_of(s.drop_last(), c)
    }
}

proof fn lemma_last_index_of_bounds(s: Seq<char>, c: char)
    ensures
        -1 <= last_index_of(s, c) < s.len(),
    decreases s.len(),
{
    if s.len() > 0 && s.last() != c {
        lemma_last_index_of_bounds(s.drop_last(), c);
    }
}

/// The part of `s` after its last `/` (all of `s` where it has none).
pub open spec fn last_segment(s: Seq<char>) -> Seq<char> {
    s.subrange(last_index_of(s, '/') + 1, s.len() as int)
}

/// The part of `s` after its last `/`.
pub fn after_last_slash(s: &str) -> (r: &str)
    ensures
        r@ == last_segment(s@),
{
    let n = s.unicode_len();
    let mut i: usize = n;
    assert(s@.subrange(0, n as int) =~= s@);
    while i > 0
        invariant
            n == s@.len(),
            i <= n,
            forall|j: int| i <= j < n ==> s@[j] != '/',
            last_index_of(s@, '/') == last_index_of(s@.subrange(0, i as int), '/'),
        decreases i,
    {
        assert(s@.subrange(0, i as int).drop_last() =~= s@.subrange(0, i - 1));
        if s.get_char(i - 1) == '/' {
            proof {
                lemma_last_index_of_bounds(s@, '/');
            }
            return s.substring_char(i, n);
        }
        i = i - 1;
    }
    assert(s@.subrange(0, 0) =~= Seq::<char>::empty());
    s.substring_char(0, n)
}

/// The separator that `word_breaks` puts where `a` and `b` meet.
pub open spec fn break_between(a: Seq<char>, b: Seq<char>) -> Seq<char> {
    if a.len() > 0 && b.len() > 0 && is_ascii_lower(a.last()) && is_ascii_upper(b[0]) {
        seq!['_']
    } else {
        Seq::empty()
    }
}

/// Word breaks of a concatenation: those of each part, and one more where
/// the parts meet at a lower-to-upper boundary.
pub proof fn lemma_word_breaks_concat(a: Seq<char>, b: Seq<char>)
    ensures
        word_breaks(a + b) == word_breaks(a) + break_between(a, b) + word_breaks(b),
    decreases b.len(),
{
    if b.len() == 0 {
        assert(a + b =~= a);
        assert(word_breaks(a) + break_between(a, b) + word_breaks(b) =~= word_breaks(a));
    } else if b.len() == 1 {
        let s = a + b;
        assert(s.drop_last() =~= a);
        assert(s.last() == b[0]);
        if a.len() > 0 {
            assert(s[s.len() - 2] == a.last());
        }
        assert(b.drop_last() =~= Seq::<char>::empty());
        assert(word_breaks(b.drop_last()) =~= Seq::<char>::empty());
        assert(word_breaks(b) == word_breaks(b.drop_last()).push(b.last()));
        assert(word_breaks(b) =~= seq![b[0]]);
        if a.len() > 0 && is_ascii_lower(a.last()) && is_ascii_upper(b[0]) {
            assert(word_breaks(s) =~= word_breaks(a) + break_between(a, b) + word_breaks(b));
        } else {
            assert(word_breaks(s) =~= word_breaks(a) + break_between(a, b) + word_breaks(b));
        }
    } else {
        let s = a + b;
        let bp = b.drop_last();
        assert(s.drop_last() =~= a + bp);
        assert(s.last() == b.last());
        assert(s[s.len() - 2] == bp.last());
        assert(b[b.len() - 2] == bp.last());
        assert(bp[0] == b[0]);
        lemma_word_breaks_concat(a, bp);
        assert(break_between(a, bp) == break_between(a, b));
        if is_ascii_lower(bp.last()) && is_ascii_upper(b.last()) {
            assert(word_breaks(s) =~= word_breaks(a) + break_between(a, b) + word_breaks(b));
        } else {
            assert(word_breaks(s) =~= word_breaks(a) + break_between(a, b) + word_breaks(b));
        }
    }
}

/// Text with no lower-to-upper boundary gets no word breaks.
pub proof fn lemma_word_breaks_none(s: Seq<char>)
    requires
        forall|i: int| 1 <= i < s.len() ==> !(is_ascii_lower(#[trigger] s[i - 1]) && is_ascii_upper(s[i])),
    ensures
        word_breaks(s) == s,
    decreases s.len(),
{
    if s.len() > 0 {
        let p = s.drop_last();
        assert forall|i: int| 1 <= i < p.len() implies !(is_ascii_lower(#[trigger] p[i - 1]) && is_ascii_upper(p[i])) by {
            assert(p[i - 1] == s[i - 1] && p[i] == s[i]);
        }
        lemma_word_breaks_none(p);
        if s.len() >= 2 {
            assert(!(is_ascii_lower(s[s.len() - 2]) && is_ascii_upper(s[s.len() - 1])));
        }
        assert(p.push(s.last()) =~= s);
    }
}

} // verus!
