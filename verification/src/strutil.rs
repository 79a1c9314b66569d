//! Character-level string helpers used by the key builders and the
//! type-name grammars.
use vstd::prelude::*;

verus! {

/// True when the two strings hold the same characters.
pub fn str_eq(a: &str, b: &str) -> (r: bool)
    ensures
        r == (a@ == b@),
{
    let a_len = a.unicode_len();
    let b_len = b.unicode_len();
    if a_len != b_len {
        assert(a@ != b@) by {
            assert(a@.len() != b@.len());
        }
        return false;
    }
    let mut i: usize = 0;
    while i < a_len
        invariant
            i <= a_len,
            a_len == a@.len(),
            b_len == b@.len(),
            a_len == b_len,
            forall|j: int| 0 <= j < i ==> a@[j] == b@[j],
        decreases a_len - i,
    {
        if a.get_char(i) != b.get_char(i) {
            assert(a@ != b@) by {
                assert(a@[i as int] != b@[i as int]);
            }
            return false;
        }
        i = i + 1;
    }
    proof {
        assert(a@ =~= b@);
    }
    true
}

/// True when `p` is a prefix of `s`.
pub open spec fn is_prefix_of(p: Seq<char>, s: Seq<char>) -> bool {
    p.len() <= s.len() && s.subrange(0, p.len() as int) == p
}

/// True when the string starts with the given prefix.
pub fn str_starts_with(s: &str, p: &str) -> (r: bool)
    ensures
        r == is_prefix_of(p@, s@),
{
    let s_len = s.unicode_len();
    let p_len = p.unicode_len();
    if p_len > s_len {
        return false;
    }
    let mut i: usize = 0;
    while i < p_len
        invariant
            i <= p_len,
            s_len == s@.len(),
            p_len == p@.len(),
            p_len <= s_len,
            forall|j: int| 0 <= j < i ==> s@[j] == p@[j],
        decreases p_len - i,
    {
        if s.get_char(i) != p.get_char(i) {
            assert(!is_prefix_of(p@, s@)) by {
                assert(s@.subrange(0, p@.len() as int)[i as int] != p@[i as int]);
            }
            return false;
        }
        i = i + 1;
    }
    proof {
        assert(s@.subrange(0, p@.len() as int) =~= p@);
    }
    true
}

/// The concatenation of the three segments around `/` separators, the
/// composite identifier format shared by the catalog and the billing
/// consumption records.
pub open spec fn composite_key(service: Seq<char>, kind: Seq<char>, operation: Seq<char>) -> Seq<
    char,
> {
    service + seq!['/'] + kind + seq!['/'] + operation
}

/// Builds the composite `{service}/{kind}/{operation}` identifier.
pub fn make_composite_key(service: &str, kind: &str, operation: &str) -> (r: String)
    ensures
        r@ == composite_key(service@, kind@, operation@),
{
    let mut r = service.to_owned();
    r.append("/");
    r.append(kind);
    r.append("/");
    r.append(operation);
    proof {
        reveal_strlit("/");
        assert(r@ =~= composite_key(service@, kind@, operation@));
    }
    r
}

/// True when every character of `s` is a decimal digit.
pub open spec fn all_digits(s: Seq<char>) -> bool {
    forall|i: int| 0 <= i < s.len() ==> '0' <= #[trigger] s[i] <= '9'
}

/// The number denoted by a sequence of decimal digits.
pub open spec fn digits_value(s: Seq<char>) -> int
    decreases s.len(),
{
    if s.len() == 0 {
        0
    } else {
        digits_value(s.drop_last()) * 10 + (s.last() as int - '0' as int)
    }
}

/// An optional string by view.
pub open spec fn opt_text(o: Option<String>) -> Option<Seq<char>> {
    match o {
        Some(s) => Some(s@),
        None => None,
    }
}

/// The views of a sequence of strings.
pub open spec fn strs_view(v: Seq<String>) -> Seq<Seq<char>> {
    v.map_values(|s: String| s@)
}

/// True when the pattern occurs in `s` starting at position `at`.
pub open spec fn matches_at(s: Seq<char>, at: int, pat: Seq<char>) -> bool {
    0 <= at && at + pat.len() <= s.len() && s.subrange(at, at + pat.len()) == pat
}

/// Tests whether the pattern occurs at the given position.
pub fn region_matches(s: &str, at: usize, pat: &str) -> (r: bool)
    ensures
        r == matches_at(s@, at as int, pat@),
{
    let s_len = s.unicode_len();
    let p_len = pat.unicode_len();
    if at > s_len || p_len > s_len - at {
        return false;
    }
    let mut i: usize = 0;
    while i < p_len
        invariant
            i <= p_len,
            s_len == s@.len(),
            p_len == pat@.len(),
            at + p_len <= s_len,
            forall|j: int| 0 <= j < i ==> s@[at + j] == pat@[j],
        decreases p_len - i,
    {
        if s.get_char(at + i) != pat.get_char(i) {
            assert(!matches_at(s@, at as int, pat@)) by {
                assert(s@.subrange(at as int, at + pat@.len())[i as int] != pat@[i as int]);
            }
            return false;
        }
        i = i + 1;
    }
    proof {
        assert(s@.subrange(at as int, at + pat@.len()) =~= pat@);
    }
    true
}

/// The position of the first occurrence of `c` at or after `from`, or
/// the length when there is none.
pub open spec fn first_index_of(s: Seq<char>, c: char, from: int) -> int
    decreases s.len() - from,
{
    if from < 0 || from >= s.len() {
        s.len() as int
    } else if s[from] == c {
        from
    } else {
        first_index_of(s, c, from + 1)
    }
}

/// The position after the last occurrence of `c` strictly before `upto`,
/// or zero when there is none.
pub open spec fn last_index_below(s: Seq<char>, c: char, upto: int) -> int
    decreases upto,
{
    if upto <= 0 || upto > s.len() {
        0
    } else if s[upto - 1] == c {
        upto
    } else {
        last_index_below(s, c, upto - 1)
    }
}

/// Finds the first occurrence of `c`, returning the string length when
/// there is none.
pub fn find_first(s: &str, c: char) -> (r: usize)
    ensures
        r == first_index_of(s@, c, 0),
        r <= s@.len(),
{
    let len = s.unicode_len();
    let mut i: usize = 0;
    while i < len
        invariant
            i <= len,
            len == s@.len(),
            first_index_of(s@, c, 0) == first_index_of(s@, c, i as int),
        decreases len - i,
    {
        if s.get_char(i) == c {
            return i;
        }
        i = i + 1;
    }
    i
}

/// Finds the position just after the last occurrence of `c` strictly
/// below `upto`, returning zero when there is none.
pub fn find_last_below(s: &str, c: char, upto: usize) -> (r: usize)
    requires
        upto <= s@.len(),
    ensures
        r == last_index_below(s@, c, upto as int),
        r <= upto,
{
    let mut i: usize = upto;
    while i > 0
        invariant
            i <= upto,
            upto <= s@.len(),
            last_index_below(s@, c, upto as int) == last_index_below(s@, c, i as int),
        decreases i,
    {
        if s.get_char(i - 1) == c {
            return i;
        }
        i = i - 1;
    }
    0
}

/// Copies an optional string, preserving its view.
pub fn clone_opt_text(o: &Option<String>) -> (r: Option<String>)
    ensures
        opt_text(r) == opt_text(*o),
{
    match o {
        Some(s) => Some(s.clone()),
        None => None,
    }
}

/// The comma-separated join of a list of strings.
pub open spec fn join_comma(parts: Seq<Seq<char>>) -> Seq<char>
    decreases parts.len(),
{
    if parts.len() == 0 {
        Seq::empty()
    } else if parts.len() == 1 {
        parts[0]
    } else {
        join_comma(parts.drop_last()) + ","@ + parts.last()
    }
}

/// Joins a list of strings with commas.
pub fn join_strings(parts: &Vec<String>) -> (r: String)
    ensures
        r@ == join_comma(strs_view(parts@)),
{
    let mut r = String::new();
    let n = parts.len();
    let mut i: usize = 0;
    while i < n
        invariant
            i <= n,
            n == parts@.len(),
            r@ == join_comma(strs_view(parts@).take(i as int)),
        decreases n - i,
    {
        proof {
            assert(strs_view(parts@).take(i + 1 as int).drop_last() =~= strs_view(parts@).take(
                i as int,
            ));
            assert(strs_view(parts@).take(i + 1 as int).last() == parts@[i as int]@);
        }
        if i > 0 {
            r.append(",");
        }
        r.append(parts[i].as_str());
        proof {
            if i == 0 {
                assert(strs_view(parts@).take(1).len() == 1);
                assert(r@ =~= join_comma(strs_view(parts@).take(1)));
            } else {
                assert(r@ =~= join_comma(strs_view(parts@).take(i as int)) + ","@
                    + parts@[i as int]@);
            }
        }
        i = i + 1;
    }
    proof {
        assert(strs_view(parts@).take(n as int) =~= strs_view(parts@));
    }
    r
}

} // verus!



