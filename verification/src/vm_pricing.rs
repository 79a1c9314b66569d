//! The VM type grammars and license pricing tables.
//!
//! Self-describing type names follow the fixed grammar
//! `tinav<gen>.c<vcpu>r<ram>(p<perf>)?`; opaque family names follow
//! `<letters><digits>.<anything>` and map through a static family
//! table. License product codes map to a billing shape: free, flat per
//! VM, or per two cores rounded up (optionally with a four-core floor).
use vstd::prelude::*;

use crate::catalog::Catalog;
use crate::catalog::catalog_price;
use crate::strutil::all_digits;
use crate::strutil::composite_key;
use crate::strutil::make_composite_key;
use crate::strutil::strs_view;
use crate::strutil::digits_value;
use crate::strutil::is_prefix_of;
use crate::strutil::str_eq;
use crate::strutil::str_starts_with;

verus! {

/// True for a decimal digit.
pub open spec fn is_digit(c: char) -> bool {
    '0' <= c <= '9'
}

/// True for a lowercase letter.
pub open spec fn is_lower(c: char) -> bool {
    'a' <= c <= 'z'
}

/// The length of the maximal digit run starting at position `i`.
pub open spec fn digit_run(s: Seq<char>, i: int) -> int
    decreases s.len() - i,
{
    if 0 <= i < s.len() && is_digit(s[i]) {
        1 + digit_run(s, i + 1)
    } else {
        0
    }
}

/// The length of the maximal lowercase-letter run starting at `i`.
pub open spec fn letter_run(s: Seq<char>, i: int) -> int
    decreases s.len() - i,
{
    if 0 <= i < s.len() && is_lower(s[i]) {
        1 + letter_run(s, i + 1)
    } else {
        0
    }
}

/// A digit run stays inside the string and is made of digits.
proof fn lemma_digit_run_bounds(s: Seq<char>, i: int)
    requires
        0 <= i <= s.len(),
    ensures
        0 <= digit_run(s, i),
        i + digit_run(s, i) <= s.len(),
        forall|j: int| i <= j < i + digit_run(s, i) ==> is_digit(#[trigger] s[j]),
        i + digit_run(s, i) < s.len() ==> !is_digit(s[i + digit_run(s, i)]),
        all_digits(s.subrange(i, i + digit_run(s, i))),
    decreases s.len() - i,
{
    if i < s.len() && is_digit(s[i]) {
        lemma_digit_run_bounds(s, i + 1);
    }
}

/// The value an all-digit sequence denotes is nonnegative.
proof fn lemma_digits_value_nonneg(s: Seq<char>)
    requires
        all_digits(s),
    ensures
        0 <= digits_value(s),
    decreases s.len(),
{
    if s.len() > 0 {
        assert(all_digits(s.drop_last())) by {
            assert(forall|j: int| 0 <= j < s.len() - 1 ==> s.drop_last()[j] == s[j]);
        }
        lemma_digits_value_nonneg(s.drop_last());
        assert(digits_value(s) == digits_value(s.drop_last()) * 10 + (s.last() as int
            - '0' as int));
        crate::pricing::lemma_mul_nonneg(digits_value(s.drop_last()), 10);
        assert(is_digit(s[s.len() - 1]));
    }
}

/// The shape a self-describing type name denotes.
pub struct TinaShape {
    pub generation: Seq<char>,
    pub vcpu: int,
    pub ram_gb: int,
    pub performance: Option<Seq<char>>,
}

/// Parses the fixed grammar `tinav<gen>.c<vcpu>r<ram>(p<perf>)?`, with
/// nonempty digit runs for each numeric part; the vcpu and ram counts
/// must fit the machine word.
pub open spec fn spec_parse_tina(s: Seq<char>) -> Option<TinaShape> {
    if !is_prefix_of("tinav"@, s) {
        None
    } else {
        let g = digit_run(s, 5);
        let cpos = 5 + g + 1;
        let c = digit_run(s, cpos + 1);
        let rpos = cpos + 1 + c;
        let r = digit_run(s, rpos + 1);
        let ppos = rpos + 1 + r;
        if g == 0 || 5 + g >= s.len() || s[5 + g] != '.' {
            None
        } else if cpos >= s.len() || s[cpos] != 'c' || c == 0 {
            None
        } else if rpos >= s.len() || s[rpos] != 'r' || r == 0 {
            None
        } else if digits_value(s.subrange(cpos + 1, cpos + 1 + c)) > u64::MAX || digits_value(
            s.subrange(rpos + 1, rpos + 1 + r),
        ) > u64::MAX {
            None
        } else if ppos == s.len() {
            Some(
                TinaShape {
                    generation: s.subrange(5, 5 + g),
                    vcpu: digits_value(s.subrange(cpos + 1, cpos + 1 + c)),
                    ram_gb: digits_value(s.subrange(rpos + 1, rpos + 1 + r)),
                    performance: None,
                },
            )
        } else if s[ppos] == 'p' && digit_run(s, ppos + 1) > 0 && ppos + 1 + digit_run(s, ppos + 1)
            == s.len() {
            Some(
                TinaShape {
                    generation: s.subrange(5, 5 + g),
                    vcpu: digits_value(s.subrange(cpos + 1, cpos + 1 + c)),
                    ram_gb: digits_value(s.subrange(rpos + 1, rpos + 1 + r)),
                    performance: Some(s.subrange(ppos + 1, s.len() as int)),
                },
            )
        } else {
            None
        }
    }
}

/// The parsed, machine-word form of a self-describing type name.
pub struct TinaParts {
    pub generation: String,
    pub vcpu: u64,
    pub ram_gb: u64,
    pub performance: Option<String>,
}

impl TinaParts {
    /// True when these parts carry exactly the given shape.
    pub open spec fn denotes(self, shape: TinaShape) -> bool {
        &&& self.generation@ == shape.generation
        &&& self.vcpu == shape.vcpu
        &&& self.ram_gb == shape.ram_gb
        &&& (match (self.performance, shape.performance) {
            (Some(p), Some(q)) => p@ == q,
            (None, None) => true,
            _ => false,
        })
    }
}

/// Scans the maximal digit run from `start`, returning where it ends
/// and the value it denotes when that value fits the machine word.
fn scan_digits(s: &str, start: usize) -> (r: (usize, Option<u64>))
    requires
        start <= s@.len(),
    ensures
        start <= r.0,
        r.0 == start + digit_run(s@, start as int),
        r.0 <= s@.len(),
        (match r.1 {
            Some(v) => v == digits_value(s@.subrange(start as int, r.0 as int)),
            None => digits_value(s@.subrange(start as int, r.0 as int)) > u64::MAX,
        }),
{
    let len = s.unicode_len();
    let mut i: usize = start;
    let mut value: Option<u64> = Some(0);
    proof {
        assert(s@.subrange(start as int, start as int) =~= Seq::<char>::empty());
    }
    loop
        invariant_except_break
            start <= i <= len,
            len == s@.len(),
            forall|j: int| start <= j < i ==> is_digit(#[trigger] s@[j]),
            (match value {
                Some(v) => v == digits_value(s@.subrange(start as int, i as int)),
                None => digits_value(s@.subrange(start as int, i as int)) > u64::MAX,
            }),
        ensures
            start <= i <= len,
            len == s@.len(),
            forall|j: int| start <= j < i ==> is_digit(#[trigger] s@[j]),
            i < len ==> !is_digit(s@[i as int]),
            (match value {
                Some(v) => v == digits_value(s@.subrange(start as int, i as int)),
                None => digits_value(s@.subrange(start as int, i as int)) > u64::MAX,
            }),
        decreases len - i,
    {
        if i >= len {
            break;
        }
        let c = s.get_char(i);
        if !('0' <= c && c <= '9') {
            break;
        }
        let d: u64 = (c as u32 as u64) - ('0' as u32 as u64);
        let ghost prev = digits_value(s@.subrange(start as int, i as int));
        proof {
            let sub = s@.subrange(start as int, i + 1 as int);
            assert(sub.drop_last() =~= s@.subrange(start as int, i as int));
            assert(sub.last() == s@[i as int]);
            assert(is_digit(s@[i as int]));
            assert(all_digits(sub.drop_last()));
            lemma_digits_value_nonneg(sub.drop_last());
            assert(digits_value(sub) == prev * 10 + (s@[i as int] as int - '0' as int));
            assert(prev * 10 >= prev) by (nonlinear_arith)
                requires
                    prev >= 0,
            ;
            assert(d == s@[i as int] as int - '0' as int);
        }
        value = match value {
            Some(v) => {
                match v.checked_mul(10) {
                    Some(w) => w.checked_add(d),
                    None => None,
                }
            },
            None => None,
        };
        proof {
            let sub = s@.subrange(start as int, i + 1 as int);
            if value is None {
                assert(digits_value(sub) > u64::MAX);
            }
        }
        i = i + 1;
    }
    proof {
        lemma_digit_run_split(s@, start as int, i as int);
    }
    (i, value)
}

/// A position whose prefix from `a` is all digits and which does not
/// start a digit itself ends the digit run of `a`.
proof fn lemma_digit_run_split(s: Seq<char>, a: int, b: int)
    requires
        0 <= a <= b <= s.len(),
        forall|j: int| a <= j < b ==> is_digit(#[trigger] s[j]),
        b < s.len() ==> !is_digit(s[b]),
    ensures
        digit_run(s, a) == b - a,
    decreases b - a,
{
    if a < b {
        lemma_digit_run_split(s, a + 1, b);
    }
}

/// The same, for letter runs.
proof fn lemma_letter_run_split(s: Seq<char>, a: int, b: int)
    requires
        0 <= a <= b <= s.len(),
        forall|j: int| a <= j < b ==> is_lower(#[trigger] s[j]),
        b < s.len() ==> !is_lower(s[b]),
    ensures
        letter_run(s, a) == b - a,
    decreases b - a,
{
    if a < b {
        lemma_letter_run_split(s, a + 1, b);
    }
}

/// Scans the maximal lowercase-letter run from `start`.
fn scan_letters(s: &str, start: usize) -> (r: usize)
    requires
        start <= s@.len(),
    ensures
        start <= r,
        r == start + letter_run(s@, start as int),
        r <= s@.len(),
{
    let len = s.unicode_len();
    let mut i: usize = start;
    loop
        invariant_except_break
            start <= i <= len,
            len == s@.len(),
            forall|j: int| start <= j < i ==> is_lower(#[trigger] s@[j]),
        ensures
            start <= i <= len,
            len == s@.len(),
            forall|j: int| start <= j < i ==> is_lower(#[trigger] s@[j]),
            i < len ==> !is_lower(s@[i as int]),
        decreases len - i,
    {
        if i >= len {
            break;
        }
        let c = s.get_char(i);
        if !('a' <= c && c <= 'z') {
            break;
        }
        i = i + 1;
    }
    proof {
        lemma_letter_run_split(s@, start as int, i as int);
    }
    i
}

/// Parses a self-describing type name into its shape, or nothing when
/// the name does not follow the grammar.
pub fn parse_tina_shape(vm_type: &str) -> (r: Option<TinaParts>)
    ensures
        (match (r, spec_parse_tina(vm_type@)) {
            (Some(parts), Some(shape)) => parts.denotes(shape),
            (None, None) => true,
            _ => false,
        }),
{
    let s = vm_type;
    let len = s.unicode_len();
    if !str_starts_with(s, "tinav") {
        return None;
    }
    proof {
        reveal_strlit("tinav");
    }
    let (gend, _) = scan_digits(s, 5);
    if gend == 5 || gend >= len || s.get_char(gend) != '.' {
        return None;
    }
    let cpos = gend + 1;
    if cpos >= len || s.get_char(cpos) != 'c' {
        return None;
    }
    let (cend, cval) = scan_digits(s, cpos + 1);
    if cend == cpos + 1 || cend >= len || s.get_char(cend) != 'r' {
        return None;
    }
    let (rend, rval) = scan_digits(s, cend + 1);
    if rend == cend + 1 {
        return None;
    }
    let (vcpu, ram_gb) = match (cval, rval) {
        (Some(c), Some(rr)) => (c, rr),
        _ => {
            return None;
        },
    };
    let generation = s.substring_char(5, gend).to_owned();
    if rend == len {
        return Some(TinaParts { generation, vcpu, ram_gb, performance: None });
    }
    if s.get_char(rend) != 'p' {
        return None;
    }
    let (pend, _) = scan_digits(s, rend + 1);
    if pend == rend + 1 || pend != len {
        return None;
    }
    let performance = Some(s.substring_char(rend + 1, len).to_owned());
    Some(TinaParts { generation, vcpu, ram_gb, performance })
}

/// The core-performance tier code a tier name denotes: `medium`, `high`
/// and `highest` map to codes `3`, `2` and `1`.
pub open spec fn spec_perf_code(s: Seq<char>) -> Option<Seq<char>> {
    if s == "medium"@ {
        Some("3"@)
    } else if s == "high"@ {
        Some("2"@)
    } else if s == "highest"@ {
        Some("1"@)
    } else {
        None
    }
}

/// Decodes an enumerated performance tier name into its code.
pub fn performance_code(name: &str) -> (r: Option<&'static str>)
    ensures
        (match r {
            Some(t) => spec_perf_code(name@) == Some(t@),
            None => spec_perf_code(name@) is None,
        }),
{
    if str_eq(name, "medium") {
        Some("3")
    } else if str_eq(name, "high") {
        Some("2")
    } else if str_eq(name, "highest") {
        Some("1")
    } else {
        None
    }
}

/// The whole-VM billing factor of a license product code: a generic OS
/// code is free; per-2-core codes pay `ceil((vcpu+1)/2)` units, the
/// premium ones at least four; flat codes pay one unit per VM; an
/// unrecognized code has no defined factor.
pub open spec fn license_factor(vcpu: int, code: Seq<char>) -> Option<int> {
    if code == "0001"@ {
        Some(0)
    } else if code == "0002"@ {
        Some((vcpu + 2) / 2)
    } else if code == "0003"@ || code == "0004"@ || code == "0005"@ || code == "0006"@ || code
        == "0007"@ {
        Some(1)
    } else if code == "0008"@ || code == "0009"@ {
        Some(
            if (vcpu + 2) / 2 >= 4 {
                (vcpu + 2) / 2
            } else {
                4
            },
        )
    } else {
        None
    }
}

/// The `ceil((vcpu+1)/2)` per-2-core factor, on machine words.
fn half_cores_rounded_up(vcpu: u64) -> (r: u64)
    ensures
        r == (vcpu + 2) / 2,
{
    vcpu / 2 + 1
}

/// The per-hour billing factor of a license product code for a machine
/// of the given core count, or nothing for an unrecognized code.
pub fn compute_product_price_per_hour(vcpu: u64, product_code: &str) -> (r: Option<u64>)
    ensures
        (match r {
            Some(f) => license_factor(vcpu as int, product_code@) == Some(f as int),
            None => license_factor(vcpu as int, product_code@) is None,
        }),
{
    if str_eq(product_code, "0001") {
        Some(0)
    } else if str_eq(product_code, "0002") {
        Some(half_cores_rounded_up(vcpu))
    } else if str_eq(product_code, "0003") || str_eq(product_code, "0004") || str_eq(
        product_code,
        "0005",
    ) || str_eq(product_code, "0006") || str_eq(product_code, "0007") {
        Some(1)
    } else if str_eq(product_code, "0008") || str_eq(product_code, "0009") {
        let half = half_cores_rounded_up(vcpu);
        if half >= 4 {
            Some(half)
        } else {
            Some(4)
        }
    } else {
        None
    }
}

/// The (generation, performance) pair an opaque family name maps to,
/// used purely to build catalog keys; an unknown family maps to empty
/// codes.
pub open spec fn spec_family_profile(f: Seq<char>) -> (Seq<char>, Seq<char>) {
    if f == "c1"@ {
        ("1"@, "1"@)
    } else if f == "c3"@ {
        ("3"@, "1"@)
    } else if f == "c4"@ {
        ("4"@, "1"@)
    } else if f == "c5"@ {
        ("5"@, "1"@)
    } else if f == "cc1"@ {
        ("1"@, "1"@)
    } else if f == "cc2"@ {
        ("2"@, "2"@)
    } else if f == "cr1"@ {
        ("1"@, "2"@)
    } else if f == "g2"@ {
        ("2"@, "1"@)
    } else if f == "g3"@ {
        ("3"@, "1"@)
    } else if f == "hi1"@ {
        ("3"@, "1"@)
    } else if f == "i2"@ {
        ("4"@, "2"@)
    } else if f == "io5"@ {
        ("4"@, "2"@)
    } else if f == "m1"@ {
        ("1"@, "2"@)
    } else if f == "m2"@ {
        ("2"@, "2"@)
    } else if f == "m3"@ {
        ("3"@, "2"@)
    } else if f == "m4"@ {
        ("4"@, "2"@)
    } else if f == "m5"@ {
        ("5"@, "2"@)
    } else if f == "mv3"@ {
        ("4"@, "2"@)
    } else if f == "nv1"@ {
        ("4"@, "2"@)
    } else if f == "nv2"@ {
        ("4"@, "2"@)
    } else if f == "oc1"@ {
        ("1"@, "1"@)
    } else if f == "oc2"@ {
        ("2"@, "1"@)
    } else if f == "oc5"@ {
        ("4"@, "1"@)
    } else if f == "og3"@ {
        ("4"@, "2"@)
    } else if f == "og4"@ {
        ("4"@, "1"@)
    } else if f == "om5"@ {
        ("4"@, "2"@)
    } else if f == "os1"@ {
        ("1"@, "2"@)
    } else if f == "os3"@ {
        ("3"@, "2"@)
    } else if f == "p100"@ {
        ("5"@, "1"@)
    } else if f == "p3"@ {
        ("5"@, "1"@)
    } else if f == "p6"@ {
        ("5"@, "1"@)
    } else if f == "r3"@ {
        ("3"@, "2"@)
    } else if f == "r4"@ {
        ("4"@, "2"@)
    } else if f == "t1"@ {
        ("1"@, "3"@)
    } else if f == "t2"@ {
        ("2"@, "3"@)
    } else {
        (""@, ""@)
    }
}

/// Maps an opaque family name through the static family table.
pub fn family_profile(family: &str) -> (r: (&'static str, &'static str))
    ensures
        (r.0@, r.1@) == spec_family_profile(family@),
{
    if str_eq(family, "c1") {
        ("1", "1")
    } else if str_eq(family, "c3") {
        ("3", "1")
    } else if str_eq(family, "c4") {
        ("4", "1")
    } else if str_eq(family, "c5") {
        ("5", "1")
    } else if str_eq(family, "cc1") {
        ("1", "1")
    } else if str_eq(family, "cc2") {
        ("2", "2")
    } else if str_eq(family, "cr1") {
        ("1", "2")
    } else if str_eq(family, "g2") {
        ("2", "1")
    } else if str_eq(family, "g3") {
        ("3", "1")
    } else if str_eq(family, "hi1") {
        ("3", "1")
    } else if str_eq(family, "i2") {
        ("4", "2")
    } else if str_eq(family, "io5") {
        ("4", "2")
    } else if str_eq(family, "m1") {
        ("1", "2")
    } else if str_eq(family, "m2") {
        ("2", "2")
    } else if str_eq(family, "m3") {
        ("3", "2")
    } else if str_eq(family, "m4") {
        ("4", "2")
    } else if str_eq(family, "m5") {
        ("5", "2")
    } else if str_eq(family, "mv3") {
        ("4", "2")
    } else if str_eq(family, "nv1") {
        ("4", "2")
    } else if str_eq(family, "nv2") {
        ("4", "2")
    } else if str_eq(family, "oc1") {
        ("1", "1")
    } else if str_eq(family, "oc2") {
        ("2", "1")
    } else if str_eq(family, "oc5") {
        ("4", "1")
    } else if str_eq(family, "og3") {
        ("4", "2")
    } else if str_eq(family, "og4") {
        ("4", "1")
    } else if str_eq(family, "om5") {
        ("4", "2")
    } else if str_eq(family, "os1") {
        ("1", "2")
    } else if str_eq(family, "os3") {
        ("3", "2")
    } else if str_eq(family, "p100") {
        ("5", "1")
    } else if str_eq(family, "p3") {
        ("5", "1")
    } else if str_eq(family, "p6") {
        ("5", "1")
    } else if str_eq(family, "r3") {
        ("3", "2")
    } else if str_eq(family, "r4") {
        ("4", "2")
    } else if str_eq(family, "t1") {
        ("1", "3")
    } else if str_eq(family, "t2") {
        ("2", "3")
    } else {
        ("", "")
    }
}

/// The family prefix of an opaque type name: lowercase letters, then
/// digits, up to a dot, as in `m4.4xlarge`.
pub open spec fn spec_box_family(s: Seq<char>) -> Option<Seq<char>> {
    let a = letter_run(s, 0);
    let d = digit_run(s, a);
    if a >= 1 && d >= 1 && a + d < s.len() && s[a + d] == '.' {
        Some(s.subrange(0, a + d))
    } else {
        None
    }
}

/// Extracts the family prefix of an opaque type name.
pub fn parse_box_family(vm_type: &str) -> (r: Option<String>)
    ensures
        (match (r, spec_box_family(vm_type@)) {
            (Some(f), Some(g)) => f@ == g,
            (None, None) => true,
            _ => false,
        }),
{
    let len = vm_type.unicode_len();
    let letters = scan_letters(vm_type, 0);
    let (digits_end, _) = scan_digits(vm_type, letters);
    if letters >= 1 && digits_end > letters && digits_end < len && vm_type.get_char(digits_end)
        == '.' {
        Some(vm_type.substring_char(0, digits_end).to_owned())
    } else {
        None
    }
}

/// Parses a self-describing type name the way its public callers see
/// it: the performance code defaults to `2` when the suffix is absent.
pub fn parse_tina_type(vm_type: &str) -> (r: Option<(String, u64, u64, String)>)
    ensures
        (match (r, spec_parse_tina(vm_type@)) {
            (Some(parts), Some(shape)) => {
                &&& parts.0@ == shape.generation
                &&& parts.1 == shape.vcpu
                &&& parts.2 == shape.ram_gb
                &&& (match shape.performance {
                    Some(p) => parts.3@ == p,
                    None => parts.3@ == "2"@,
                })
            },
            (None, None) => true,
            _ => false,
        }),
{
    let parts = match parse_tina_shape(vm_type) {
        Some(parts) => parts,
        None => {
            return None;
        },
    };
    let performance = match parts.performance {
        Some(p) => p,
        None => "2".to_owned(),
    };
    Some((parts.generation, parts.vcpu, parts.ram_gb, performance))
}

/// One raw entry of the provider's machine-type listing.
pub struct RawVmType {
    pub vm_type_name: Option<String>,
    pub vcore_count: Option<u64>,
    pub memory_size: Option<u64>,
}

/// One indexed machine type: its name, and the core count and memory
/// size the provider reported for it, either of which may be missing.
pub struct VmTypeEntry {
    pub name: String,
    pub vcore_count: Option<u64>,
    pub memory_size: Option<u64>,
}

/// The machine-type side table a raw listing denotes: nameless entries
/// are dropped, and on duplicate names the last write wins.
pub open spec fn vm_types_index(entries: Seq<RawVmType>) -> Map<
    Seq<char>,
    (Option<u64>, Option<u64>),
>
    decreases entries.len(),
{
    if entries.len() == 0 {
        Map::empty()
    } else {
        let rest = vm_types_index(entries.drop_last());
        match entries.last().vm_type_name {
            Some(name) => rest.insert(
                name@,
                (entries.last().vcore_count, entries.last().memory_size),
            ),
            None => rest,
        }
    }
}

/// The machine-type side table, for opaque type names that do not
/// describe their own shape.
pub struct VmTypes {
    entries: Vec<VmTypeEntry>,
}

/// The map an entry list denotes, reading front to back.
spec fn vm_type_list_index(entries: Seq<VmTypeEntry>) -> Map<Seq<char>, (Option<u64>, Option<u64>)>
    decreases entries.len(),
{
    if entries.len() == 0 {
        Map::empty()
    } else {
        vm_type_list_index(entries.drop_last()).insert(
            entries.last().name@,
            (entries.last().vcore_count, entries.last().memory_size),
        )
    }
}

/// A stored entry whose name no later entry repeats decides the
/// indexed shape of that name.
proof fn lemma_vm_type_last_match(entries: Seq<VmTypeEntry>, i: int)
    requires
        0 <= i < entries.len(),
        forall|j: int| i < j < entries.len() ==> (#[trigger] entries[j].name@) != entries[i].name@,
    ensures
        vm_type_list_index(entries).dom().contains(entries[i].name@),
        vm_type_list_index(entries)[entries[i].name@] == (
            entries[i].vcore_count,
            entries[i].memory_size,
        ),
    decreases entries.len(),
{
    if i < entries.len() - 1 {
        assert(entries.drop_last()[i] == entries[i]);
        lemma_vm_type_last_match(entries.drop_last(), i);
    }
}

/// A name no stored entry carries is absent from the index.
proof fn lemma_vm_type_absent(entries: Seq<VmTypeEntry>, name: Seq<char>)
    requires
        forall|j: int| 0 <= j < entries.len() ==> (#[trigger] entries[j].name@) != name,
    ensures
        !vm_type_list_index(entries).dom().contains(name),
    decreases entries.len(),
{
    if entries.len() > 0 {
        lemma_vm_type_absent(entries.drop_last(), name);
    }
}

impl VmTypes {
    /// The indexed side table this value holds.
    pub closed spec fn view(&self) -> Map<Seq<char>, (Option<u64>, Option<u64>)> {
        vm_type_list_index(self.entries@)
    }

    /// An empty side table.
    pub fn new() -> (r: VmTypes)
        ensures
            r@ == Map::<Seq<char>, (Option<u64>, Option<u64>)>::empty(),
    {
        VmTypes { entries: Vec::new() }
    }

    /// Indexes a raw machine-type listing: nameless entries are
    /// dropped; on duplicate names the last write wins.
    pub fn build(raw: Vec<RawVmType>) -> (r: VmTypes)
        ensures
            r@ == vm_types_index(raw@),
    {
        let mut table = VmTypes { entries: Vec::new() };
        let n = raw.len();
        let mut i: usize = 0;
        while i < n
            invariant
                i <= n,
                n == raw@.len(),
                table@ == vm_types_index(raw@.take(i as int)),
            decreases n - i,
        {
            let entry = &raw[i];
            let ghost pre = table.entries@;
            match &entry.vm_type_name {
                Some(name) => {
                    table.entries.push(
                        VmTypeEntry {
                            name: name.clone(),
                            vcore_count: entry.vcore_count,
                            memory_size: entry.memory_size,
                        },
                    );
                },
                None => {},
            }
            proof {
                assert(raw@.take(i + 1 as int).drop_last() =~= raw@.take(i as int));
                if raw@[i as int].vm_type_name is Some {
                    assert(table.entries@.drop_last() =~= pre);
                }
            }
            i = i + 1;
        }
        proof {
            assert(raw@.take(n as int) =~= raw@);
        }
        table
    }

    /// Looks an opaque type name up, returning the reported core count
    /// and memory size when the table knows the name.
    pub fn get(&self, name: &str) -> (r: Option<(Option<u64>, Option<u64>)>)
        ensures
            r == (if self@.dom().contains(name@) {
                Some(self@[name@])
            } else {
                None::<(Option<u64>, Option<u64>)>
            }),
    {
        let n = self.entries.len();
        let mut i: usize = n;
        while i > 0
            invariant
                i <= n,
                n == self.entries@.len(),
                forall|j: int| i <= j < n ==> (#[trigger] self.entries@[j].name@) != name@,
            decreases i,
        {
            i = i - 1;
            if str_eq(self.entries[i].name.as_str(), name) {
                proof {
                    lemma_vm_type_last_match(self.entries@, i as int);
                }
                return Some((self.entries[i].vcore_count, self.entries[i].memory_size));
            }
        }
        proof {
            lemma_vm_type_absent(self.entries@, name@);
        }
        None
    }
}

/// The catalog key of a license product code's unit price.
pub open spec fn product_usage_key(code: Seq<char>) -> Seq<char> {
    composite_key("TinaOS-FCU"@, "ProductUsage"@, "RunInstances-"@ + code + "-OD"@)
}

/// The catalog key of the per-core rate for a generation and
/// performance tier.
pub open spec fn custom_core_key(generation: Seq<char>, performance: Seq<char>) -> Seq<char> {
    composite_key(
        "TinaOS-FCU"@,
        "CustomCore:v"@ + generation + "-p"@ + performance,
        "RunInstances-OD"@,
    )
}

/// The catalog key of the per-GB-of-RAM rate.
pub open spec fn custom_ram_key() -> Seq<char> {
    composite_key("TinaOS-FCU"@, "CustomRam"@, "RunInstances-OD"@)
}

/// The catalog key of an opaque type's flat box rate.
pub open spec fn box_usage_key(vm_type: Seq<char>) -> Seq<char> {
    composite_key("TinaOS-FCU"@, "BoxUsage:"@ + vm_type, "RunInstances-OD"@)
}

/// The license addends a product-code list accumulates: the per-cpu
/// hourly addend and the flat per-VM hourly addend. A code whose price
/// the catalog lacks, or which no billing shape recognizes, is skipped
/// without charge. For per-core shapes the whole-VM cost
/// `factor * unit_price` is spread over the cores, so the general VM
/// formula reproduces the tiered total; a machine reporting zero cores
/// accumulates no per-core charge.
pub open spec fn product_addends(
    codes: Seq<Seq<char>>,
    vcpu: int,
    cat: Map<Seq<char>, Option<u64>>,
) -> (int, int)
    decreases codes.len(),
{
    if codes.len() == 0 {
        (0, 0)
    } else {
        let rest = product_addends(codes.drop_last(), vcpu, cat);
        let code = codes.last();
        match catalog_price(cat, product_usage_key(code)) {
            None => rest,
            Some(p) => match license_factor(vcpu, code) {
                None => rest,
                Some(f) => if code == "0002"@ || code == "0008"@ || code == "0009"@ {
                    if vcpu > 0 {
                        (rest.0 + f * p / vcpu, rest.1)
                    } else {
                        rest
                    }
                } else if code == "0001"@ {
                    rest
                } else {
                    (rest.0, rest.1 + p)
                },
            },
        }
    }
}

/// The license addends are nonnegative and grow with the code list.
proof fn lemma_product_addends_bounds(codes: Seq<Seq<char>>, vcpu: int, cat: Map<Seq<char>, Option<u64>>, i: int)
    requires
        0 <= i <= codes.len(),
    ensures
        0 <= product_addends(codes.take(i), vcpu, cat).0 <= product_addends(codes, vcpu, cat).0,
        0 <= product_addends(codes.take(i), vcpu, cat).1 <= product_addends(codes, vcpu, cat).1,
    decreases codes.len() - i,
{
    lemma_product_addends_nonneg(codes.take(i), vcpu, cat);
    if i == codes.len() {
        assert(codes.take(i) =~= codes);
    } else {
        assert(codes.take(i + 1).drop_last() =~= codes.take(i));
        lemma_product_addends_step_nonneg(codes.take(i + 1), vcpu, cat);
        lemma_product_addends_bounds(codes, vcpu, cat, i + 1);
    }
}

/// The license addends are nonnegative.
proof fn lemma_product_addends_nonneg(codes: Seq<Seq<char>>, vcpu: int, cat: Map<Seq<char>, Option<u64>>)
    ensures
        0 <= product_addends(codes, vcpu, cat).0,
        0 <= product_addends(codes, vcpu, cat).1,
    decreases codes.len(),
{
    if codes.len() > 0 {
        lemma_product_addends_nonneg(codes.drop_last(), vcpu, cat);
        lemma_product_addends_step_nonneg(codes, vcpu, cat);
    }
}

/// One more code never decreases either addend.
proof fn lemma_product_addends_step_nonneg(codes: Seq<Seq<char>>, vcpu: int, cat: Map<Seq<char>, Option<u64>>)
    requires
        codes.len() > 0,
    ensures
        product_addends(codes.drop_last(), vcpu, cat).0 <= product_addends(codes, vcpu, cat).0,
        product_addends(codes.drop_last(), vcpu, cat).1 <= product_addends(codes, vcpu, cat).1,
{
    let code = codes.last();
    match catalog_price(cat, product_usage_key(code)) {
        None => {},
        Some(p) => match license_factor(vcpu, code) {
            None => {},
            Some(f) => {
                if vcpu > 0 {
                    crate::pricing::lemma_mul_nonneg(f, p as int);
                    vstd::arithmetic::div_mod::lemma_div_pos_is_pos(f * p, vcpu);
                }
            },
        },
    }
}

/// Accumulates the license addends of a product-code list against the
/// catalog.
fn accumulate_product_prices(codes: &Vec<String>, vcpu: u64, catalog: &Catalog) -> (r: (u64, u64))
    requires
        product_addends(strs_view(codes@), vcpu as int, catalog@).0 <= u64::MAX,
        product_addends(strs_view(codes@), vcpu as int, catalog@).1 <= u64::MAX,
    ensures
        r.0 == product_addends(strs_view(codes@), vcpu as int, catalog@).0,
        r.1 == product_addends(strs_view(codes@), vcpu as int, catalog@).1,
{
    let ghost all = strs_view(codes@);
    let mut per_cpu: u64 = 0;
    let mut per_vm: u64 = 0;
    let n = codes.len();
    let mut i: usize = 0;
    while i < n
        invariant
            i <= n,
            n == codes@.len(),
            all == strs_view(codes@),
            all.len() == n,
            product_addends(all, vcpu as int, catalog@).0 <= u64::MAX,
            product_addends(all, vcpu as int, catalog@).1 <= u64::MAX,
            per_cpu == product_addends(all.take(i as int), vcpu as int, catalog@).0,
            per_vm == product_addends(all.take(i as int), vcpu as int, catalog@).1,
        decreases n - i,
    {
        let code = &codes[i];
        proof {
            assert(all[i as int] == code@);
            assert(all.take(i + 1 as int).drop_last() =~= all.take(i as int));
            lemma_product_addends_bounds(all, vcpu as int, catalog@, i as int + 1);
        }
        let mut operation = "RunInstances-".to_owned();
        operation.append(code.as_str());
        operation.append("-OD");
        proof {
            assert(operation@ =~= "RunInstances-"@ + code@ + "-OD"@);
        }
        let price = catalog.lookup("TinaOS-FCU", "ProductUsage", operation.as_str());
        proof {
            reveal_strlit("TinaOS-FCU");
            reveal_strlit("ProductUsage");
        }
        match price {
            None => {},
            Some(p) => {
                match compute_product_price_per_hour(vcpu, code.as_str()) {
                    None => {},
                    Some(f) => {
                        if str_eq(code.as_str(), "0002") || str_eq(code.as_str(), "0008") || str_eq(
                            code.as_str(),
                            "0009",
                        ) {
                            if vcpu > 0 {
                                proof {
                                    assert((f as int) * (p as int) <= u128::MAX) by (nonlinear_arith)
                                        requires
                                            0 <= f <= u64::MAX,
                                            0 <= p <= u64::MAX,
                                    ;
                                }
                                let wide: u128 = (f as u128) * (p as u128);
                                let term: u128 = wide / (vcpu as u128);
                                per_cpu = per_cpu + (term as u64);
                            }
                        } else if str_eq(code.as_str(), "0001") {
                        } else {
                            per_vm = per_vm + p;
                        }
                    },
                }
            },
        }
        i = i + 1;
    }
    proof {
        assert(all.take(n as int) =~= all);
    }
    (per_cpu, per_vm)
}

/// What the opaque-family path resolves a type name to: shape from the
/// side table, generation and performance from the family table (empty
/// for an unknown family).
pub open spec fn spec_parse_box(
    vm_type: Seq<char>,
    types: Map<Seq<char>, (Option<u64>, Option<u64>)>,
) -> Option<(Seq<char>, int, int, Seq<char>)> {
    if !types.dom().contains(vm_type) {
        None
    } else {
        let (vcore, mem) = types[vm_type];
        match (vcore, mem) {
            (Some(vc), Some(mg)) => match spec_box_family(vm_type) {
                Some(family) => {
                    let (generation, performance) = spec_family_profile(family);
                    Some((generation, vc as int, mg as int, performance))
                },
                None => None,
            },
            _ => None,
        }
    }
}

/// Resolves an opaque type name through the side table and the family
/// table, failing when the table does not know the name, its shape
/// fields are missing, or no family prefix can be extracted.
pub fn parse_box_type(vm_type: &String, types: &VmTypes) -> (r: Option<(String, u64, u64, String)>)
    ensures
        (match (r, spec_parse_box(vm_type@, types@)) {
            (Some(parts), Some(shape)) => {
                &&& parts.0@ == shape.0
                &&& parts.1 == shape.1
                &&& parts.2 == shape.2
                &&& parts.3@ == shape.3
            },
            (None, None) => true,
            _ => false,
        }),
{
    let (vcore, mem) = match types.get(vm_type.as_str()) {
        Some(entry) => entry,
        None => {
            return None;
        },
    };
    let vcpu = match vcore {
        Some(vc) => vc,
        None => {
            return None;
        },
    };
    let ram_gb = match mem {
        Some(mg) => mg,
        None => {
            return None;
        },
    };
    let family = match parse_box_family(vm_type.as_str()) {
        Some(f) => f,
        None => {
            return None;
        },
    };
    let (generation, performance) = family_profile(family.as_str());
    Some((generation.to_owned(), vcpu, ram_gb, performance.to_owned()))
}

/// The fully resolved, catalog-priced attribute set of one machine.
pub struct SpecsShape {
    pub generation: Seq<char>,
    pub vcpu: int,
    pub ram_gb: int,
    pub performance: Seq<char>,
    pub price_vcpu_per_hour: int,
    pub price_ram_gb_per_hour: int,
    pub price_box_per_hour: int,
    pub price_product_per_cpu_per_hour: int,
    pub price_product_per_vm_per_hour: int,
}

/// The self-describing path: shape from the type-name grammar, the
/// performance code from the companion tier field, which must be
/// present, decodable, and — when the name carries its own suffix —
/// agree with it; rates from the per-core and per-RAM catalog keys.
pub open spec fn resolve_tina(
    vm_type: Seq<char>,
    perf_field: Option<Seq<char>>,
    codes: Seq<Seq<char>>,
    cat: Map<Seq<char>, Option<u64>>,
) -> Option<SpecsShape> {
    match spec_parse_tina(vm_type) {
        None => None,
        Some(shape) => match perf_field {
            None => None,
            Some(name) => match spec_perf_code(name) {
                None => None,
                Some(code) => if shape.performance is Some && shape.performance->0 != code {
                    None
                } else {
                    let addends = product_addends(codes, shape.vcpu, cat);
                    match catalog_price(cat, custom_core_key(shape.generation, code)) {
                        None => None,
                        Some(core_rate) => match catalog_price(cat, custom_ram_key()) {
                            None => None,
                            Some(ram_rate) => Some(
                                SpecsShape {
                                    generation: shape.generation,
                                    vcpu: shape.vcpu,
                                    ram_gb: shape.ram_gb,
                                    performance: code,
                                    price_vcpu_per_hour: core_rate as int,
                                    price_ram_gb_per_hour: ram_rate as int,
                                    price_box_per_hour: 0,
                                    price_product_per_cpu_per_hour: addends.0,
                                    price_product_per_vm_per_hour: addends.1,
                                },
                            ),
                        },
                    }
                },
            },
        },
    }
}

/// The opaque-family path: shape from the side table, the flat box
/// rate from the type name's own catalog key.
pub open spec fn resolve_box(
    vm_type: Seq<char>,
    codes: Seq<Seq<char>>,
    cat: Map<Seq<char>, Option<u64>>,
    types: Map<Seq<char>, (Option<u64>, Option<u64>)>,
) -> Option<SpecsShape> {
    match spec_parse_box(vm_type, types) {
        None => None,
        Some(parts) => {
            let addends = product_addends(codes, parts.1, cat);
            match catalog_price(cat, box_usage_key(vm_type)) {
                None => None,
                Some(box_rate) => Some(
                    SpecsShape {
                        generation: parts.0,
                        vcpu: parts.1,
                        ram_gb: parts.2,
                        performance: parts.3,
                        price_vcpu_per_hour: 0,
                        price_ram_gb_per_hour: 0,
                        price_box_per_hour: box_rate as int,
                        price_product_per_cpu_per_hour: addends.0,
                        price_product_per_vm_per_hour: addends.1,
                    },
                ),
            }
        },
    }
}

/// Which resolution path a type name takes, and what it resolves to.
pub open spec fn resolve_vm_specs(
    vm_type: Seq<char>,
    perf_field: Option<Seq<char>>,
    codes: Seq<Seq<char>>,
    cat: Map<Seq<char>, Option<u64>>,
    types: Map<Seq<char>, (Option<u64>, Option<u64>)>,
) -> Option<SpecsShape> {
    if is_prefix_of("tina"@, vm_type) {
        resolve_tina(vm_type, perf_field, codes, cat)
    } else {
        resolve_box(vm_type, codes, cat, types)
    }
}

/// The core count resolution would price licenses against, if the
/// type name yields one.
pub open spec fn resolved_vcpu(
    vm_type: Seq<char>,
    types: Map<Seq<char>, (Option<u64>, Option<u64>)>,
) -> Option<int> {
    if is_prefix_of("tina"@, vm_type) {
        match spec_parse_tina(vm_type) {
            Some(shape) => Some(shape.vcpu),
            None => None,
        }
    } else {
        if types.dom().contains(vm_type) {
            match types[vm_type].0 {
                Some(vc) => Some(vc as int),
                None => None,
            }
        } else {
            None
        }
    }
}

/// The resolved attribute set of one machine, consumed immediately to
/// build its priced resource.
pub struct VmSpecs {
    pub vm_type: String,
    pub generation: String,
    pub vcpu: u64,
    pub ram_gb: u64,
    pub performance: String,
    pub product_codes: Vec<String>,
    pub price_vcpu_per_hour: u64,
    pub price_ram_gb_per_hour: u64,
    pub price_box_per_hour: u64,
    pub price_product_per_ram_gb_per_hour: u64,
    pub price_product_per_cpu_per_hour: u64,
    pub price_product_per_vm_per_hour: u64,
}

impl VmSpecs {
    /// True when this value carries exactly the given resolved shape.
    pub open spec fn denotes(self, shape: SpecsShape) -> bool {
        &&& self.generation@ == shape.generation
        &&& self.vcpu == shape.vcpu
        &&& self.ram_gb == shape.ram_gb
        &&& self.performance@ == shape.performance
        &&& self.price_vcpu_per_hour == shape.price_vcpu_per_hour
        &&& self.price_ram_gb_per_hour == shape.price_ram_gb_per_hour
        &&& self.price_box_per_hour == shape.price_box_per_hour
        &&& self.price_product_per_ram_gb_per_hour == 0
        &&& self.price_product_per_cpu_per_hour == shape.price_product_per_cpu_per_hour
        &&& self.price_product_per_vm_per_hour == shape.price_product_per_vm_per_hour
    }

    /// Resolves one machine's attributes from its raw type name,
    /// performance tier field and product codes, against the catalog
    /// and the machine-type side table; fails outright — dropping the
    /// machine — when a mandatory shape field cannot be determined.
    pub fn new(
        vm_type: &String,
        performance: &Option<String>,
        product_codes: &Vec<String>,
        catalog: &Catalog,
        types: &VmTypes,
    ) -> (r: Option<VmSpecs>)
        requires
            (match resolved_vcpu(vm_type@, types@) {
                Some(c) => product_addends(strs_view(product_codes@), c, catalog@).0 <= u64::MAX
                    && product_addends(strs_view(product_codes@), c, catalog@).1 <= u64::MAX,
                None => true,
            }),
        ensures
            (match (
                r,
                resolve_vm_specs(
                    vm_type@,
                    crate::strutil::opt_text(*performance),
                    strs_view(product_codes@),
                    catalog@,
                    types@,
                ),
            ) {
                (Some(specs), Some(shape)) => specs.denotes(shape) && specs.vm_type@ == vm_type@
                    && strs_view(specs.product_codes@) == strs_view(product_codes@),
                (None, None) => true,
                _ => false,
            }),
    {
        if str_starts_with(vm_type.as_str(), "tina") {
            proof {
                reveal_strlit("tina");
            }
            let parts = match parse_tina_shape(vm_type.as_str()) {
                Some(parts) => parts,
                None => {
                    return None;
                },
            };
            let tier_name = match performance {
                Some(name) => name,
                None => {
                    return None;
                },
            };
            let code = match performance_code(tier_name.as_str()) {
                Some(code) => code,
                None => {
                    return None;
                },
            };
            match &parts.performance {
                Some(suffix) => {
                    if !str_eq(suffix.as_str(), code) {
                        return None;
                    }
                },
                None => {},
            }
            let addends = accumulate_product_prices(product_codes, parts.vcpu, catalog);
            let mut core_kind = "CustomCore:v".to_owned();
            core_kind.append(parts.generation.as_str());
            core_kind.append("-p");
            core_kind.append(code);
            proof {
                assert(core_kind@ =~= "CustomCore:v"@ + parts.generation@ + "-p"@ + code@);
            }
            let core_rate = match catalog.lookup(
                "TinaOS-FCU",
                core_kind.as_str(),
                "RunInstances-OD",
            ) {
                Some(p) => p,
                None => {
                    return None;
                },
            };
            let ram_rate = match catalog.lookup("TinaOS-FCU", "CustomRam", "RunInstances-OD") {
                Some(p) => p,
                None => {
                    return None;
                },
            };
            Some(
                VmSpecs {
                    vm_type: vm_type.clone(),
                    generation: parts.generation,
                    vcpu: parts.vcpu,
                    ram_gb: parts.ram_gb,
                    performance: code.to_owned(),
                    product_codes: clone_strings(product_codes),
                    price_vcpu_per_hour: core_rate,
                    price_ram_gb_per_hour: ram_rate,
                    price_box_per_hour: 0,
                    price_product_per_ram_gb_per_hour: 0,
                    price_product_per_cpu_per_hour: addends.0,
                    price_product_per_vm_per_hour: addends.1,
                },
            )
        } else {
            let parts = match parse_box_type(vm_type, types) {
                Some(parts) => parts,
                None => {
                    return None;
                },
            };
            let addends = accumulate_product_prices(product_codes, parts.1, catalog);
            let mut box_kind = "BoxUsage:".to_owned();
            box_kind.append(vm_type.as_str());
            proof {
                assert(box_kind@ =~= "BoxUsage:"@ + vm_type@);
            }
            let box_rate = match catalog.lookup("TinaOS-FCU", box_kind.as_str(), "RunInstances-OD")
                {
                Some(p) => p,
                None => {
                    return None;
                },
            };
            Some(
                VmSpecs {
                    vm_type: vm_type.clone(),
                    generation: parts.0,
                    vcpu: parts.1,
                    ram_gb: parts.2,
                    performance: parts.3,
                    product_codes: clone_strings(product_codes),
                    price_vcpu_per_hour: 0,
                    price_ram_gb_per_hour: 0,
                    price_box_per_hour: box_rate,
                    price_product_per_ram_gb_per_hour: 0,
                    price_product_per_cpu_per_hour: addends.0,
                    price_product_per_vm_per_hour: addends.1,
                },
            )
        }
    }
}

/// Copies a list of strings, preserving each view.
pub fn clone_strings(v: &Vec<String>) -> (r: Vec<String>)
    ensures
        strs_view(r@) == strs_view(v@),
{
    let mut r: Vec<String> = Vec::new();
    let n = v.len();
    let mut i: usize = 0;
    while i < n
        invariant
            i <= n,
            n == v@.len(),
            r@.len() == i,
            forall|j: int| 0 <= j < i ==> (#[trigger] r@[j])@ == v@[j]@,
        decreases n - i,
    {
        r.push(v[i].clone());
        i = i + 1;
    }
    proof {
        assert(strs_view(r@) =~= strs_view(v@));
    }
    r
}

/// The length of the maximal digit run ending just before position
/// `i`.
pub open spec fn digit_run_back(s: Seq<char>, i: int) -> int
    decreases i,
{
    if 0 < i <= s.len() && is_digit(s[i - 1]) {
        1 + digit_run_back(s, i - 1)
    } else {
        0
    }
}

/// A position whose suffix up to `b` is all digits and which is not
/// preceded by a digit bounds the backward digit run of `b`.
proof fn lemma_digit_run_back_split(s: Seq<char>, a: int, b: int)
    requires
        0 <= a <= b <= s.len(),
        forall|j: int| a <= j < b ==> is_digit(#[trigger] s[j]),
        a > 0 ==> !is_digit(s[a - 1]),
    ensures
        digit_run_back(s, b) == b - a,
    decreases b - a,
{
    if a < b {
        lemma_digit_run_back_split(s, a, b - 1);
    }
}

/// Scans the maximal digit run ending just before `end`, returning its
/// length.
pub fn scan_digits_back(s: &str, end: usize) -> (r: usize)
    requires
        end <= s@.len(),
    ensures
        r == digit_run_back(s@, end as int),
        r <= end,
{
    let mut i: usize = end;
    loop
        invariant_except_break
            i <= end,
            end <= s@.len(),
            forall|j: int| i <= j < end ==> is_digit(#[trigger] s@[j]),
        ensures
            i <= end,
            end <= s@.len(),
            forall|j: int| i <= j < end ==> is_digit(#[trigger] s@[j]),
            i > 0 ==> !is_digit(s@[i - 1]),
        decreases i,
    {
        if i == 0 {
            break;
        }
        let c = s.get_char(i - 1);
        if !('0' <= c && c <= '9') {
            break;
        }
        i = i - 1;
    }
    proof {
        lemma_digit_run_back_split(s@, i as int, end as int);
    }
    end - i
}

/// A parsed self-describing shape has machine-word vcpu and RAM
/// counts.
pub proof fn lemma_parse_tina_in_range(s: Seq<char>)
    requires
        spec_parse_tina(s) is Some,
    ensures
        0 <= spec_parse_tina(s)->0.vcpu <= u64::MAX,
        0 <= spec_parse_tina(s)->0.ram_gb <= u64::MAX,
{
    let g = digit_run(s, 5);
    let cpos = 5 + g + 1;
    let c = digit_run(s, cpos + 1);
    let rpos = cpos + 1 + c;
    let r = digit_run(s, rpos + 1);
    lemma_digit_run_bounds(s, 5);
    lemma_digit_run_bounds(s, cpos + 1);
    lemma_digit_run_bounds(s, rpos + 1);
    lemma_digits_value_nonneg(s.subrange(cpos + 1, cpos + 1 + c));
    lemma_digits_value_nonneg(s.subrange(rpos + 1, rpos + 1 + r));
}

} // verus!





