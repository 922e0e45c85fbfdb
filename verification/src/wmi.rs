//! WMI property names and values as the shell prints them.
//!
//! A WMI property value arrives as a COM `VARIANT`. The shell reads its type
//! tag, lets [`classify_vartype`] decide which payload to take, and hands the
//! payload over as a [`Variant`]; [`variant_to_string`] then renders it.

use vstd::prelude::*;
use crate::text::{chars_of, join, string_views};

verus! {

/// `VT_EMPTY`
pub const VT_EMPTY: u16 = 0;
/// `VT_NULL`
pub const VT_NULL: u16 = 1;
/// `VT_I2`
pub const VT_I2: u16 = 2;
/// `VT_I4`
pub const VT_I4: u16 = 3;
/// `VT_BSTR`
pub const VT_BSTR: u16 = 8;
/// `VT_BOOL`
pub const VT_BOOL: u16 = 11;
/// `VT_UI2`
pub const VT_UI2: u16 = 18;
/// `VT_UI4`
pub const VT_UI4: u16 = 19;
/// `VT_ARRAY`, a flag combined with an element type.
pub const VT_ARRAY: u16 = 0x2000;

/// Which payload of a `VARIANT` the shell renders.
#[derive(Debug, PartialEq, Eq, Clone, Copy, Structural)]
pub enum VariantKind {
    Array,
    Bstr,
    I4,
    UI4,
    I2,
    UI2,
    Bool,
    Null,
    Empty,
    Other,
}

/// The kind that a `VARIANT` type tag selects: any tag with the array flag set
/// is an array; otherwise the tag must be one of the listed scalar types exactly.
pub open spec fn spec_classify_vartype(vt: u16) -> VariantKind {
    if vt & VT_ARRAY != 0 {
        VariantKind::Array
    } else if vt == VT_BSTR {
        VariantKind::Bstr
    } else if vt == VT_I4 {
        VariantKind::I4
    } else if vt == VT_UI4 {
        VariantKind::UI4
    } else if vt == VT_I2 {
        VariantKind::I2
    } else if vt == VT_UI2 {
        VariantKind::UI2
    } else if vt == VT_BOOL {
        VariantKind::Bool
    } else if vt == VT_NULL {
        VariantKind::Null
    } else if vt == VT_EMPTY {
        VariantKind::Empty
    } else {
        VariantKind::Other
    }
}

pub fn classify_vartype(vt: u16) -> (k: VariantKind)
    ensures
        k == spec_classify_vartype(vt),
{
    if vt & VT_ARRAY != 0 {
        VariantKind::Array
    } else if vt == VT_BSTR {
        VariantKind::Bstr
    } else if vt == VT_I4 {
        VariantKind::I4
    } else if vt == VT_UI4 {
        VariantKind::UI4
    } else if vt == VT_I2 {
        VariantKind::I2
    } else if vt == VT_UI2 {
        VariantKind::UI2
    } else if vt == VT_BOOL {
        VariantKind::Bool
    } else if vt == VT_NULL {
        VariantKind::Null
    } else if vt == VT_EMPTY {
        VariantKind::Empty
    } else {
        VariantKind::Other
    }
}

/// Every type tag with the array flag (`0x2000`) set is an array; of the
/// others, `8` is a string, `3` a 32-bit and `2` a 16-bit signed integer, `19`
/// and `18` their unsigned forms, `11` a boolean, `1` null and `0` empty, and
/// every other tag is rendered by its number.
pub proof fn law_type_tags(vt: u16)
    ensures
        vt & 0x2000 != 0 ==> spec_classify_vartype(vt) == VariantKind::Array,
        vt & 0x2000 == 0 ==> spec_classify_vartype(vt) == (if vt == 8 {
            VariantKind::Bstr
        } else if vt == 3 {
            VariantKind::I4
        } else if vt == 19 {
            VariantKind::UI4
        } else if vt == 2 {
            VariantKind::I2
        } else if vt == 18 {
            VariantKind::UI2
        } else if vt == 11 {
            VariantKind::Bool
        } else if vt == 1 {
            VariantKind::Null
        } else if vt == 0 {
            VariantKind::Empty
        } else {
            VariantKind::Other
        }),
{
}

/// The payload of a WMI property value.
#[derive(Debug, PartialEq, Clone)]
pub enum Variant {
    /// An array whose `SAFEARRAY` pointer is null.
    NullArray,
    /// An array, with the lower and upper bound of its first dimension where
    /// they could be read.
    Array { lower: Option<i32>, upper: Option<i32> },
    Bstr(String),
    I4(i32),
    UI4(u32),
    I2(i16),
    UI2(u16),
    /// A `VARIANT_BOOL`: zero is false, anything else true.
    Bool(i16),
    Null,
    Empty,
    /// Any other type tag.
    Other(u16),
}

/// The character of decimal digit `d`.
pub open spec fn digit_char(d: int) -> char {
    seq!['0', '1', '2', '3', '4', '5', '6', '7', '8', '9'][d]
}

/// The decimal digits of `n`, most significant first, without leading zeros.
pub open spec fn nat_digits(n: nat) -> Seq<char>
    decreases n,
{
    if n < 10 {
        seq![digit_char(n as int)]
    } else {
        nat_digits(n / 10).push(digit_char((n % 10) as int))
    }
}

/// The decimal notation of `n`, with a leading `-` when negative.
pub open spec fn decimal(n: int) -> Seq<char> {
    if n < 0 {
        seq!['-'] + nat_digits((-n) as nat)
    } else {
        nat_digits(n as nat)
    }
}

/// `n` copies of `...` separated by `, `.
pub open spec fn ellipses(n: nat) -> Seq<char>
    decreases n,
{
    if n == 0 {
        Seq::empty()
    } else if n == 1 {
        seq!['.', '.', '.']
    } else {
        ellipses((n - 1) as nat) + seq![',', ' ', '.', '.', '.']
    }
}

/// The number of elements between two inclusive bounds.
pub open spec fn bound_count(lower: int, upper: int) -> nat {
    if upper >= lower {
        (upper - lower + 1) as nat
    } else {
        0
    }
}

/// How a property value is printed. Array elements are not read: each shows as `...`.
/// Bounds that could not be read count as 0 (lower) and -1 (upper).
pub open spec fn spec_variant_string(v: Variant) -> Seq<char> {
    match v {
        Variant::NullArray => seq!['[', ']'],
        Variant::Array { lower, upper } => {
            let lo: int = match lower { Some(l) => l as int, None => 0 };
            let hi: int = match upper { Some(u) => u as int, None => -1 };
            seq!['['] + ellipses(bound_count(lo, hi)) + seq![']']
        },
        Variant::Bstr(s) => s@,
        Variant::I4(x) => decimal(x as int),
        Variant::UI4(x) => decimal(x as int),
        Variant::I2(x) => decimal(x as int),
        Variant::UI2(x) => decimal(x as int),
        Variant::Bool(b) => if b != 0 {
            seq!['t', 'r', 'u', 'e']
        } else {
            seq!['f', 'a', 'l', 's', 'e']
        },
        Variant::Null => seq!['n', 'u', 'l', 'l'],
        Variant::Empty => Seq::empty(),
        Variant::Other(vt) => seq!['V', 'A', 'R', 'E', 'N', 'U', 'M', '('] + decimal(vt as int) + seq![')'],
    }
}

/// The number that a string of decimal digits denotes.
pub open spec fn digits_value(s: Seq<char>) -> int
    decreases s.len(),
{
    if s.len() == 0 {
        0
    } else {
        digits_value(s.drop_last()) * 10 + (s.last() as int - '0' as int)
    }
}

proof fn lemma_digit_char(d: int)
    requires
        0 <= d < 10,
    ensures
        '0' <= digit_char(d) <= '9',
        digit_char(d) as int - '0' as int == d,
{
    if d == 0 {
    } else if d == 1 {
    } else if d == 2 {
    } else if d == 3 {
    } else if d == 4 {
    } else if d == 5 {
    } else if d == 6 {
    } else if d == 7 {
    } else if d == 8 {
    } else {
    }
}

/// The decimal digits of `n` are digits, denote `n`, and have no leading zero.
pub proof fn law_digits_denote_the_number(n: nat)
    ensures
        nat_digits(n).len() >= 1,
        forall|i: int| 0 <= i < nat_digits(n).len() ==> '0' <= #[trigger] nat_digits(n)[i] <= '9',
        digits_value(nat_digits(n)) == n,
        nat_digits(n)[0] == '0' ==> n == 0,
    decreases n,
{
    if n < 10 {
        lemma_digit_char(n as int);
        assert(nat_digits(n).drop_last() =~= Seq::<char>::empty());
        assert(digits_value(Seq::<char>::empty()) == 0);
        assert(nat_digits(n).last() == digit_char(n as int));
    } else {
        law_digits_denote_the_number(n / 10);
        lemma_digit_char((n % 10) as int);
        let p = nat_digits(n / 10);
        assert(nat_digits(n).drop_last() =~= p);
        assert(nat_digits(n)[0] == p[0]);
        assert forall|i: int| 0 <= i < nat_digits(n).len() implies '0' <= #[trigger] nat_digits(n)[i]
            <= '9' by {
            if i < p.len() {
                assert(nat_digits(n)[i] == p[i]);
            }
        }
        assert(n == (n / 10) * 10 + n % 10);
        assert(nat_digits(n).last() == digit_char((n % 10) as int));
        assert(digits_value(nat_digits(n)) == digits_value(p) * 10 + (digit_char((n % 10) as int) as int
            - '0' as int));
    }
}

/// Each payload prints as its own value: unsigned integers as their
/// non-negative decimal digits, signed ones with a `-` before the digits of
/// their magnitude when negative, booleans as `true` exactly when non-zero,
/// strings unchanged, and an array of bounds `lo..=hi` as `[` and `]` around
/// one `...` per element, separated by `, `.
pub proof fn law_values_print_as_themselves(v: Variant)
    ensures
        v matches Variant::UI2(x) ==> spec_variant_string(v) == nat_digits(x as nat),
        v matches Variant::UI4(x) ==> spec_variant_string(v) == nat_digits(x as nat),
        v matches Variant::I2(x) ==> spec_variant_string(v) == if x < 0 {
            seq!['-'] + nat_digits((-x) as nat)
        } else {
            nat_digits(x as nat)
        },
        v matches Variant::I4(x) ==> spec_variant_string(v) == if x < 0 {
            seq!['-'] + nat_digits((-x) as nat)
        } else {
            nat_digits(x as nat)
        },
        v matches Variant::Bool(b) ==> (spec_variant_string(v) == seq!['t', 'r', 'u', 'e'] <==> b != 0),
        v matches Variant::Bstr(s) ==> spec_variant_string(v) == s@,
        v is Null ==> spec_variant_string(v) == seq!['n', 'u', 'l', 'l'],
        v is Empty ==> spec_variant_string(v) == Seq::<char>::empty(),
        v is NullArray ==> spec_variant_string(v) == seq!['[', ']'],
        v matches Variant::Other(t) ==> spec_variant_string(v) == seq!['V', 'A', 'R', 'E', 'N', 'U', 'M', '(']
            + nat_digits(t as nat) + seq![')'],
        v matches Variant::Array { lower: None, upper: None } ==> spec_variant_string(v) == seq!['[', ']'],
        v matches Variant::Array { lower: Some(lo), upper: Some(hi) } ==> spec_variant_string(v) == seq!['[']
            + join(Seq::new(bound_count(lo as int, hi as int), |i: int| seq!['.', '.', '.']), seq![',', ' '])
            + seq![']'],
{
    if let Variant::Array { lower: Some(lo), upper: Some(hi) } = v {
        lemma_ellipses_join(bound_count(lo as int, hi as int));
    }
}

/// `ellipses(n)` is `n` copies of `...` joined by `, `.
pub proof fn lemma_ellipses_join(n: nat)
    ensures
        ellipses(n) == join(Seq::new(n, |i: int| seq!['.', '.', '.']), seq![',', ' ']),
    decreases n,
{
    let parts = Seq::new(n, |i: int| seq!['.', '.', '.']);
    if n > 1 {
        lemma_ellipses_join((n - 1) as nat);
        assert(parts.drop_last() =~= Seq::new((n - 1) as nat, |i: int| seq!['.', '.', '.']));
        assert(ellipses(n) =~= join(parts, seq![',', ' ']));
    }
}

fn digit_str(d: u64) -> (r: &'static str)
    requires
        d < 10,
    ensures
        r@ == seq![digit_char(d as int)],
{
    let digits = "0123456789";
    proof {
        reveal_strlit("0123456789");
    }
    let r = digits.substring_char(d as usize, (d + 1) as usize);
    assert(r@ =~= seq![digit_char(d as int)]);
    r
}

/// The decimal digits of `n`.
pub fn nat_to_decimal(n: u64) -> (s: String)
    ensures
        s@ == nat_digits(n as nat),
    decreases n,
{
    if n < 10 {
        String::from_str(digit_str(n))
    } else {
        let mut s = nat_to_decimal(n / 10);
        s.append(digit_str(n % 10));
        s
    }
}

/// The decimal notation of `n`, as `to_string` writes an integer.
pub fn int_to_decimal(n: i64) -> (s: String)
    requires
        n > i64::MIN,
    ensures
        s@ == decimal(n as int),
{
    if n < 0 {
        let digits = nat_to_decimal((-n) as u64);
        let s = String::from_str("-").concat(digits.as_str());
        proof {
            reveal_strlit("-");
        }
        assert(s@ =~= decimal(n as int));
        s
    } else {
        nat_to_decimal(n as u64)
    }
}

fn array_to_string(lower: Option<i32>, upper: Option<i32>) -> (s: String)
    ensures
        s@ == spec_variant_string(Variant::Array { lower, upper }),
{
    let lo: i64 = match lower {
        Some(l) => l as i64,
        None => 0,
    };
    let hi: i64 = match upper {
        Some(u) => u as i64,
        None => -1,
    };
    let count: u64 = if hi >= lo {
        (hi - lo + 1) as u64
    } else {
        0
    };
    proof {
        reveal_strlit("[");
    }
    let mut s = String::from_str("[");
    let mut k: u64 = 0;
    while k < count
        invariant
            k <= count,
            s@ == seq!['['] + ellipses(k as nat),
        decreases count - k,
    {
        proof {
            reveal_strlit("...");
            reveal_strlit(", ...");
        }
        if k == 0 {
            s.append("...");
            assert(s@ =~= seq!['['] + ellipses(1));
        } else {
            s.append(", ...");
            assert(s@ =~= seq!['['] + ellipses((k + 1) as nat));
        }
        k = k + 1;
    }
    proof {
        reveal_strlit("]");
    }
    s.append("]");
    s
}

/// Renders a WMI property value for output.
pub fn variant_to_string(v: &Variant) -> (s: String)
    ensures
        s@ == spec_variant_string(*v),
{
    proof {
        reveal_strlit("[]");
        reveal_strlit("true");
        reveal_strlit("false");
        reveal_strlit("null");
        reveal_strlit("");
        reveal_strlit("VARENUM(");
        reveal_strlit(")");
    }
    match v {
        Variant::NullArray => String::from_str("[]"),
        Variant::Array { lower, upper } => array_to_string(*lower, *upper),
        Variant::Bstr(b) => b.clone(),
        Variant::I4(x) => int_to_decimal(*x as i64),
        Variant::UI4(x) => int_to_decimal(*x as i64),
        Variant::I2(x) => int_to_decimal(*x as i64),
        Variant::UI2(x) => int_to_decimal(*x as i64),
        Variant::Bool(b) => if *b != 0 {
            String::from_str("true")
        } else {
            String::from_str("false")
        },
        Variant::Null => String::from_str("null"),
        Variant::Empty => String::from_str(""),
        Variant::Other(vt) => {
            let s = String::from_str("VARENUM(").concat(int_to_decimal(*vt as i64).as_str()).concat(
                ")",
            );
            assert(s@ =~= spec_variant_string(*v));
            s
        },
    }
}

/// Whether a property name is a system property (`__CLASS`, `__PATH`, ...).
pub open spec fn is_system_property(name: Seq<char>) -> bool {
    seq!['_', '_'].is_prefix_of(name)
}

fn system_property(name: &str) -> (r: bool)
    ensures
        r == is_system_property(name@),
{
    let c = chars_of(name);
    let r = c.len() >= 2 && c[0] == '_' && c[1] == '_';
    assert(r ==> seq!['_', '_'] =~= name@.subrange(0, 2));
    r
}

/// The names of `names` that are not system properties, in order.
pub open spec fn visible_names(names: Seq<Seq<char>>) -> Seq<Seq<char>> {
    names.filter(|n: Seq<char>| !is_system_property(n))
}

/// The property names that the shell shows: all but the system properties, in order.
pub fn visible_property_names(names: Vec<String>) -> (r: Vec<String>)
    ensures
        string_views(r@) == visible_names(string_views(names@)),
        string_views(r@) == string_views(names@).filter(|n: Seq<char>| !seq!['_', '_'].is_prefix_of(n)),
{
    let ghost pred = |n: Seq<char>| !is_system_property(n);
    let mut r: Vec<String> = Vec::new();
    let mut i: usize = 0;
    while i < names.len()
        invariant
            i <= names.len(),
            pred == (|n: Seq<char>| !is_system_property(n)),
            string_views(r@) == string_views(names@).take(i as int).filter(pred),
        decreases names.len() - i,
    {
        reveal_with_fuel(Seq::<_>::filter, 1);
        assert(string_views(names@).take(i + 1).drop_last() =~= string_views(names@).take(
            i as int,
        ));
        let ghost t = string_views(names@).take(i + 1);
        assert(t.last() == names@[i as int]@);
        assert(t.filter(pred) == (if pred(t.last()) {
            t.drop_last().filter(pred).push(t.last())
        } else {
            t.drop_last().filter(pred)
        }));
        let sys = system_property(names[i].as_str());
        if !sys {
            r.push(names[i].clone());
            assert(string_views(r@) =~= string_views(names@).take(i as int).filter(pred).push(
                names@[i as int]@,
            ));
        } else {
            assert(string_views(r@) =~= string_views(names@).take(i as int).filter(pred));
        }
        i = i + 1;
    }
    assert(string_views(names@).take(names.len() as int) =~= string_views(names@));
    proof {
        law_names_without_double_underscore(string_views(names@));
    }
    r
}


/// The names shown are the names that do not begin with `__`, in their order:
/// none shown begins with `__`, and every name that does not is shown.
pub proof fn law_names_without_double_underscore(names: Seq<Seq<char>>)
    ensures
        visible_names(names) == names.filter(|n: Seq<char>| !seq!['_', '_'].is_prefix_of(n)),
        forall|i: int| 0 <= i < visible_names(names).len() ==> !seq!['_', '_'].is_prefix_of(
            #[trigger] visible_names(names)[i],
        ),
        forall|k: int| 0 <= k < names.len() && !seq!['_', '_'].is_prefix_of(#[trigger] names[k])
            ==> visible_names(names).contains(names[k]),
{
    let p1 = |n: Seq<char>| !is_system_property(n);
    let p2 = |n: Seq<char>| !seq!['_', '_'].is_prefix_of(n);
    assert(p1 =~= p2);
    law_no_system_property_shown(names);
}

/// The names shown are exactly the names that are not system properties.
pub proof fn law_no_system_property_shown(names: Seq<Seq<char>>)
    ensures
        forall|i: int| 0 <= i < visible_names(names).len() ==> !is_system_property(
            #[trigger] visible_names(names)[i],
        ),
        forall|k: int| 0 <= k < names.len() && !is_system_property(#[trigger] names[k])
            ==> visible_names(names).contains(names[k]),
{
    broadcast use vstd::seq_lib::group_filter_ensures;

    let pred = |n: Seq<char>| !is_system_property(n);
    assert forall|i: int| 0 <= i < visible_names(names).len() implies !is_system_property(
        #[trigger] visible_names(names)[i],
    ) by {
        assert(pred(names.filter(pred)[i]));
    }
    assert forall|k: int| 0 <= k < names.len() && !is_system_property(#[trigger] names[k])
        implies visible_names(names).contains(names[k]) by {
        assert(pred(names[k]));
        assert(names.filter(pred).contains(names[k]));
    }
}

} // verus!
