//! Character classes and string helpers shared by the parser and the shell.

use vstd::prelude::*;

verus! {

/// The whitespace that separates the words of an inline command:
/// space, tab, carriage return and line feed.
pub open spec fn is_multispace(c: char) -> bool {
    c == ' ' || c == '\t' || c == '\r' || c == '\n'
}

/// Unicode `White_Space`, the class that `char::is_whitespace` and `str::trim` use.
pub open spec fn is_unicode_whitespace(c: char) -> bool {
    ||| c == ' '
    ||| ('\t' <= c && c <= '\r')
    ||| c == '\u{85}'
    ||| c == '\u{a0}'
    ||| c == '\u{1680}'
    ||| ('\u{2000}' <= c && c <= '\u{200a}')
    ||| c == '\u{2028}'
    ||| c == '\u{2029}'
    ||| c == '\u{202f}'
    ||| c == '\u{205f}'
    ||| c == '\u{3000}'
}

/// ASCII letters and digits.
pub open spec fn is_ascii_alphanumeric(c: char) -> bool {
    ('a' <= c && c <= 'z') || ('A' <= c && c <= 'Z') || ('0' <= c && c <= '9')
}

/// The code of a character with ASCII upper-case letters folded to lower case.
pub open spec fn ascii_fold(c: char) -> u32 {
    if 'A' <= c && c <= 'Z' {
        (c as u32 + 32) as u32
    } else {
        c as u32
    }
}

/// `s` begins with `tag`, letters compared without regard to ASCII case.
pub open spec fn starts_with_no_case(s: Seq<char>, tag: Seq<char>) -> bool {
    &&& tag.len() <= s.len()
    &&& forall|i: int| 0 <= i < tag.len() ==> #[trigger] ascii_fold(s[i]) == ascii_fold(tag[i])
}

/// `s` without its leading Unicode whitespace.
pub open spec fn trim_start(s: Seq<char>) -> Seq<char>
    decreases s.len(),
{
    if s.len() > 0 && is_unicode_whitespace(s[0]) {
        trim_start(s.drop_first())
    } else {
        s
    }
}

/// `s` without its trailing Unicode whitespace.
pub open spec fn trim_end(s: Seq<char>) -> Seq<char>
    decreases s.len(),
{
    if s.len() > 0 && is_unicode_whitespace(s.last()) {
        trim_end(s.drop_last())
    } else {
        s
    }
}

/// `s` without leading and trailing Unicode whitespace, as `str::trim` gives it.
pub open spec fn trim(s: Seq<char>) -> Seq<char> {
    trim_end(trim_start(s))
}

/// `s` after its leading run of command whitespace.
pub open spec fn skip_multispace(s: Seq<char>) -> Seq<char>
    decreases s.len(),
{
    if s.len() > 0 && is_multispace(s[0]) {
        skip_multispace(s.drop_first())
    } else {
        s
    }
}

/// The length of the leading run of ASCII letters and digits of `s`.
pub open spec fn alnum_len(s: Seq<char>) -> nat
    decreases s.len(),
{
    if s.len() > 0 && is_ascii_alphanumeric(s[0]) {
        1 + alnum_len(s.drop_first())
    } else {
        0
    }
}

/// The strings of `v` as character sequences.
pub open spec fn string_views(v: Seq<String>) -> Seq<Seq<char>> {
    v.map_values(|s: String| s@)
}

pub fn is_multispace_char(c: char) -> (r: bool)
    ensures
        r == is_multispace(c),
{
    c == ' ' || c == '\t' || c == '\r' || c == '\n'
}

pub fn is_whitespace_char(c: char) -> (r: bool)
    ensures
        r == is_unicode_whitespace(c),
{
    c == ' ' || ('\t' <= c && c <= '\r') || c == '\u{85}' || c == '\u{a0}' || c == '\u{1680}'
        || ('\u{2000}' <= c && c <= '\u{200a}') || c == '\u{2028}' || c == '\u{2029}'
        || c == '\u{202f}' || c == '\u{205f}' || c == '\u{3000}'
}

pub fn is_alphanumeric_char(c: char) -> (r: bool)
    ensures
        r == is_ascii_alphanumeric(c),
{
    ('a' <= c && c <= 'z') || ('A' <= c && c <= 'Z') || ('0' <= c && c <= '9')
}

pub fn fold_char(c: char) -> (r: u32)
    ensures
        r == ascii_fold(c),
{
    if 'A' <= c && c <= 'Z' {
        (c as u32) + 32
    } else {
        c as u32
    }
}


/// The characters of `s`, in order.
pub fn chars_of(s: &str) -> (v: Vec<char>)
    ensures
        v@ == s@,
{
    let mut v: Vec<char> = Vec::new();
    for c in it: s.chars()
        invariant
            it.seq() == s@,
            v@ == it.seq().take(it.index() as int),
    {
        v.push(c);
    }
    assert(v@ =~= s@);
    v
}

/// Index of the first character at or after `from` that is not Unicode whitespace.
fn first_non_whitespace(v: &Vec<char>, from: usize) -> (r: usize)
    requires
        from <= v.len(),
    ensures
        from <= r <= v.len(),
        trim_start(v@.skip(from as int)) == v@.skip(r as int),
{
    let mut i = from;
    while i < v.len() && is_whitespace_char(v[i])
        invariant
            from <= i <= v.len(),
            trim_start(v@.skip(from as int)) == trim_start(v@.skip(i as int)),
        decreases v.len() - i,
    {
        assert(v@.skip(i as int).drop_first() =~= v@.skip(i + 1));
        i = i + 1;
    }
    i
}

/// `s` without leading and trailing Unicode whitespace, as `str::trim` gives it.
pub fn trim_str(s: &str) -> (r: &str)
    ensures
        r@ == trim(s@),
{
    let v = chars_of(s);
    let a = first_non_whitespace(&v, 0);
    assert(v@.skip(0) =~= v@);
    let ghost t = v@.skip(a as int);
    let mut b = v.len();
    assert(t.take(t.len() as int) =~= t);
    while b > a && is_whitespace_char(v[b - 1])
        invariant
            a <= b <= v.len(),
            t == v@.skip(a as int),
            trim_end(t) == trim_end(t.take(b - a)),
        decreases b,
    {
        assert(t.take(b - a).drop_last() =~= t.take(b - 1 - a));
        b = b - 1;
    }
    assert(v@.subrange(a as int, b as int) =~= t.take(b - a));
    s.substring_char(a, b)
}

/// The position after the run of command whitespace that starts at `from`.
pub fn skip_multispace_from(v: &Vec<char>, from: usize) -> (r: usize)
    requires
        from <= v.len(),
    ensures
        from <= r <= v.len(),
        skip_multispace(v@.skip(from as int)) == v@.skip(r as int),
{
    let mut i = from;
    while i < v.len() && is_multispace_char(v[i])
        invariant
            from <= i <= v.len(),
            skip_multispace(v@.skip(from as int)) == skip_multispace(v@.skip(i as int)),
        decreases v.len() - i,
    {
        assert(v@.skip(i as int).drop_first() =~= v@.skip(i + 1));
        i = i + 1;
    }
    i
}

/// The position after the run of ASCII letters and digits that starts at `from`.
pub fn alnum_end(v: &Vec<char>, from: usize) -> (r: usize)
    requires
        from <= v.len(),
    ensures
        from <= r <= v.len(),
        r - from == alnum_len(v@.skip(from as int)),
{
    let mut i = from;
    while i < v.len() && is_alphanumeric_char(v[i])
        invariant
            from <= i <= v.len(),
            alnum_len(v@.skip(from as int)) == (i - from) + alnum_len(v@.skip(i as int)),
        decreases v.len() - i,
    {
        assert(v@.skip(i as int).drop_first() =~= v@.skip(i + 1));
        i = i + 1;
    }
    i
}

/// Whether the characters of `v` from `from` on begin with `tag`, without regard to ASCII case.
pub fn tag_at(v: &Vec<char>, from: usize, tag: &str) -> (r: bool)
    requires
        from <= v.len(),
    ensures
        r == starts_with_no_case(v@.skip(from as int), tag@),
{
    let t = chars_of(tag);
    if t.len() > v.len() - from {
        return false;
    }
    let mut i: usize = 0;
    while i < t.len()
        invariant
            i <= t.len(),
            t@ == tag@,
            from + t.len() <= v.len(),
            forall|j: int| 0 <= j < i ==> ascii_fold(v@.skip(from as int)[j]) == ascii_fold(t@[j]),
        decreases t.len() - i,
    {
        if fold_char(v[from + i]) != fold_char(t[i]) {
            assert(ascii_fold(v@.skip(from as int)[i as int]) != ascii_fold(t@[i as int]));
            return false;
        }
        i = i + 1;
    }
    true
}


/// `s` and `t` differ at most in the ASCII case of their letters.
pub open spec fn same_but_ascii_case(s: Seq<char>, t: Seq<char>) -> bool {
    &&& s.len() == t.len()
    &&& forall|i: int| 0 <= i < s.len() ==> #[trigger] ascii_fold(s[i]) == ascii_fold(t[i])
}

/// Characters equal up to ASCII case are alike as whitespace and as letters or digits.
pub proof fn lemma_fold_keeps_classes(c: char, d: char)
    requires
        ascii_fold(c) == ascii_fold(d),
    ensures
        is_multispace(c) == is_multispace(d),
        is_ascii_alphanumeric(c) == is_ascii_alphanumeric(d),
{
}

/// The Kelvin sign is equal up to ASCII case only to itself.
pub proof fn lemma_fold_keeps_kelvin_sign(c: char, d: char)
    requires
        ascii_fold(c) == ascii_fold(d),
    ensures
        (c == '\u{212A}') == (d == '\u{212A}'),
{
    assert(('\u{212A}' as u32) == 0x212A);
    if c == '\u{212A}' {
        assert(ascii_fold(c) == 0x212A);
        assert(!('A' <= d && d <= 'Z'));
        assert(d as u32 == 0x212A);
    }
    if d == '\u{212A}' {
        assert(ascii_fold(d) == 0x212A);
        assert(!('A' <= c && c <= 'Z'));
        assert(c as u32 == 0x212A);
    }
}

pub proof fn lemma_same_case_skip(s: Seq<char>, t: Seq<char>, k: int)
    requires
        same_but_ascii_case(s, t),
        0 <= k <= s.len(),
    ensures
        same_but_ascii_case(s.skip(k), t.skip(k)),
{
    assert forall|i: int| 0 <= i < s.skip(k).len() implies #[trigger] ascii_fold(s.skip(k)[i])
        == ascii_fold(t.skip(k)[i]) by {
        assert(ascii_fold(s[k + i]) == ascii_fold(t[k + i]));
    }
}

pub proof fn lemma_same_case_starts_with(s: Seq<char>, t: Seq<char>, tag: Seq<char>)
    requires
        same_but_ascii_case(s, t),
    ensures
        starts_with_no_case(s, tag) == starts_with_no_case(t, tag),
{
    if starts_with_no_case(s, tag) {
        assert forall|i: int| 0 <= i < tag.len() implies #[trigger] ascii_fold(t[i]) == ascii_fold(
            tag[i],
        ) by {
            assert(ascii_fold(s[i]) == ascii_fold(tag[i]));
        }
    }
    if starts_with_no_case(t, tag) {
        assert forall|i: int| 0 <= i < tag.len() implies #[trigger] ascii_fold(s[i]) == ascii_fold(
            tag[i],
        ) by {
            assert(ascii_fold(t[i]) == ascii_fold(tag[i]));
        }
    }
}

pub proof fn lemma_same_case_skip_multispace(s: Seq<char>, t: Seq<char>)
    requires
        same_but_ascii_case(s, t),
    ensures
        same_but_ascii_case(skip_multispace(s), skip_multispace(t)),
    decreases s.len(),
{
    if s.len() > 0 {
        lemma_fold_keeps_classes(s[0], t[0]);
        if is_multispace(s[0]) {
            lemma_same_case_skip(s, t, 1);
            assert(s.skip(1) =~= s.drop_first());
            assert(t.skip(1) =~= t.drop_first());
            lemma_same_case_skip_multispace(s.drop_first(), t.drop_first());
        }
    }
}

pub proof fn lemma_same_case_alnum_len(s: Seq<char>, t: Seq<char>)
    requires
        same_but_ascii_case(s, t),
    ensures
        alnum_len(s) == alnum_len(t),
    decreases s.len(),
{
    if s.len() > 0 {
        lemma_fold_keeps_classes(s[0], t[0]);
        if is_ascii_alphanumeric(s[0]) {
            lemma_same_case_skip(s, t, 1);
            assert(s.skip(1) =~= s.drop_first());
            assert(t.skip(1) =~= t.drop_first());
            lemma_same_case_alnum_len(s.drop_first(), t.drop_first());
        }
    }
}

/// What `skip_multispace` leaves is a suffix of its argument.
pub proof fn lemma_skip_multispace_suffix(s: Seq<char>)
    ensures
        skip_multispace(s).len() <= s.len(),
        skip_multispace(s) == s.skip(s.len() - skip_multispace(s).len()),
    decreases s.len(),
{
    if s.len() > 0 && is_multispace(s[0]) {
        lemma_skip_multispace_suffix(s.drop_first());
        assert(s.drop_first().skip(s.drop_first().len() - skip_multispace(s.drop_first()).len())
            =~= s.skip(s.len() - skip_multispace(s).len()));
    } else {
        assert(s.skip(0) =~= s);
    }
}

proof fn lemma_trim_start_shape(s: Seq<char>) -> (k: int)
    ensures
        0 <= k <= s.len(),
        trim_start(s) == s.skip(k),
        forall|i: int| 0 <= i < k ==> is_unicode_whitespace(#[trigger] s[i]),
        k < s.len() ==> !is_unicode_whitespace(s[k]),
    decreases s.len(),
{
    if s.len() > 0 && is_unicode_whitespace(s[0]) {
        let k1 = lemma_trim_start_shape(s.drop_first());
        assert(s.drop_first().skip(k1) =~= s.skip(k1 + 1));
        assert forall|i: int| 0 <= i < k1 + 1 implies is_unicode_whitespace(#[trigger] s[i]) by {
            if i > 0 {
                assert(s[i] == s.drop_first()[i - 1]);
            }
        }
        k1 + 1
    } else {
        assert(s.skip(0) =~= s);
        0
    }
}

proof fn lemma_trim_end_shape(s: Seq<char>) -> (j: int)
    ensures
        0 <= j <= s.len(),
        trim_end(s) == s.take(j),
        forall|i: int| j <= i < s.len() ==> is_unicode_whitespace(#[trigger] s[i]),
        j > 0 ==> !is_unicode_whitespace(s[j - 1]),
    decreases s.len(),
{
    if s.len() > 0 && is_unicode_whitespace(s.last()) {
        let j1 = lemma_trim_end_shape(s.drop_last());
        assert(s.drop_last().take(j1) =~= s.take(j1));
        assert forall|i: int| j1 <= i < s.len() implies is_unicode_whitespace(#[trigger] s[i]) by {
            if i < s.len() - 1 {
                assert(s[i] == s.drop_last()[i]);
            }
        }
        j1
    } else {
        assert(s.take(s.len() as int) =~= s);
        s.len() as int
    }
}

/// `trim` keeps a contiguous middle part of `s`: all that it drops before and
/// after is Unicode whitespace, and what it keeps neither starts nor ends with it.
pub proof fn law_trim_drops_only_outer_whitespace(s: Seq<char>)
    ensures
        exists|a: int, b: int|
            {
                &&& 0 <= a <= b <= s.len()
                &&& trim(s) == s.subrange(a, b)
                &&& forall|i: int| 0 <= i < a ==> is_unicode_whitespace(#[trigger] s[i])
                &&& forall|i: int| b <= i < s.len() ==> is_unicode_whitespace(#[trigger] s[i])
                &&& a < b ==> !is_unicode_whitespace(s[a]) && !is_unicode_whitespace(s[b - 1])
            },
{
    let a = lemma_trim_start_shape(s);
    let t = s.skip(a);
    let j = lemma_trim_end_shape(t);
    let b = a + j;
    assert(t.take(j) =~= s.subrange(a, b));
    assert forall|i: int| b <= i < s.len() implies is_unicode_whitespace(#[trigger] s[i]) by {
        assert(s[i] == t[i - a]);
    }
    if a < b {
        assert(s[b - 1] == t[j - 1]);
    }
    if a == b && a < s.len() {
        assert(is_unicode_whitespace(t[0]));
        assert(t[0] == s[a]);
    }
}

/// `skip_multispace` drops exactly the leading run of command whitespace.
pub proof fn law_skip_multispace_drops_leading_run(s: Seq<char>)
    ensures
        exists|k: int|
            {
                &&& 0 <= k <= s.len()
                &&& skip_multispace(s) == s.skip(k)
                &&& forall|i: int| 0 <= i < k ==> is_multispace(#[trigger] s[i])
                &&& k < s.len() ==> !is_multispace(s[k])
            },
    decreases s.len(),
{
    if s.len() > 0 && is_multispace(s[0]) {
        law_skip_multispace_drops_leading_run(s.drop_first());
        let k1 = choose|k: int|
            {
                &&& 0 <= k <= s.drop_first().len()
                &&& skip_multispace(s.drop_first()) == s.drop_first().skip(k)
                &&& forall|i: int| 0 <= i < k ==> is_multispace(#[trigger] s.drop_first()[i])
                &&& k < s.drop_first().len() ==> !is_multispace(s.drop_first()[k])
            };
        assert(s.drop_first().skip(k1) =~= s.skip(k1 + 1));
        assert forall|i: int| 0 <= i < k1 + 1 implies is_multispace(#[trigger] s[i]) by {
            if i > 0 {
                assert(s[i] == s.drop_first()[i - 1]);
            }
        }
        if k1 + 1 < s.len() {
            assert(s[k1 + 1] == s.drop_first()[k1]);
        }
    } else {
        assert(s.skip(0) =~= s);
    }
}

/// `alnum_len` is the length of the leading run of ASCII letters and digits.
pub proof fn law_alnum_len_is_leading_run(s: Seq<char>)
    ensures
        alnum_len(s) <= s.len(),
        forall|i: int| 0 <= i < alnum_len(s) ==> is_ascii_alphanumeric(#[trigger] s[i]),
        alnum_len(s) < s.len() ==> !is_ascii_alphanumeric(s[alnum_len(s) as int]),
    decreases s.len(),
{
    if s.len() > 0 && is_ascii_alphanumeric(s[0]) {
        law_alnum_len_is_leading_run(s.drop_first());
        assert forall|i: int| 0 <= i < alnum_len(s) implies is_ascii_alphanumeric(#[trigger] s[i]) by {
            if i > 0 {
                assert(s[i] == s.drop_first()[i - 1]);
            }
        }
        if alnum_len(s) < s.len() {
            assert(s[alnum_len(s) as int] == s.drop_first()[alnum_len(s.drop_first()) as int]);
        }
    }
}

/// Trimming after skipping command whitespace is trimming: command whitespace
/// is Unicode whitespace.
pub proof fn lemma_trim_skip_multispace(s: Seq<char>)
    ensures
        trim(skip_multispace(s)) == trim(s),
    decreases s.len(),
{
    if s.len() > 0 && is_multispace(s[0]) {
        lemma_trim_skip_multispace(s.drop_first());
        assert(trim_start(s) == trim_start(s.drop_first()));
    }
}

/// `parts` separated by `sep`, as `[&str]::join` gives it.
pub open spec fn join(parts: Seq<Seq<char>>, sep: Seq<char>) -> Seq<char>
    decreases parts.len(),
{
    if parts.len() == 0 {
        Seq::empty()
    } else if parts.len() == 1 {
        parts[0]
    } else {
        join(parts.drop_last(), sep) + sep + parts.last()
    }
}

/// Each line followed by a line feed, as successive `println!` calls print them.
pub open spec fn lines_text(lines: Seq<Seq<char>>) -> Seq<char>
    decreases lines.len(),
{
    if lines.len() == 0 {
        Seq::empty()
    } else {
        lines_text(lines.drop_last()) + lines.last() + seq!['\n']
    }
}

/// `join` writes the parts in order with `sep` between neighbours: the first
/// part, then `sep` and the next part for each further part.
pub proof fn law_join_is_separated_concatenation(parts: Seq<Seq<char>>, sep: Seq<char>)
    ensures
        join(parts, sep) == Seq::new(parts.len(), |i: int| if i == 0 { parts[0] } else { sep + parts[i] }).flatten(),
    decreases parts.len(),
{
    let pieces = Seq::new(parts.len(), |i: int| if i == 0 { parts[0] } else { sep + parts[i] });
    if parts.len() == 0 {
        assert(pieces =~= Seq::<Seq<char>>::empty());
    } else if parts.len() == 1 {
        pieces.lemma_flatten_one_element();
    } else {
        law_join_is_separated_concatenation(parts.drop_last(), sep);
        let prev = Seq::new(
            parts.drop_last().len(),
            |i: int| if i == 0 { parts.drop_last()[0] } else { sep + parts.drop_last()[i] },
        );
        assert(pieces =~= prev.push(sep + parts.last()));
        prev.lemma_flatten_push(sep + parts.last());
        assert(join(parts, sep) =~= pieces.flatten());
    }
}

/// `lines_text` writes each line followed by a line feed, in order.
pub proof fn law_lines_each_end_with_line_feed(lines: Seq<Seq<char>>)
    ensures
        lines_text(lines) == Seq::new(lines.len(), |i: int| lines[i] + seq!['\n']).flatten(),
    decreases lines.len(),
{
    let pieces = Seq::new(lines.len(), |i: int| lines[i] + seq!['\n']);
    if lines.len() == 0 {
        assert(pieces =~= Seq::<Seq<char>>::empty());
    } else {
        law_lines_each_end_with_line_feed(lines.drop_last());
        let prev = Seq::new(lines.drop_last().len(), |i: int| lines.drop_last()[i] + seq!['\n']);
        assert(pieces =~= prev.push(lines.last() + seq!['\n']));
        prev.lemma_flatten_push(lines.last() + seq!['\n']);
        assert(lines_text(lines) =~= pieces.flatten());
    }
}

/// Two characters are equal up to ASCII case exactly when they are the same
/// character or the upper- and lower-case forms of one ASCII letter.
pub proof fn law_fold_ignores_only_ascii_case(c: char, d: char)
    ensures
        ascii_fold(c) == ascii_fold(d) <==> (c == d || ('A' <= c <= 'Z' && d as u32 == c as u32 + 32)
            || ('A' <= d <= 'Z' && c as u32 == d as u32 + 32)),
{
}

/// `parts` separated by `sep`.
pub fn join_strings(parts: &Vec<String>, sep: &str) -> (r: String)
    ensures
        r@ == join(string_views(parts@), sep@),
{
    let ghost views = string_views(parts@);
    let mut r = String::new();
    let mut i: usize = 0;
    assert(views.take(0) =~= Seq::<Seq<char>>::empty());
    while i < parts.len()
        invariant
            i <= parts.len(),
            views == string_views(parts@),
            r@ == join(views.take(i as int), sep@),
        decreases parts.len() - i,
    {
        assert(views.take(i + 1).drop_last() =~= views.take(i as int));
        if i == 0 {
            r.append(parts[i].as_str());
            assert(r@ =~= join(views.take(1), sep@));
        } else {
            r.append(sep);
            r.append(parts[i].as_str());
            assert(r@ =~= join(views.take(i + 1), sep@));
        }
        i = i + 1;
    }
    assert(views.take(parts.len() as int) =~= views);
    r
}

/// Whether `s` contains the character `c`.
pub fn contains_char(s: &str, c: char) -> (r: bool)
    ensures
        r == s@.contains(c),
{
    let v = chars_of(s);
    let mut i: usize = 0;
    while i < v.len()
        invariant
            i <= v.len(),
            v@ == s@,
            forall|j: int| 0 <= j < i ==> v@[j] != c,
        decreases v.len() - i,
    {
        if v[i] == c {
            assert(s@[i as int] == c);
            return true;
        }
        i = i + 1;
    }
    false
}

/// Whether `prefix` is a prefix of `s`.
pub fn has_prefix(s: &str, prefix: &str) -> (r: bool)
    ensures
        r == prefix@.is_prefix_of(s@),
{
    let v = chars_of(s);
    let p = chars_of(prefix);
    if p.len() > v.len() {
        return false;
    }
    let mut i: usize = 0;
    while i < p.len()
        invariant
            i <= p.len() <= v.len(),
            v@ == s@,
            p@ == prefix@,
            forall|j: int| 0 <= j < i ==> v@[j] == p@[j],
        decreases p.len() - i,
    {
        if v[i] != p[i] {
            assert(prefix@[i as int] != s@.subrange(0, p.len() as int)[i as int]);
            return false;
        }
        i = i + 1;
    }
    assert(prefix@ =~= s@.subrange(0, p.len() as int));
    true
}

/// What `str::to_uppercase` gives for `s`: the Unicode upper-case mapping of
/// each character, which may change the length.
pub uninterp spec fn unicode_uppercase(s: Seq<char>) -> Seq<char>;

/// Calls `str::to_uppercase`. Its result is claimed to be `unicode_uppercase`
/// of the argument, a function of the characters of `s` alone; nothing more of
/// the Unicode case mapping is stated.
#[verifier::external_body]
pub(crate) fn to_uppercase(s: &str) -> (r: String)
    ensures
        r@ == unicode_uppercase(s@),
{
    s.to_uppercase()
}

} // verus!
