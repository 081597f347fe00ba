//! Characters and texts: classification, trimming, joining and number formatting.

use vstd::prelude::*;

verus! {

/// The characters with the Unicode property `White_Space`.
pub open spec fn white_space(c: char) -> bool {
    let n = c as u32;
    ||| 0x09 <= n <= 0x0d
    ||| n == 0x20
    ||| n == 0x85
    ||| n == 0xa0
    ||| n == 0x1680
    ||| 0x2000 <= n <= 0x200a
    ||| n == 0x2028
    ||| n == 0x2029
    ||| n == 0x202f
    ||| n == 0x205f
    ||| n == 0x3000
}

/// Whether the character is white space.
pub fn is_white_space(c: char) -> (b: bool)
    ensures
        b == white_space(c),
{
    let n: u32 = c as u32;
    (0x09 <= n && n <= 0x0d) || n == 0x20 || n == 0x85 || n == 0xa0 || n == 0x1680 || (0x2000 <= n
        && n <= 0x200a) || n == 0x2028 || n == 0x2029 || n == 0x202f || n == 0x205f || n == 0x3000
}

/// The control characters: the general category `Cc`.
pub open spec fn control(c: char) -> bool {
    let n = c as u32;
    n <= 0x1f || 0x7f <= n <= 0x9f
}

/// Whether the character is a control character.
pub fn is_control(c: char) -> (b: bool)
    ensures
        b == control(c),
{
    let n: u32 = c as u32;
    n <= 0x1f || (0x7f <= n && n <= 0x9f)
}

/// A text without its leading white space.
pub open spec fn trimmed_start(s: Seq<char>) -> Seq<char>
    decreases s.len(),
{
    if s.len() > 0 && white_space(s[0]) {
        trimmed_start(s.drop_first())
    } else {
        s
    }
}

/// A text without its trailing white space.
pub open spec fn trimmed_end(s: Seq<char>) -> Seq<char>
    decreases s.len(),
{
    if s.len() > 0 && white_space(s.last()) {
        trimmed_end(s.drop_last())
    } else {
        s
    }
}

/// A text without white space at either end.
pub open spec fn trimmed(s: Seq<char>) -> Seq<char> {
    trimmed_end(trimmed_start(s))
}

/// The characters of a text.
pub fn to_chars(s: &str) -> (v: Vec<char>)
    ensures
        v@ == s@,
{
    let mut v: Vec<char> = Vec::new();
    for c in iter: s.chars()
        invariant
            v@ == iter.seq().take(iter.index() as int),
            iter.seq() == s@,
    {
        v.push(c);
    }
    v
}

/// The text made of the given characters.
pub fn from_chars(v: &Vec<char>) -> (s: String)
    ensures
        s@ == v@,
{
    let mut s = String::new();
    let mut i: usize = 0;
    while i < v.len()
        invariant
            i <= v.len(),
            s@ == v@.take(i as int),
        decreases v.len() - i,
    {
        s.push(v[i]);
        i += 1;
        assert(v@.take(i as int) == v@.take(i - 1).push(v@[i - 1]));
    }
    assert(v@.take(v@.len() as int) == v@);
    s
}

/// Removes the white space at both ends.
pub fn trim(s: &str) -> (t: String)
    ensures
        t@ == trimmed(s@),
{
    let mut v: Vec<char> = to_chars(s);
    let mut start: usize = 0;
    assert(s@.skip(0) == s@);
    while start < v.len() && is_white_space(v[start])
        invariant
            start <= v.len(),
            v@ == s@,
            trimmed_start(s@) == trimmed_start(s@.skip(start as int)),
        decreases v.len() - start,
    {
        assert(s@.skip(start as int).drop_first() == s@.skip(start + 1));
        start += 1;
    }
    let ghost rest = s@.skip(start as int);
    assert(trimmed_start(s@) == rest);
    let mut end: usize = v.len();
    assert(rest.take(end - start) == rest);
    while end > start && is_white_space(v[end - 1])
        invariant
            start <= end <= v.len(),
            v@ == s@,
            rest == s@.skip(start as int),
            trimmed_end(rest) == trimmed_end(rest.take(end - start)),
        decreases end,
    {
        assert(rest.take(end - start).drop_last() == rest.take(end - start - 1));
        assert(rest.take(end - start).last() == s@[end - 1]);
        end -= 1;
    }
    if end > start {
        assert(rest.take(end - start).last() == s@[end - 1]);
    }
    assert(trimmed(s@) == rest.take(end - start));
    v.truncate(end);
    let tail: Vec<char> = v.split_off(start);
    assert(tail@ == rest.take(end - start));
    from_chars(&tail)
}

/// Removes the white space at the end.
pub fn trim_end(s: &str) -> (t: String)
    ensures
        t@ == trimmed_end(s@),
{
    let mut v: Vec<char> = to_chars(s);
    let mut end: usize = v.len();
    assert(s@.take(end as int) == s@);
    while end > 0 && is_white_space(v[end - 1])
        invariant
            end <= v.len(),
            v@ == s@,
            trimmed_end(s@) == trimmed_end(s@.take(end as int)),
        decreases end,
    {
        assert(s@.take(end as int).drop_last() == s@.take(end - 1));
        assert(s@.take(end as int).last() == s@[end - 1]);
        end -= 1;
    }
    if end > 0 {
        assert(s@.take(end as int).last() == s@[end - 1]);
    }
    v.truncate(end);
    assert(v@ == s@.take(end as int));
    from_chars(&v)
}

/// Trimming leaves nothing to trim, and never a longer text.
pub proof fn law_trimmed_texts_have_no_outer_white_space(s: Seq<char>)
    ensures
        trimmed(s).len() <= s.len(),
        trimmed(s).len() > 0 ==> !white_space(trimmed(s)[0]) && !white_space(trimmed(s).last()),
{
    lemma_trimmed_start(s);
    lemma_trimmed_end(trimmed_start(s));
}

proof fn lemma_trimmed_start(s: Seq<char>)
    ensures
        trimmed_start(s).len() <= s.len(),
        trimmed_start(s).len() > 0 ==> !white_space(trimmed_start(s)[0]),
    decreases s.len(),
{
    if s.len() > 0 && white_space(s[0]) {
        lemma_trimmed_start(s.drop_first());
    }
}

proof fn lemma_trimmed_end(s: Seq<char>)
    ensures
        trimmed_end(s).len() <= s.len(),
        trimmed_end(s).len() > 0 ==> !white_space(trimmed_end(s).last()),
        forall|i: int| 0 <= i < trimmed_end(s).len() ==> #[trigger] trimmed_end(s)[i] == s[i],
    decreases s.len(),
{
    if s.len() > 0 && white_space(s.last()) {
        lemma_trimmed_end(s.drop_last());
    }
}

/// Whether a text stands in another one at a position.
pub open spec fn starts_at(s: Seq<char>, part: Seq<char>, k: int) -> bool {
    &&& 0 <= k
    &&& k + part.len() <= s.len()
    &&& forall|i: int| 0 <= i < part.len() ==> #[trigger] part[i] == s[k + i]
}

proof fn lemma_trimmed_start_is_part(s: Seq<char>) -> (k: int)
    ensures
        starts_at(s, trimmed_start(s), k),
    decreases s.len(),
{
    if s.len() > 0 && white_space(s[0]) {
        let rest = s.drop_first();
        let k = lemma_trimmed_start_is_part(rest);
        assert forall|i: int| 0 <= i < trimmed_start(rest).len() implies #[trigger] trimmed_start(
            rest,
        )[i] == s[k + 1 + i] by {
            assert(rest[k + i] == s[k + 1 + i]);
        }
        k + 1
    } else {
        0
    }
}

/// A trimmed text is a part of the text.
pub proof fn lemma_trimmed_is_part(s: Seq<char>)
    ensures
        exists|k: int| starts_at(s, trimmed(s), k),
{
    let k = lemma_trimmed_start_is_part(s);
    lemma_trimmed_end(trimmed_start(s));
    assert(starts_at(s, trimmed(s), k)) by {
        let t = trimmed_start(s);
        assert forall|i: int| 0 <= i < trimmed(s).len() implies #[trigger] trimmed(s)[i] == s[k + i] by {
            assert(trimmed(s)[i] == t[i]);
        }
    }
}

/// The lower-case form of an ASCII letter; any other character is kept.
pub open spec fn ascii_lower(c: char) -> char {
    if 'A' <= c <= 'Z' {
        (c as u32 + 32) as char
    } else {
        c
    }
}

/// Maps an ASCII letter to lower case.
pub fn ascii_lower_char(c: char) -> (l: char)
    ensures
        l == ascii_lower(c),
{
    if 'A' <= c && c <= 'Z' {
        ((c as u8) + 32) as char
    } else {
        c
    }
}

/// A text with its ASCII letters in lower case.
pub open spec fn ascii_lowered(s: Seq<char>) -> Seq<char> {
    s.map_values(|c: char| ascii_lower(c))
}

/// Maps every ASCII letter of a text to lower case.
pub fn ascii_lowercase(s: &str) -> (t: String)
    ensures
        t@ == ascii_lowered(s@),
{
    let v: Vec<char> = to_chars(s);
    let mut t = String::new();
    let mut i: usize = 0;
    while i < v.len()
        invariant
            i <= v.len(),
            v@ == s@,
            t@ == ascii_lowered(s@.take(i as int)),
        decreases v.len() - i,
    {
        t.push(ascii_lower_char(v[i]));
        i += 1;
        assert(t@ == ascii_lowered(s@.take(i as int)));
    }
    assert(s@.take(s@.len() as int) == s@);
    t
}

/// Whether two texts hold the same characters.
pub fn same_text(a: &str, b: &str) -> (same: bool)
    ensures
        same == (a@ == b@),
{
    let x: Vec<char> = to_chars(a);
    let y: Vec<char> = to_chars(b);
    if x.len() != y.len() {
        return false;
    }
    let mut i: usize = 0;
    while i < x.len()
        invariant
            i <= x.len(),
            x.len() == y.len(),
            x@ == a@,
            y@ == b@,
            forall|k: int| 0 <= k < i ==> x@[k] == y@[k],
        decreases x.len() - i,
    {
        if x[i] != y[i] {
            return false;
        }
        i += 1;
    }
    assert(a@ == b@);
    true
}

/// Whether two texts are equal up to the case of ASCII letters.
pub fn same_ignoring_ascii_case(a: &str, b: &str) -> (same: bool)
    ensures
        same == (ascii_lowered(a@) == ascii_lowered(b@)),
{
    let x = ascii_lowercase(a);
    let y = ascii_lowercase(b);
    same_text(&x, &y)
}

/// Whether one text precedes another in the order of their code points.
pub open spec fn precedes(a: Seq<char>, b: Seq<char>) -> bool
    decreases a.len(),
{
    if b.len() == 0 {
        false
    } else if a.len() == 0 {
        true
    } else if a[0] != b[0] {
        a[0] < b[0]
    } else {
        precedes(a.drop_first(), b.drop_first())
    }
}

/// Compares two texts by their code points.
pub fn text_precedes(a: &str, b: &str) -> (r: bool)
    ensures
        r == precedes(a@, b@),
{
    let x: Vec<char> = to_chars(a);
    let y: Vec<char> = to_chars(b);
    let mut i: usize = 0;
    assert(a@.skip(0) == a@);
    assert(b@.skip(0) == b@);
    while i < x.len() && i < y.len() && x[i] == y[i]
        invariant
            i <= x.len(),
            i <= y.len(),
            x@ == a@,
            y@ == b@,
            precedes(a@, b@) == precedes(a@.skip(i as int), b@.skip(i as int)),
        decreases x.len() - i,
    {
        assert(a@.skip(i as int).drop_first() == a@.skip(i + 1));
        assert(b@.skip(i as int).drop_first() == b@.skip(i + 1));
        i += 1;
    }
    if i >= y.len() {
        false
    } else if i >= x.len() {
        true
    } else {
        x[i] < y[i]
    }
}

/// The order of texts is irreflexive, and of two different texts exactly one
/// precedes the other.
pub proof fn law_text_order_is_total(a: Seq<char>, b: Seq<char>)
    ensures
        !precedes(a, a),
        a != b ==> (precedes(a, b) <==> !precedes(b, a)),
    decreases a.len(),
{
    if a.len() > 0 {
        law_text_order_is_total(a.drop_first(), a.drop_first());
        if b.len() > 0 {
            law_text_order_is_total(a.drop_first(), b.drop_first());
            if a != b && a[0] == b[0] {
                if a.drop_first() == b.drop_first() {
                    assert(a == seq![a[0]] + a.drop_first());
                    assert(b == seq![b[0]] + b.drop_first());
                }
            }
        }
    } else if b.len() == 0 {
        assert(a == b);
    }
}

/// The order of texts is transitive.
pub proof fn law_text_order_is_transitive(a: Seq<char>, b: Seq<char>, c: Seq<char>)
    requires
        precedes(a, b),
        precedes(b, c),
    ensures
        precedes(a, c),
    decreases a.len(),
{
    if a.len() > 0 && a[0] == b[0] && b[0] == c[0] {
        law_text_order_is_transitive(a.drop_first(), b.drop_first(), c.drop_first());
    }
}

/// One hexadecimal digit in lower case.
pub open spec fn hex_digit(d: int) -> char {
    if d == 0 { '0' } else if d == 1 { '1' } else if d == 2 { '2' } else if d == 3 { '3' }
    else if d == 4 { '4' } else if d == 5 { '5' } else if d == 6 { '6' } else if d == 7 { '7' }
    else if d == 8 { '8' } else if d == 9 { '9' } else if d == 10 { 'a' } else if d == 11 { 'b' }
    else if d == 12 { 'c' } else if d == 13 { 'd' } else if d == 14 { 'e' } else { 'f' }
}

/// The digit for a number below sixteen.
pub fn digit_char(d: u64) -> (c: char)
    requires
        d < 16,
    ensures
        c == hex_digit(d as int),
{
    match d {
        0 => '0',
        1 => '1',
        2 => '2',
        3 => '3',
        4 => '4',
        5 => '5',
        6 => '6',
        7 => '7',
        8 => '8',
        9 => '9',
        10 => 'a',
        11 => 'b',
        12 => 'c',
        13 => 'd',
        14 => 'e',
        _ => 'f',
    }
}

/// A number in decimal notation.
pub open spec fn decimal(n: nat) -> Seq<char>
    decreases n,
{
    if n < 10 {
        seq![hex_digit(n as int)]
    } else {
        decimal(n / 10).push(hex_digit((n % 10) as int))
    }
}

/// Writes a number in decimal notation.
pub fn decimal_text(n: u64) -> (s: String)
    ensures
        s@ == decimal(n as nat),
    decreases n,
{
    if n < 10 {
        let mut s = String::new();
        s.push(digit_char(n));
        assert(s@ == decimal(n as nat));
        s
    } else {
        let mut s = decimal_text(n / 10);
        s.push(digit_char(n % 10));
        s
    }
}

/// A signed number in decimal notation.
pub open spec fn signed_decimal(n: int) -> Seq<char> {
    if n < 0 {
        seq!['-'] + decimal((-n) as nat)
    } else {
        decimal(n as nat)
    }
}

/// Writes a signed number in decimal notation.
pub fn signed_decimal_text(n: i32) -> (s: String)
    ensures
        s@ == signed_decimal(n as int),
{
    if n < 0 {
        let mut s = String::new();
        s.push('-');
        let digits = decimal_text((-(n as i64)) as u64);
        append(&mut s, &digits);
        assert(s@ == signed_decimal(n as int));
        s
    } else {
        decimal_text(n as u64)
    }
}

/// A number with exactly `width` hexadecimal digits.
pub open spec fn hex_padded(n: int, width: nat) -> Seq<char>
    decreases width,
{
    if width == 0 {
        Seq::empty()
    } else {
        hex_padded(n / 16, (width - 1) as nat).push(hex_digit(n % 16))
    }
}

/// Writes a number with exactly `width` hexadecimal digits, dropping higher ones.
pub fn hex_text(n: u64, width: usize) -> (s: String)
    ensures
        s@ == hex_padded(n as int, width as nat),
    decreases width,
{
    if width == 0 {
        let s = String::new();
        assert(s@ == Seq::<char>::empty());
        s
    } else {
        let mut s = hex_text(n / 16, width - 1);
        s.push(digit_char(n % 16));
        s
    }
}

/// The hyphenated lower-case form of a 128-bit identifier: groups of eight,
/// four, four, four and twelve digits.
pub open spec fn hyphenated(id: u128) -> Seq<char> {
    let d = hex_padded(id as int, 32);
    d.subrange(0, 8) + seq!['-'] + d.subrange(8, 12) + seq!['-'] + d.subrange(12, 16) + seq!['-']
        + d.subrange(16, 20) + seq!['-'] + d.subrange(20, 32)
}

/// Appends a text to another.
pub fn append(s: &mut String, t: &str)
    ensures
        final(s)@ == old(s)@ + t@,
{
    s.append(t);
}

/// The concatenation of two texts.
pub fn concat(a: &str, b: &str) -> (s: String)
    ensures
        s@ == a@ + b@,
{
    let mut s = a.to_owned();
    append(&mut s, b);
    s
}

/// The texts of a list with a separator between each two.
pub open spec fn joined(parts: Seq<Seq<char>>, separator: Seq<char>) -> Seq<char>
    decreases parts.len(),
{
    if parts.len() == 0 {
        Seq::empty()
    } else if parts.len() == 1 {
        parts[0]
    } else {
        joined(parts.drop_last(), separator) + separator + parts.last()
    }
}

/// The characters of each text of a list.
pub open spec fn texts(parts: Seq<String>) -> Seq<Seq<char>> {
    parts.map_values(|s: String| s@)
}

/// Joins the texts of a list.
pub fn join(parts: &Vec<String>, separator: &str) -> (s: String)
    ensures
        s@ == joined(texts(parts@), separator@),
{
    let mut s = String::new();
    let mut i: usize = 0;
    assert(s@ == joined(texts(parts@.take(0)), separator@));
    while i < parts.len()
        invariant
            i <= parts.len(),
            s@ == joined(texts(parts@.take(i as int)), separator@),
        decreases parts.len() - i,
    {
        if i > 0 {
            append(&mut s, separator);
        }
        append(&mut s, &parts[i]);
        i += 1;
        proof {
            let now = texts(parts@.take(i as int));
            assert(now.drop_last() == texts(parts@.take(i - 1)));
            assert(now.last() == parts@[i - 1]@);
            if i == 1 {
                assert(s@ == now[0]);
            }
        }
    }
    assert(parts@.take(parts@.len() as int) == parts@);
    s
}

/// The wording of a truth value.
pub open spec fn bool_wording(b: bool) -> Seq<char> {
    if b {
        "true"@
    } else {
        "false"@
    }
}

/// The wording of a truth value.
pub fn bool_text(b: bool) -> (t: &'static str)
    ensures
        t@ == bool_wording(b),
{
    if b {
        "true"
    } else {
        "false"
    }
}

/// A text with a space in place of each control character, cut after
/// `max_chars` characters.
pub open spec fn plain_prefix(s: Seq<char>, max_chars: int) -> Seq<char> {
    s.take(if max_chars <= s.len() { max_chars } else { s.len() as int }).map_values(
        |c: char| if control(c) { ' ' } else { c },
    )
}

/// Cuts a text and replaces its control characters by spaces.
pub fn plain_prefix_text(s: &str, max_chars: usize) -> (t: String)
    ensures
        t@ == plain_prefix(s@, max_chars as int),
{
    let v: Vec<char> = to_chars(s);
    let count: usize = if max_chars <= v.len() {
        max_chars
    } else {
        v.len()
    };
    let mut t = String::new();
    let mut i: usize = 0;
    assert(t@ =~= plain_prefix(s@, 0));
    while i < count
        invariant
            i <= count <= v.len(),
            v@ == s@,
            t@ == plain_prefix(s@, i as int),
        decreases count - i,
    {
        t.push(if is_control(v[i]) { ' ' } else { v[i] });
        i += 1;
        assert(t@ =~= plain_prefix(s@, i as int));
    }
    assert(plain_prefix(s@, count as int) =~= plain_prefix(s@, max_chars as int));
    t
}

/// A plain prefix, with an ellipsis where something was cut off.
pub open spec fn plain_excerpt(s: Seq<char>, max_chars: int) -> Seq<char> {
    if s.len() > max_chars {
        plain_prefix(s, max_chars).push('\u{2026}')
    } else {
        plain_prefix(s, max_chars)
    }
}

/// Cuts a text to a plain prefix and marks the cut.
pub fn plain_excerpt_text(s: &str, max_chars: usize) -> (t: String)
    ensures
        t@ == plain_excerpt(s@, max_chars as int),
{
    let mut t = plain_prefix_text(s, max_chars);
    if to_chars(s).len() > max_chars {
        t.push('\u{2026}');
    }
    t
}

/// An excerpt is bounded and free of control characters.
pub proof fn law_excerpts_are_bounded_and_printable(s: Seq<char>, max_chars: nat, i: int)
    requires
        0 <= i < plain_excerpt(s, max_chars as int).len(),
    ensures
        plain_excerpt(s, max_chars as int).len() <= max_chars + 1,
        !control(plain_excerpt(s, max_chars as int)[i]),
{
}

/// Whether a list of texts holds the given one.
pub open spec fn lists(parts: Seq<String>, t: Seq<char>) -> bool {
    exists|i: int| 0 <= i < parts.len() && #[trigger] parts[i]@ == t
}

/// Whether a list of texts holds the given one.
pub fn contains_text(parts: &Vec<String>, t: &String) -> (found: bool)
    ensures
        found == lists(parts@, t@),
{
    let mut i: usize = 0;
    while i < parts.len()
        invariant
            i <= parts.len(),
            forall|k: int| 0 <= k < i ==> #[trigger] parts@[k]@ != t@,
        decreases parts.len() - i,
    {
        if parts[i] == *t {
            return true;
        }
        i += 1;
    }
    false
}

/// Which characters count as white space, one by one.
pub proof fn law_white_space_is_what_unicode_lists(c: char)
    ensures
        white_space(c) <==> set![
            0x09int,
            0x0a,
            0x0b,
            0x0c,
            0x0d,
            0x20,
            0x85,
            0xa0,
            0x1680,
            0x2000,
            0x2001,
            0x2002,
            0x2003,
            0x2004,
            0x2005,
            0x2006,
            0x2007,
            0x2008,
            0x2009,
            0x200a,
            0x2028,
            0x2029,
            0x202f,
            0x205f,
            0x3000,
        ].contains(c as int),
        control(c) <==> c as int <= 0x1f || 0x7f <= c as int <= 0x9f,
{
}

/// Trimming cuts off white space at the two ends and nothing else.
pub proof fn law_trimming_cuts_only_outer_white_space(s: Seq<char>)
    ensures
        exists|from: int, to: int|
            #![trigger s.subrange(from, to)]
            0 <= from <= to <= s.len() && trimmed(s) == s.subrange(from, to) && (forall|i: int|
                0 <= i < from || to <= i < s.len() ==> white_space(#[trigger] s[i])),
{
    let from = lemma_start_cut(s);
    let rest = s.skip(from);
    let to = lemma_end_cut(rest);
    assert(rest.take(to) =~= s.subrange(from, from + to));
    assert forall|i: int| 0 <= i < from || from + to <= i < s.len() implies white_space(
        #[trigger] s[i],
    ) by {
        if i >= from {
            assert(rest[i - from] == s[i]);
        }
    }
}

proof fn lemma_start_cut(s: Seq<char>) -> (from: int)
    ensures
        0 <= from <= s.len(),
        trimmed_start(s) == s.skip(from),
        forall|i: int| 0 <= i < from ==> white_space(#[trigger] s[i]),
    decreases s.len(),
{
    if s.len() > 0 && white_space(s[0]) {
        let rest = s.drop_first();
        let k = lemma_start_cut(rest);
        assert(rest.skip(k) =~= s.skip(k + 1));
        assert forall|i: int| 0 <= i < k + 1 implies white_space(#[trigger] s[i]) by {
            if i > 0 {
                assert(rest[i - 1] == s[i]);
            }
        }
        k + 1
    } else {
        assert(s.skip(0) =~= s);
        0
    }
}

proof fn lemma_end_cut(s: Seq<char>) -> (to: int)
    ensures
        0 <= to <= s.len(),
        trimmed_end(s) == s.take(to),
        forall|i: int| to <= i < s.len() ==> white_space(#[trigger] s[i]),
    decreases s.len(),
{
    if s.len() > 0 && white_space(s.last()) {
        let rest = s.drop_last();
        let k = lemma_end_cut(rest);
        assert(rest.take(k) =~= s.take(k));
        assert forall|i: int| k <= i < s.len() implies white_space(#[trigger] s[i]) by {
            if i < rest.len() {
                assert(rest[i] == s[i]);
            }
        }
        k
    } else {
        assert(s.take(s.len() as int) =~= s);
        s.len() as int
    }
}

/// Whether two texts have the same characters, where an ASCII letter may stand in
/// either case.
pub open spec fn equal_up_to_ascii_case(a: Seq<char>, b: Seq<char>) -> bool {
    &&& a.len() == b.len()
    &&& forall|i: int|
        0 <= i < a.len() ==> {
            ||| #[trigger] a[i] == b[i]
            ||| 'A' <= a[i] <= 'Z' && b[i] as int == a[i] as int + 32
            ||| 'A' <= b[i] <= 'Z' && a[i] as int == b[i] as int + 32
        }
}

/// Lowering the ASCII letters makes two texts equal exactly where they differ in
/// nothing but the case of such letters.
pub proof fn law_lowered_texts_agree_up_to_case(a: Seq<char>, b: Seq<char>)
    ensures
        ascii_lowered(a) == ascii_lowered(b) <==> equal_up_to_ascii_case(a, b),
{
    if ascii_lowered(a) == ascii_lowered(b) {
        assert(a.len() == ascii_lowered(a).len() && b.len() == ascii_lowered(b).len());
        assert forall|i: int| 0 <= i < a.len() implies {
            ||| #[trigger] a[i] == b[i]
            ||| 'A' <= a[i] <= 'Z' && b[i] as int == a[i] as int + 32
            ||| 'A' <= b[i] <= 'Z' && a[i] as int == b[i] as int + 32
        } by {
            assert(ascii_lowered(a)[i] == ascii_lower(a[i]));
            assert(ascii_lowered(b)[i] == ascii_lower(b[i]));
        }
    }
    if equal_up_to_ascii_case(a, b) {
        assert forall|i: int| 0 <= i < a.len() implies ascii_lower(#[trigger] a[i]) == ascii_lower(b[i]) by {}
        assert(ascii_lowered(a) =~= ascii_lowered(b));
    }
}

/// One text precedes another exactly where, behind what both begin with, it ends and
/// the other goes on or its next character is the lower one.
pub proof fn law_texts_are_ordered_at_their_first_difference(a: Seq<char>, b: Seq<char>, k: int)
    requires
        0 <= k <= a.len(),
        k <= b.len(),
        forall|i: int| 0 <= i < k ==> a[i] == b[i],
        k < a.len() && k < b.len() ==> a[k] != b[k],
    ensures
        precedes(a, b) <==> k < b.len() && (k == a.len() || a[k] < b[k]),
    decreases k,
{
    if k > 0 {
        law_texts_are_ordered_at_their_first_difference(a.drop_first(), b.drop_first(), k - 1);
    }
}

/// The number that decimal digits write.
pub open spec fn decimal_value(s: Seq<char>) -> int
    decreases s.len(),
{
    if s.len() == 0 {
        0
    } else {
        decimal_value(s.drop_last()) * 10 + (s.last() as int - '0' as int)
    }
}

/// A number in decimal notation has digits only, no needless nought before them, and
/// is the number that they write.
pub proof fn law_decimals_write_their_number(n: nat)
    ensures
        decimal_value(decimal(n)) == n,
        decimal(n).len() >= 1,
        decimal(n).len() > 1 ==> decimal(n)[0] != '0',
        forall|i: int| 0 <= i < decimal(n).len() ==> '0' <= #[trigger] decimal(n)[i] <= '9',
    decreases n,
{
    let d = decimal(n);
    if n < 10 {
        assert(d.drop_last() =~= Seq::empty());
        assert(decimal_value(Seq::<char>::empty()) == 0);
    } else {
        law_decimals_write_their_number(n / 10);
        assert(d.drop_last() =~= decimal(n / 10));
        if decimal(n / 10).len() == 1 {
            assert(decimal(n / 10)[0] != '0') by {
                let f = decimal(n / 10);
                assert(f.drop_last() =~= Seq::empty());
                assert(decimal_value(Seq::<char>::empty()) == 0);
                assert(decimal_value(f) == f.last() as int - '0' as int);
                assert(f.last() == f[0]);
            }
        }
        assert forall|i: int| 0 <= i < d.len() implies '0' <= #[trigger] d[i] <= '9' by {
            if i < d.len() - 1 {
                assert(d[i] == decimal(n / 10)[i]);
            }
        }
    }
}

/// A signed number is its size, behind a minus sign where it is negative.
pub proof fn law_signed_decimals_show_their_sign(n: nat)
    ensures
        signed_decimal(n as int) == decimal(n),
        n > 0 ==> signed_decimal(-(n as int)) == seq!['-'] + decimal(n),
{
}

/// A list is joined with the separator between each two texts, and nothing before
/// the first or behind the last.
pub proof fn law_joined_texts_are_separated(
    parts: Seq<Seq<char>>,
    more: Seq<Seq<char>>,
    separator: Seq<char>,
)
    requires
        parts.len() > 0,
    ensures
        parts.len() == 1 ==> joined(parts, separator) == parts[0],
        more.len() > 0 ==> joined(parts + more, separator) == joined(parts, separator) + separator
            + joined(more, separator),
    decreases more.len(),
{
    if more.len() == 1 {
        assert((parts + more).drop_last() =~= parts);
        assert((parts + more).last() == more[0]);
    } else if more.len() > 1 {
        law_joined_texts_are_separated(parts, more.drop_last(), separator);
        assert((parts + more).drop_last() =~= parts + more.drop_last());
        assert((parts + more).last() == more.last());
        assert(joined(parts, separator) + separator + joined(more, separator) =~= joined(
            parts,
            separator,
        ) + separator + joined(more.drop_last(), separator) + separator + more.last());
    }
}

/// An excerpt shows the beginning of the text as it is but for control characters,
/// all of it where it fits, and ends in an ellipsis exactly where it does not.
pub proof fn law_excerpts_show_the_beginning(s: Seq<char>, max_chars: nat)
    ensures
        forall|i: int|
            0 <= i < s.len() && i < max_chars ==> #[trigger] plain_excerpt(s, max_chars as int)[i]
                == (if s[i] as int <= 0x1f || 0x7f <= s[i] as int <= 0x9f {
                ' '
            } else {
                s[i]
            }),
        s.len() <= max_chars ==> plain_excerpt(s, max_chars as int).len() == s.len(),
        s.len() > max_chars ==> {
            &&& plain_excerpt(s, max_chars as int).len() == max_chars + 1
            &&& plain_excerpt(s, max_chars as int)[max_chars as int] as int == 0x2026
        },
{
    let shown = plain_excerpt(s, max_chars as int);
    let kept = if max_chars <= s.len() { max_chars as int } else { s.len() as int };
    assert forall|i: int| 0 <= i < s.len() && i < max_chars implies #[trigger] shown[i] == (if s[i] as int
        <= 0x1f || 0x7f <= s[i] as int <= 0x9f {
        ' '
    } else {
        s[i]
    }) by {
        law_white_space_is_what_unicode_lists(s[i]);
        assert(s.take(kept)[i] == s[i]);
        assert(plain_prefix(s, max_chars as int)[i] == (if control(s[i]) { ' ' } else { s[i] }));
        assert(shown[i] == plain_prefix(s, max_chars as int)[i]);
    }
}

/// A number in hexadecimal notation has as many digits as asked, and each of them is
/// the remainder of what stands before it.
pub proof fn law_hexadecimals_write_their_number(n: nat, width: nat)
    ensures
        hex_padded(n as int, width).len() == width,
        width > 0 ==> hex_padded(n as int, width).drop_last() == hex_padded(
            n as int / 16,
            (width - 1) as nat,
        ),
        width > 0 && n % 16 < 10 ==> hex_padded(n as int, width).last() as int == '0' as int + n
            % 16,
        width > 0 && n % 16 >= 10 ==> hex_padded(n as int, width).last() as int == 'a' as int + n
            % 16 - 10,
    decreases width,
{
    if width > 0 {
        law_hexadecimals_write_their_number(n / 16, (width - 1) as nat);
        assert(hex_padded(n as int, width).drop_last() =~= hex_padded(
            n as int / 16,
            (width - 1) as nat,
        ));
    }
}

/// An identifier is written with all its digits, and with a hyphen behind the eighth,
/// the twelfth, the sixteenth and the twentieth of them.
pub proof fn law_identifiers_are_written_in_groups(id: u128)
    ensures
        ({
            let digits = hex_padded(id as int, 32);
            let t = hyphenated(id);
            &&& t.len() == 36
            &&& t[8] == '-' && t[13] == '-' && t[18] == '-' && t[23] == '-'
            &&& forall|i: int| 0 <= i < 8 ==> #[trigger] t[i] == digits[i]
            &&& forall|i: int| 9 <= i < 13 ==> #[trigger] t[i] == digits[i - 1]
            &&& forall|i: int| 14 <= i < 18 ==> #[trigger] t[i] == digits[i - 2]
            &&& forall|i: int| 19 <= i < 23 ==> #[trigger] t[i] == digits[i - 3]
            &&& forall|i: int| 24 <= i < 36 ==> #[trigger] t[i] == digits[i - 4]
        }),
{
    law_hexadecimals_write_their_number(id as nat, 32);
}

/// Truth values are written as two different words.
pub proof fn law_truth_values_are_told_apart()
    ensures
        bool_wording(true) == "true"@,
        bool_wording(false) == "false"@,
{
}

} // verus!
