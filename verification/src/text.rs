//! Text primitives over characters: classes, trimming, splitting, numbers.
use vstd::prelude::*;
use vstd::slice::slice_subrange;

verus! {

/// `String::push` appends one character.
pub assume_specification[ String::push ](s: &mut String, c: char)
    ensures
        final(s)@ == old(s)@.push(c),
;

/// A set of characters that text is trimmed by or split at.
#[derive(Clone, Copy, PartialEq, Eq, Structural)]
pub enum CharClass {
    /// The characters with the Unicode `White_Space` property.
    White,
    /// The characters that separate entries of an extension list.
    ListSeparator,
    /// The characters that separate the components of a path.
    PathSeparator,
    /// One character.
    Only(char),
}

/// Whether a code point has the Unicode `White_Space` property.
pub open spec fn is_white(c: char) -> bool {
    let n = c as u32;
    ||| 0x09 <= n <= 0x0d
    ||| n == 0x20
    ||| n == 0x85
    ||| n == 0xa0
    ||| n == 0x1680
    ||| 0x2000 <= n <= 0x200a
    ||| n == 0x2028
    ||| n == 0x2029
    ||| n == 0x202f
    ||| n == 0x205f
    ||| n == 0x3000
}

/// Whether a code point is a control character.
pub open spec fn is_control(c: char) -> bool {
    let n = c as u32;
    n <= 0x1f || 0x7f <= n <= 0x9f
}

impl CharClass {
    pub open spec fn holds(self, c: char) -> bool {
        match self {
            CharClass::White => is_white(c),
            CharClass::ListSeparator => c == ',' || c == ';' || is_white(c),
            CharClass::PathSeparator => c == '/' || c == '\\',
            CharClass::Only(only) => c == only,
        }
    }

    pub fn test(self, c: char) -> (r: bool)
        ensures
            r == self.holds(c),
    {
        match self {
            CharClass::White => white(c),
            CharClass::ListSeparator => c == ',' || c == ';' || white(c),
            CharClass::PathSeparator => c == '/' || c == '\\',
            CharClass::Only(only) => c == only,
        }
    }
}

pub fn white(c: char) -> (r: bool)
    ensures
        r == is_white(c),
{
    let n: u32 = c as u32;
    (0x09 <= n && n <= 0x0d) || n == 0x20 || n == 0x85 || n == 0xa0 || n == 0x1680 || (0x2000 <= n
        && n <= 0x200a) || n == 0x2028 || n == 0x2029 || n == 0x202f || n == 0x205f || n == 0x3000
}

pub fn control(c: char) -> (r: bool)
    ensures
        r == is_control(c),
{
    let n: u32 = c as u32;
    n <= 0x1f || (0x7f <= n && n <= 0x9f)
}

/// The characters of a string.
pub fn chars_of(s: &str) -> (r: Vec<char>)
    ensures
        r@ == s@,
{
    let mut r: Vec<char> = Vec::new();
    for c in it: s.chars()
        invariant
            it.seq() == s@,
            r@ == s@.take(it.index()),
    {
        r.push(c);
        assert(s@.take(it.index() + 1) =~= s@.take(it.index()).push(c));
    }
    assert(s@.take(s@.len() as int) =~= s@);
    r
}

/// The string of some characters.
pub fn string_of(chars: &[char]) -> (r: String)
    ensures
        r@ == chars@,
{
    let mut r = String::new();
    let mut i: usize = 0;
    while i < chars.len()
        invariant
            i <= chars.len(),
            r@ == chars@.take(i as int),
        decreases chars.len() - i,
    {
        r.push(chars[i]);
        assert(chars@.take(i + 1) =~= chars@.take(i as int).push(chars@[i as int]));
        i += 1;
    }
    assert(chars@.take(chars@.len() as int) =~= chars@);
    r
}

/// Whether two texts hold the same characters.
pub fn same_chars(a: &[char], b: &[char]) -> (r: bool)
    ensures
        r == (a@ == b@),
{
    if a.len() != b.len() {
        return false;
    }
    let mut i: usize = 0;
    while i < a.len()
        invariant
            i <= a.len(),
            a.len() == b.len(),
            forall|j: int| 0 <= j < i ==> a@[j] == b@[j],
        decreases a.len() - i,
    {
        if a[i] != b[i] {
            assert(a@[i as int] != b@[i as int]);
            return false;
        }
        i += 1;
    }
    assert(a@ =~= b@);
    true
}

/// Whether two strings hold the same characters.
pub fn same_text(a: &str, b: &str) -> (r: bool)
    ensures
        r == (a@ == b@),
{
    let a_chars = chars_of(a);
    let b_chars = chars_of(b);
    same_chars(a_chars.as_slice(), b_chars.as_slice())
}

/// The text without the leading characters of a class.
pub open spec fn trim_start(s: Seq<char>, class: CharClass) -> Seq<char>
    decreases s.len(),
{
    if s.len() > 0 && class.holds(s[0]) {
        trim_start(s.drop_first(), class)
    } else {
        s
    }
}

/// The text without the trailing characters of a class.
pub open spec fn trim_end(s: Seq<char>, class: CharClass) -> Seq<char>
    decreases s.len(),
{
    if s.len() > 0 && class.holds(s.last()) {
        trim_end(s.drop_last(), class)
    } else {
        s
    }
}

/// The text without the characters of a class at either end.
pub open spec fn trim_both(s: Seq<char>, class: CharClass) -> Seq<char> {
    trim_end(trim_start(s, class), class)
}

/// The text without white space at either end.
pub open spec fn trimmed(s: Seq<char>) -> Seq<char> {
    trim_both(s, CharClass::White)
}

pub fn trim_chars(s: &[char], class: CharClass) -> (r: &[char])
    ensures
        r@ == trim_both(s@, class),
{
    let mut lo: usize = 0;
    assert(s@.skip(0) =~= s@);
    while lo < s.len() && class.test(s[lo])
        invariant
            lo <= s.len(),
            trim_start(s@.skip(lo as int), class) == trim_start(s@, class),
        decreases s.len() - lo,
    {
        assert(s@.skip(lo as int).drop_first() =~= s@.skip(lo + 1));
        lo += 1;
    }
    let mut hi: usize = s.len();
    assert(s@.subrange(lo as int, hi as int) =~= s@.skip(lo as int));
    let ghost start = trim_start(s@, class);
    while lo < hi && class.test(s[hi - 1])
        invariant
            lo <= hi <= s.len(),
            trim_end(s@.subrange(lo as int, hi as int), class) == trim_end(start, class),
        decreases hi,
    {
        assert(s@.subrange(lo as int, hi as int).drop_last() =~= s@.subrange(
            lo as int,
            hi - 1,
        ));
        hi -= 1;
    }
    slice_subrange(s, lo, hi)
}

/// The string without white space at either end.
pub fn trim_text(s: &str) -> (r: String)
    ensures
        r@ == trimmed(s@),
{
    let chars = chars_of(s);
    string_of(trim_chars(chars.as_slice(), CharClass::White))
}

/// The position of the first character of a class, or the length.
pub open spec fn first_in(s: Seq<char>, class: CharClass) -> int
    decreases s.len(),
{
    if s.len() == 0 || class.holds(s[0]) {
        0
    } else {
        1 + first_in(s.drop_first(), class)
    }
}

pub proof fn lemma_first_in(s: Seq<char>, class: CharClass)
    ensures
        0 <= first_in(s, class) <= s.len(),
        forall|j: int| 0 <= j < first_in(s, class) ==> !class.holds(s[j]),
        first_in(s, class) < s.len() ==> class.holds(s[first_in(s, class)]),
    decreases s.len(),
{
    if s.len() > 0 && !class.holds(s[0]) {
        lemma_first_in(s.drop_first(), class);
        assert forall|j: int| 0 <= j < first_in(s, class) implies !class.holds(s[j]) by {
            if j > 0 {
                assert(s[j] == s.drop_first()[j - 1]);
            }
        }
    }
}

/// A position with no earlier member of the class that holds one, or the end, is the first.
pub proof fn lemma_first_in_is(s: Seq<char>, class: CharClass, k: int)
    requires
        0 <= k <= s.len(),
        forall|j: int| 0 <= j < k ==> !class.holds(s[j]),
        k < s.len() ==> class.holds(s[k]),
    ensures
        first_in(s, class) == k,
{
    lemma_first_in(s, class);
    let f = first_in(s, class);
    if f < k {
        assert(class.holds(s[f]));
    }
}

pub fn find_class(s: &[char], class: CharClass) -> (k: usize)
    ensures
        k == first_in(s@, class),
        k <= s.len(),
{
    let mut i: usize = 0;
    while i < s.len() && !class.test(s[i])
        invariant
            i <= s.len(),
            forall|j: int| 0 <= j < i ==> !class.holds(s@[j]),
        decreases s.len() - i,
    {
        i += 1;
    }
    proof {
        lemma_first_in_is(s@, class, i as int);
    }
    i
}

/// The text before the first character of a class, or all of it.
pub open spec fn before(s: Seq<char>, class: CharClass) -> Seq<char> {
    s.take(first_in(s, class))
}

/// The text after the first character of a class, if there is one.
pub open spec fn after(s: Seq<char>, class: CharClass) -> Option<Seq<char>> {
    if first_in(s, class) < s.len() {
        Some(s.skip(first_in(s, class) + 1))
    } else {
        None
    }
}

/// The pieces between the characters of a class, empty ones included.
pub open spec fn split(s: Seq<char>, class: CharClass) -> Seq<Seq<char>>
    decreases s.len(),
{
    let k = first_in(s, class);
    if 0 <= k < s.len() {
        seq![s.take(k)] + split(s.skip(k + 1), class)
    } else {
        seq![s]
    }
}

/// No piece of a divided text holds a separator.
pub proof fn lemma_pieces_hold_no_separator(s: Seq<char>, class: CharClass, i: int, j: int)
    requires
        0 <= i < split(s, class).len(),
        0 <= j < split(s, class)[i].len(),
    ensures
        !class.holds(split(s, class)[i][j]),
    decreases s.len(),
{
    lemma_first_in(s, class);
    let k = first_in(s, class);
    if k < s.len() {
        let rest = split(s.skip(k + 1), class);
        if i > 0 {
            assert(split(s, class)[i] == rest[i - 1]);
            lemma_pieces_hold_no_separator(s.skip(k + 1), class, i - 1, j);
        } else {
            assert(split(s, class)[0] == s.take(k));
        }
    }
}

/// The views of a list of texts.
pub open spec fn views(v: Seq<Vec<char>>) -> Seq<Seq<char>> {
    v.map_values(|x: Vec<char>| x@)
}

/// The views of a list of strings.
pub open spec fn string_views(v: Seq<String>) -> Seq<Seq<char>> {
    v.map_values(|x: String| x@)
}

pub fn split_chars(s: &[char], class: CharClass) -> (r: Vec<Vec<char>>)
    ensures
        views(r@) == split(s@, class),
{
    let mut r: Vec<Vec<char>> = Vec::new();
    let mut lo: usize = 0;
    assert(s@.skip(0) =~= s@);
    assert(views(r@) + split(s@, class) =~= split(s@, class));
    loop
        invariant_except_break
            lo <= s.len(),
            views(r@) + split(s@.skip(lo as int), class) == split(s@, class),
        ensures
            views(r@) == split(s@, class),
        decreases s.len() - lo,
    {
        let rest = slice_subrange(s, lo, s.len());
        assert(rest@ =~= s@.skip(lo as int));
        let k: usize = find_class(rest, class);
        let piece = slice_to_chars(slice_subrange(rest, 0, k));
        assert(piece@ =~= rest@.take(k as int));
        let ghost pieces = views(r@);
        r.push(piece);
        assert(views(r@) =~= pieces.push(piece@));
        if k == rest.len() {
            assert(rest@.take(k as int) =~= rest@);
            assert(views(r@) =~= pieces + split(s@.skip(lo as int), class));
            break ;
        }
        assert(s@.skip(lo as int).skip(k + 1) =~= s@.skip(lo + k + 1));
        assert(views(r@) + split(s@.skip(lo + k + 1), class) =~= pieces + split(
            s@.skip(lo as int),
            class,
        ));
        lo = lo + k + 1;
    }
    r
}

pub fn slice_to_chars(s: &[char]) -> (r: Vec<char>)
    ensures
        r@ == s@,
{
    let mut r: Vec<char> = Vec::new();
    let mut i: usize = 0;
    while i < s.len()
        invariant
            i <= s.len(),
            r@ == s@.take(i as int),
        decreases s.len() - i,
    {
        r.push(s[i]);
        assert(s@.take(i + 1) =~= s@.take(i as int).push(s@[i as int]));
        i += 1;
    }
    assert(s@.take(s@.len() as int) =~= s@);
    r
}

/// The maximal runs of characters outside white space.
pub open spec fn words(s: Seq<char>) -> Seq<Seq<char>> {
    split(s, CharClass::White).filter(|w: Seq<char>| w.len() > 0)
}

pub fn split_words(s: &[char]) -> (r: Vec<Vec<char>>)
    ensures
        views(r@) == words(s@),
{
    let pieces = split_chars(s, CharClass::White);
    let ghost keep = |w: Seq<char>| w.len() > 0;
    let mut r: Vec<Vec<char>> = Vec::new();
    let mut i: usize = 0;
    assert(views(pieces@).take(0) =~= Seq::<Seq<char>>::empty());
    assert(views(r@) =~= views(pieces@).take(0).filter(keep)) by {
        reveal(Seq::filter);
    }
    while i < pieces.len()
        invariant
            i <= pieces.len(),
            keep == (|w: Seq<char>| w.len() > 0),
            views(r@) == views(pieces@).take(i as int).filter(keep),
        decreases pieces.len() - i,
    {
        let ghost done = views(r@);
        proof {
            let taken = views(pieces@).take(i + 1);
            assert(taken.drop_last() =~= views(pieces@).take(i as int));
            assert(taken.last() == pieces@[i as int]@);
            reveal(Seq::filter);
        }
        if pieces[i].len() > 0 {
            let piece = slice_to_chars(pieces[i].as_slice());
            r.push(piece);
            assert(views(r@) =~= done.push(piece@));
        }
        i += 1;
    }
    assert(views(pieces@).take(pieces@.len() as int) =~= views(pieces@));
    r
}

/// The character of a decimal digit.
pub open spec fn digit_char(d: int) -> char {
    (48 + d) as char
}

/// A number written in decimal, without leading zeros.
pub open spec fn decimal(n: nat) -> Seq<char>
    decreases n,
{
    if n < 10 {
        seq![digit_char(n as int)]
    } else {
        decimal(n / 10).push(digit_char((n % 10) as int))
    }
}

pub fn decimal_string(n: u64) -> (r: String)
    ensures
        r@ == decimal(n as nat),
    decreases n,
{
    let d: u8 = (n % 10) as u8;
    let c = (48 + d) as char;
    let mut r = if n < 10 {
        String::new()
    } else {
        decimal_string(n / 10)
    };
    r.push(c);
    assert(r@ =~= decimal(n as nat));
    r
}

pub open spec fn is_digit(c: char) -> bool {
    48 <= c as u32 <= 57
}

/// The value of decimal digits.
pub open spec fn digits_value(s: Seq<char>) -> int
    decreases s.len(),
{
    if s.len() == 0 {
        0
    } else {
        digits_value(s.drop_last()) * 10 + (s.last() as u32 - 48)
    }
}

pub open spec fn all_digits(s: Seq<char>) -> bool {
    forall|i: int| 0 <= i < s.len() ==> is_digit(#[trigger] s[i])
}

/// The number that a text denotes: decimal digits after an optional plus sign, at most the
/// largest 64-bit value.
pub open spec fn parsed_u64(s: Seq<char>) -> Option<u64> {
    let digits = if s.len() > 0 && s[0] == '+' {
        s.drop_first()
    } else {
        s
    };
    if digits.len() > 0 && all_digits(digits) && digits_value(digits) <= u64::MAX {
        Some(digits_value(digits) as u64)
    } else {
        None
    }
}

proof fn lemma_digits_value_grows(s: Seq<char>, i: int)
    requires
        0 <= i <= s.len(),
        all_digits(s),
    ensures
        0 <= digits_value(s.take(i)) <= digits_value(s),
    decreases s.len(),
{
    if i < s.len() {
        let t = s.drop_last();
        assert forall|j: int| 0 <= j < t.len() implies is_digit(#[trigger] t[j]) by {
            assert(is_digit(s[j]));
        }
        lemma_digits_value_grows(t, i);
        assert(t.take(i) =~= s.take(i));
        assert(is_digit(s[s.len() - 1]));
    } else {
        assert(s.take(i) =~= s);
        if s.len() > 0 {
            let t = s.drop_last();
            assert forall|j: int| 0 <= j < t.len() implies is_digit(#[trigger] t[j]) by {
                assert(is_digit(s[j]));
            }
            lemma_digits_value_grows(t, t.len() as int);
            assert(t.take(t.len() as int) =~= t);
            assert(is_digit(s[s.len() - 1]));
        }
    }
}

pub fn parse_u64(s: &[char]) -> (r: Option<u64>)
    ensures
        r == parsed_u64(s@),
{
    let start: usize = if s.len() > 0 && s[0] == '+' {
        1
    } else {
        0
    };
    let ghost digits = if s@.len() > 0 && s@[0] == '+' {
        s@.drop_first()
    } else {
        s@
    };
    assert(digits =~= s@.skip(start as int));
    if start == s.len() {
        return None;
    }
    let mut i: usize = start;
    let mut value: u64 = 0;
    assert(digits.take(0) =~= Seq::<char>::empty());
    while i < s.len()
        invariant
            start <= i <= s.len(),
            digits == s@.skip(start as int),
            all_digits(digits.take(i - start)),
            value == digits_value(digits.take(i - start)),
            digits.len() > 0,
            parsed_u64(s@) == (if all_digits(digits) && digits_value(digits) <= u64::MAX {
                Some(digits_value(digits) as u64)
            } else {
                None
            }),
        decreases s.len() - i,
    {
        let n: u32 = s[i] as u32;
        assert(digits[i - start] == s@[i as int]);
        if n < 48 || n > 57 {
            assert(!is_digit(digits[i - start]));
            return None;
        }
        let ghost next = digits.take(i - start + 1);
        assert(next.drop_last() =~= digits.take(i - start));
        assert(next.last() == s@[i as int]);
        assert(all_digits(next)) by {
            assert forall|j: int| 0 <= j < next.len() implies is_digit(#[trigger] next[j]) by {
                if j < i - start {
                    assert(is_digit(digits.take(i - start)[j]));
                }
            }
        }
        let d: u64 = (n - 48) as u64;
        if value > (u64::MAX - d) / 10 {
            proof {
                if all_digits(digits) {
                    lemma_digits_value_grows(digits, i - start + 1);
                }
            }
            return None;
        }
        value = value * 10 + d;
        i += 1;
    }
    assert(digits.take(digits.len() as int) =~= digits);
    Some(value)
}

/// The lower case of an ASCII letter; other characters are unchanged.
pub open spec fn lower_char(c: char) -> char {
    if 65 <= c as u32 <= 90 {
        ((c as u32) + 32) as char
    } else {
        c
    }
}

/// The text with its ASCII letters in lower case.
pub open spec fn ascii_lower(s: Seq<char>) -> Seq<char> {
    s.map_values(|c: char| lower_char(c))
}

pub fn to_lower_char(c: char) -> (r: char)
    ensures
        r == lower_char(c),
{
    let n: u32 = c as u32;
    if 65 <= n && n <= 90 {
        (n as u8 + 32) as char
    } else {
        c
    }
}

pub fn to_ascii_lower(s: &[char]) -> (r: Vec<char>)
    ensures
        r@ == ascii_lower(s@),
{
    let mut r: Vec<char> = Vec::new();
    let mut i: usize = 0;
    while i < s.len()
        invariant
            i <= s.len(),
            r@.len() == i,
            forall|j: int| 0 <= j < i ==> r@[j] == lower_char(s@[j]),
        decreases s.len() - i,
    {
        r.push(to_lower_char(s[i]));
        i += 1;
    }
    assert(r@ =~= ascii_lower(s@));
    r
}

/// Whether a text begins with another.
pub open spec fn starts_with(s: Seq<char>, prefix: Seq<char>) -> bool {
    prefix.len() <= s.len() && s.take(prefix.len() as int) == prefix
}

pub fn has_prefix(s: &[char], prefix: &[char]) -> (r: bool)
    ensures
        r == starts_with(s@, prefix@),
{
    if prefix.len() > s.len() {
        return false;
    }
    let head = slice_subrange(s, 0, prefix.len());
    assert(head@ =~= s@.take(prefix@.len() as int));
    same_chars(head, prefix)
}

/// Whether a list of strings holds a text.
pub open spec fn holds_text(list: Seq<String>, text: Seq<char>) -> bool {
    string_views(list).contains(text)
}

pub fn contains_text(list: &Vec<String>, text: &str) -> (r: bool)
    ensures
        r == holds_text(list@, text@),
{
    let mut i: usize = 0;
    while i < list.len()
        invariant
            i <= list.len(),
            forall|j: int| 0 <= j < i ==> list@[j]@ != text@,
        decreases list.len() - i,
    {
        if same_text(list[i].as_str(), text) {
            assert(string_views(list@)[i as int] == text@);
            return true;
        }
        i += 1;
    }
    assert forall|j: int| 0 <= j < list@.len() implies string_views(list@)[j] != text@ by {
        assert(list@[j]@ != text@);
    }
    false
}

/// A list of strings that holds the same texts.
pub fn copy_strings(list: &Vec<String>) -> (r: Vec<String>)
    ensures
        string_views(r@) == string_views(list@),
        r@ == list@,
{
    let mut r: Vec<String> = Vec::new();
    let mut i: usize = 0;
    while i < list.len()
        invariant
            i <= list.len(),
            r@ == list@.take(i as int),
        decreases list.len() - i,
    {
        r.push(list[i].clone());
        assert(list@.take(i + 1) =~= list@.take(i as int).push(list@[i as int]));
        i += 1;
    }
    assert(list@.take(list@.len() as int) =~= list@);
    r
}

/// Whether `needle` occurs in `s` at position `i`.
pub open spec fn occurs_at(s: Seq<char>, needle: Seq<char>, i: int) -> bool {
    0 <= i && i + needle.len() <= s.len() && s.subrange(i, i + needle.len()) == needle
}

/// `i` is where `needle` first occurs in `s`, or -1 where it does not.
pub open spec fn is_first_at(s: Seq<char>, needle: Seq<char>, i: int) -> bool {
    &&& i == -1 || occurs_at(s, needle, i)
    &&& forall|j: int| #[trigger] occurs_at(s, needle, j) ==> 0 <= i <= j
}

/// `i` is where `needle` last occurs in `s`, or -1 where it does not.
pub open spec fn is_last_at(s: Seq<char>, needle: Seq<char>, i: int) -> bool {
    &&& i == -1 || occurs_at(s, needle, i)
    &&& forall|j: int| #[trigger] occurs_at(s, needle, j) ==> j <= i
}

/// Where `needle` first occurs in `s`, or -1.
pub open spec fn first_at(s: Seq<char>, needle: Seq<char>) -> int {
    choose|i: int| is_first_at(s, needle, i)
}

/// Where `needle` last occurs in `s`, or -1.
pub open spec fn last_at(s: Seq<char>, needle: Seq<char>) -> int {
    choose|i: int| is_last_at(s, needle, i)
}

/// The first occurrence is unique.
pub proof fn lemma_first_at(s: Seq<char>, needle: Seq<char>, i: int)
    requires
        is_first_at(s, needle, i),
    ensures
        first_at(s, needle) == i,
{
    let c = first_at(s, needle);
    assert(is_first_at(s, needle, c));
    if i >= 0 {
        assert(occurs_at(s, needle, i));
    }
    if c >= 0 {
        assert(occurs_at(s, needle, c));
    }
}

/// The last occurrence is unique.
pub proof fn lemma_last_at(s: Seq<char>, needle: Seq<char>, i: int)
    requires
        is_last_at(s, needle, i),
    ensures
        last_at(s, needle) == i,
{
    let c = last_at(s, needle);
    assert(is_last_at(s, needle, c));
    if i >= 0 {
        assert(occurs_at(s, needle, i));
    }
    if c >= 0 {
        assert(occurs_at(s, needle, c));
    }
}

pub fn find_text(s: &[char], needle: &[char]) -> (r: Option<usize>)
    ensures
        r is None <==> first_at(s@, needle@) == -1,
        r matches Some(i) ==> i == first_at(s@, needle@) && i + needle@.len() <= s@.len()
            <= usize::MAX,
{
    if needle.len() > s.len() {
        proof {
            lemma_first_at(s@, needle@, -1);
        }
        return None;
    }
    let mut i: usize = 0;
    let last: usize = s.len() - needle.len();
    loop
        invariant
            i <= last,
            last == s@.len() - needle@.len(),
            s@.len() <= usize::MAX,
            forall|j: int| 0 <= j < i ==> !#[trigger] occurs_at(s@, needle@, j),
        decreases last - i,
    {
        let part = slice_subrange(s, i, i + needle.len());
        if same_chars(part, needle) {
            proof {
                assert(occurs_at(s@, needle@, i as int));
                lemma_first_at(s@, needle@, i as int);
            }
            return Some(i);
        }
        assert(!occurs_at(s@, needle@, i as int));
        if i == last {
            proof {
                lemma_first_at(s@, needle@, -1);
            }
            return None;
        }
        i += 1;
    }
}

pub fn rfind_text(s: &[char], needle: &[char]) -> (r: Option<usize>)
    ensures
        r is None <==> last_at(s@, needle@) == -1,
        r matches Some(i) ==> i == last_at(s@, needle@) && i + needle@.len() <= s@.len()
            <= usize::MAX,
{
    if needle.len() > s.len() {
        proof {
            lemma_last_at(s@, needle@, -1);
        }
        return None;
    }
    let mut i: usize = s.len() - needle.len();
    loop
        invariant
            i <= s@.len() - needle@.len(),
            s@.len() <= usize::MAX,
            forall|j: int| i < j ==> !#[trigger] occurs_at(s@, needle@, j),
        decreases i,
    {
        let part = slice_subrange(s, i, i + needle.len());
        if same_chars(part, needle) {
            proof {
                assert(occurs_at(s@, needle@, i as int));
                lemma_last_at(s@, needle@, i as int);
            }
            return Some(i);
        }
        assert(!occurs_at(s@, needle@, i as int));
        if i == 0 {
            proof {
                lemma_last_at(s@, needle@, -1);
            }
            return None;
        }
        i -= 1;
    }
}

/// The upper case of an ASCII letter; other characters are unchanged.
pub open spec fn upper_char(c: char) -> char {
    if 97 <= c as u32 <= 122 {
        ((c as u32) - 32) as char
    } else {
        c
    }
}

/// The text with its ASCII letters in upper case.
pub open spec fn ascii_upper(s: Seq<char>) -> Seq<char> {
    s.map_values(|c: char| upper_char(c))
}

pub fn to_ascii_upper(s: &[char]) -> (r: Vec<char>)
    ensures
        r@ == ascii_upper(s@),
{
    let mut r: Vec<char> = Vec::new();
    let mut i: usize = 0;
    while i < s.len()
        invariant
            i <= s.len(),
            r@.len() == i,
            forall|j: int| 0 <= j < i ==> r@[j] == upper_char(s@[j]),
        decreases s.len() - i,
    {
        let n: u32 = s[i] as u32;
        if 97 <= n && n <= 122 {
            r.push((n as u8 - 32) as char);
        } else {
            r.push(s[i]);
        }
        i += 1;
    }
    assert(r@ =~= ascii_upper(s@));
    r
}

/// The text of an optional string slice.
pub open spec fn str_text(o: Option<&str>) -> Option<Seq<char>> {
    match o {
        Some(s) => Some(s@),
        None => None,
    }
}

/// The text of an optional string.
pub open spec fn string_text(o: Option<String>) -> Option<Seq<char>> {
    match o {
        Some(s) => Some(s@),
        None => None,
    }
}

/// A trimmed text is a contiguous part of the text it came from.
pub proof fn lemma_trim_part(s: Seq<char>, class: CharClass)
    ensures
        exists|lo: int, hi: int|
            0 <= lo <= hi <= s.len() && trim_both(s, class) == #[trigger] s.subrange(lo, hi),
{
    lemma_trim_start_part(s, class);
    let lo = choose|lo: int| 0 <= lo <= s.len() && trim_start(s, class) == #[trigger] s.skip(lo);
    let rest = s.skip(lo);
    lemma_trim_end_part(rest, class);
    let n = choose|n: int| 0 <= n <= rest.len() && trim_end(rest, class) == #[trigger] rest.take(n);
    assert(rest.take(n) =~= s.subrange(lo, lo + n));
}

/// A trimmed text starts and ends with no character of the class.
pub proof fn lemma_trim_ends(s: Seq<char>, class: CharClass)
    ensures
        trim_both(s, class).len() > 0 ==> !class.holds(trim_both(s, class)[0]) && !class.holds(
            trim_both(s, class).last(),
        ),
{
    let start = trim_start(s, class);
    lemma_trim_start_end(s, class);
    lemma_trim_end_end(start, class);
    lemma_trim_end_part(start, class);
}

proof fn lemma_trim_start_end(s: Seq<char>, class: CharClass)
    ensures
        trim_start(s, class).len() > 0 ==> !class.holds(trim_start(s, class)[0]),
    decreases s.len(),
{
    if s.len() > 0 && class.holds(s[0]) {
        lemma_trim_start_end(s.drop_first(), class);
    }
}

proof fn lemma_trim_end_end(s: Seq<char>, class: CharClass)
    ensures
        trim_end(s, class).len() > 0 ==> !class.holds(trim_end(s, class).last()),
    decreases s.len(),
{
    if s.len() > 0 && class.holds(s.last()) {
        lemma_trim_end_end(s.drop_last(), class);
    }
}

proof fn lemma_trim_start_part(s: Seq<char>, class: CharClass)
    ensures
        exists|lo: int| 0 <= lo <= s.len() && trim_start(s, class) == #[trigger] s.skip(lo),
    decreases s.len(),
{
    if s.len() > 0 && class.holds(s[0]) {
        let t = s.drop_first();
        lemma_trim_start_part(t, class);
        let lo = choose|lo: int|
            0 <= lo <= t.len() && trim_start(t, class) == #[trigger] t.skip(lo);
        assert(t.skip(lo) =~= s.skip(lo + 1));
    } else {
        assert(s.skip(0) =~= s);
    }
}

proof fn lemma_trim_end_part(s: Seq<char>, class: CharClass)
    ensures
        exists|n: int| 0 <= n <= s.len() && trim_end(s, class) == #[trigger] s.take(n),
    decreases s.len(),
{
    if s.len() > 0 && class.holds(s.last()) {
        let t = s.drop_last();
        lemma_trim_end_part(t, class);
        let n = choose|n: int| 0 <= n <= t.len() && trim_end(t, class) == #[trigger] t.take(n);
        assert(t.take(n) =~= s.take(n));
    } else {
        assert(s.take(s.len() as int) =~= s);
    }
}

/// Two strings, one after the other.
pub fn join2(a: &str, b: &str) -> (r: String)
    ensures
        r@ == a@ + b@,
{
    let mut r = a.to_owned();
    r.append(b);
    r
}

/// Three strings, one after the other.
pub fn join3(a: &str, b: &str, c: &str) -> (r: String)
    ensures
        r@ == a@ + b@ + c@,
{
    let mut r = a.to_owned();
    r.append(b);
    r.append(c);
    r
}

/// Four strings, one after the other.
pub fn join4(a: &str, b: &str, c: &str, d: &str) -> (r: String)
    ensures
        r@ == a@ + b@ + c@ + d@,
{
    let mut r = a.to_owned();
    r.append(b);
    r.append(c);
    r.append(d);
    r
}

/// A copy of an optional string.
pub fn copy_option(o: &Option<String>) -> (r: Option<String>)
    ensures
        r == *o,
{
    match o {
        Some(s) => Some(s.clone()),
        None => None,
    }
}

/// The slice of an optional string.
pub fn option_str(o: &Option<String>) -> (r: Option<&str>)
    ensures
        str_text(r) == string_text(*o),
{
    match o {
        Some(s) => Some(s.as_str()),
        None => None,
    }
}

/// Whether two optional strings hold the same text.
pub fn same_option(a: &Option<String>, b: &Option<String>) -> (r: bool)
    ensures
        r == (string_text(*a) == string_text(*b)),
{
    match (a, b) {
        (Some(x), Some(y)) => same_text(x.as_str(), y.as_str()),
        (None, None) => true,
        _ => false,
    }
}

/// Whether two lists hold the same texts in the same order.
pub fn same_lists(a: &Vec<Vec<char>>, b: &Vec<Vec<char>>) -> (r: bool)
    ensures
        r == (views(a@) == views(b@)),
{
    assert(views(a@).len() == a@.len() && views(b@).len() == b@.len());
    if a.len() != b.len() {
        return false;
    }
    let mut i: usize = 0;
    while i < a.len()
        invariant
            i <= a.len(),
            a@.len() == b@.len(),
            forall|j: int| 0 <= j < i ==> a@[j]@ == b@[j]@,
        decreases a.len() - i,
    {
        if !same_chars(a[i].as_slice(), b[i].as_slice()) {
            assert(views(a@)[i as int] != views(b@)[i as int]);
            return false;
        }
        i += 1;
    }
    assert(views(a@) =~= views(b@));
    true
}

/// Characters of one text after those of another.
pub fn append_chars(a: &[char], b: &[char]) -> (r: Vec<char>)
    ensures
        r@ == a@ + b@,
{
    let mut r = slice_to_chars(a);
    let mut i: usize = 0;
    assert(b@.take(0) =~= Seq::<char>::empty());
    assert(a@ + Seq::<char>::empty() =~= a@);
    while i < b.len()
        invariant
            i <= b.len(),
            r@ == a@ + b@.take(i as int),
        decreases b.len() - i,
    {
        r.push(b[i]);
        assert(b@.take(i + 1) =~= b@.take(i as int).push(b@[i as int]));
        i += 1;
    }
    assert(b@.take(b@.len() as int) =~= b@);
    r
}

/// Decimal digits denote the number that they were written for.
pub proof fn lemma_decimal_value(n: nat)
    ensures
        digits_value(decimal(n)) == n,
        decimal(n).len() > 0,
        all_digits(decimal(n)),
    decreases n,
{
    let d = decimal(n);
    if n < 10 {
        assert(d.drop_last() =~= Seq::<char>::empty());
        assert(digits_value(d.drop_last()) == 0);
        assert(d.last() as u32 == 48 + n);
    } else {
        lemma_decimal_value(n / 10);
        assert(d.drop_last() =~= decimal(n / 10));
        assert(d.last() as u32 == 48 + n % 10);
        assert forall|i: int| 0 <= i < d.len() implies is_digit(#[trigger] d[i]) by {
            if i < d.len() - 1 {
                assert(is_digit(decimal(n / 10)[i]));
            }
        }
    }
}

/// Law: reading a number back from its decimal digits gives the number.
pub proof fn law_decimal_digits_read_back(n: u64)
    ensures
        parsed_u64(decimal(n as nat)) == Some(n),
{
    lemma_decimal_value(n as nat);
    let d = decimal(n as nat);
    assert(is_digit(d[0]));
}

/// A line without the carriage return at its end.
pub open spec fn without_return(s: Seq<char>) -> Seq<char> {
    if s.len() > 0 && s.last() == '\r' {
        s.drop_last()
    } else {
        s
    }
}

/// The lines of a text: each ends with a line feed, before which a carriage return is dropped;
/// the last line may lack its end.
pub open spec fn lines(s: Seq<char>) -> Seq<Seq<char>>
    decreases s.len(),
{
    let k = first_in(s, CharClass::Only('\n'));
    if s.len() == 0 {
        Seq::empty()
    } else if 0 <= k < s.len() {
        seq![without_return(s.take(k))] + lines(s.skip(k + 1))
    } else {
        seq![s]
    }
}

pub fn split_lines(s: &[char]) -> (r: Vec<Vec<char>>)
    ensures
        views(r@) == lines(s@),
{
    let mut r: Vec<Vec<char>> = Vec::new();
    let mut lo: usize = 0;
    assert(s@.skip(0) =~= s@);
    assert(views(r@) + lines(s@) =~= lines(s@));
    while lo < s.len()
        invariant
            lo <= s.len(),
            views(r@) + lines(s@.skip(lo as int)) == lines(s@),
        decreases s.len() - lo,
    {
        let rest = slice_subrange(s, lo, s.len());
        assert(rest@ =~= s@.skip(lo as int));
        let k: usize = find_class(rest, CharClass::Only('\n'));
        let ghost done = views(r@);
        if k == rest.len() {
            let line = slice_to_chars(rest);
            r.push(line);
            assert(views(r@) =~= done.push(line@));
            assert(views(r@) =~= done + lines(s@.skip(lo as int)));
            assert(s@.skip(s@.len() as int) =~= Seq::<char>::empty());
            assert(views(r@) + lines(s@.skip(s@.len() as int)) =~= views(r@));
            lo = s.len();
        } else {
            let end: usize = if k > 0 && rest[k - 1] == '\r' {
                k - 1
            } else {
                k
            };
            let line = slice_to_chars(slice_subrange(rest, 0, end));
            proof {
                let full = rest@.take(k as int);
                if k > 0 {
                    assert(full.last() == rest@[k - 1]);
                }
                assert(line@ =~= without_return(full));
            }
            r.push(line);
            assert(views(r@) =~= done.push(line@));
            assert(rest@.skip(k + 1) =~= s@.skip(lo + k + 1));
            assert(views(r@) + lines(s@.skip(lo + k + 1)) =~= done + lines(s@.skip(lo as int)));
            lo = lo + k + 1;
        }
    }
    assert(s@.skip(s@.len() as int) =~= Seq::<char>::empty());
    assert(views(r@) + Seq::<Seq<char>>::empty() =~= views(r@));
    r
}

/// A text on one line: no line feed inside, no carriage return at its end.
pub open spec fn is_line(s: Seq<char>) -> bool {
    !s.contains('\n') && !(s.len() > 0 && s.last() == '\r')
}

/// The text of some lines, each ended by a line feed.
pub open spec fn join_lines(list: Seq<Seq<char>>) -> Seq<char>
    decreases list.len(),
{
    if list.len() == 0 {
        Seq::empty()
    } else {
        list[0] + seq!['\n'] + join_lines(list.drop_first())
    }
}

/// Reading the lines of a text that was made of lines gives them back.
pub proof fn lemma_lines_read_back(list: Seq<Seq<char>>)
    requires
        forall|i: int| 0 <= i < list.len() ==> is_line(#[trigger] list[i]),
    ensures
        lines(join_lines(list)) == list,
    decreases list.len(),
{
    if list.len() > 0 {
        let head = list[0];
        let rest = list.drop_first();
        let s = join_lines(list);
        assert forall|i: int| 0 <= i < rest.len() implies is_line(#[trigger] rest[i]) by {
            assert(is_line(list[i + 1]));
        }
        lemma_lines_read_back(rest);
        let class = CharClass::Only('\n');
        assert forall|j: int| 0 <= j < head.len() implies !class.holds(s[j]) by {
            assert(s[j] == head[j]);
            assert(head.contains(head[j]));
        }
        assert(s[head.len() as int] == '\n');
        lemma_first_in_is(s, class, head.len() as int);
        assert(s.take(head.len() as int) =~= head);
        assert(s.skip((head.len() + 1) as int) =~= join_lines(rest));
        assert(without_return(head) == head);
        assert(seq![head] + rest =~= list);
    }
}

/// A text is parted at its first separator.
pub proof fn lemma_parted(head: Seq<char>, separator: char, tail: Seq<char>, class: CharClass)
    requires
        class.holds(separator),
        forall|i: int| 0 <= i < head.len() ==> !class.holds(#[trigger] head[i]),
    ensures
        first_in(head.push(separator) + tail, class) == head.len(),
        before(head.push(separator) + tail, class) == head,
        after(head.push(separator) + tail, class) == Some(tail),
        split(head.push(separator) + tail, class) == seq![head] + split(tail, class),
{
    let s = head.push(separator) + tail;
    let k = head.len() as int;
    assert forall|j: int| 0 <= j < k implies !class.holds(s[j]) by {
        assert(s[j] == head[j]);
    }
    lemma_first_in_is(s, class, k);
    assert(s.take(k) =~= head);
    assert(s.skip(k + 1) =~= tail);
}

/// A text without a separator is one piece.
pub proof fn lemma_unparted(s: Seq<char>, class: CharClass)
    requires
        forall|i: int| 0 <= i < s.len() ==> !class.holds(#[trigger] s[i]),
    ensures
        first_in(s, class) == s.len(),
        before(s, class) == s,
        after(s, class) is None,
        split(s, class) == seq![s],
{
    assert forall|j: int| 0 <= j < s.len() implies !class.holds(s[j]) by {
        assert(s[j] == s[j]);
    }
    lemma_first_in_is(s, class, s.len() as int);
    assert(s.take(s.len() as int) =~= s);
}

/// What follows the last separator is the last piece.
pub proof fn lemma_last_piece(head: Seq<char>, separator: char, tail: Seq<char>, class: CharClass)
    requires
        class.holds(separator),
        forall|i: int| 0 <= i < tail.len() ==> !class.holds(#[trigger] tail[i]),
    ensures
        split(head.push(separator) + tail, class) == split(head, class).push(tail),
    decreases head.len(),
{
    let s = head.push(separator) + tail;
    lemma_first_in(head, class);
    let k = first_in(head, class);
    lemma_unparted(tail, class);
    if k < head.len() {
        let rest = head.skip(k + 1);
        lemma_last_piece(rest, separator, tail, class);
        assert forall|j: int| 0 <= j < k implies !class.holds(s[j]) by {
            assert(s[j] == head[j]);
        }
        assert(s[k] == head[k]);
        lemma_first_in_is(s, class, k);
        assert(s.take(k) =~= head.take(k));
        assert(s.skip(k + 1) =~= rest.push(separator) + tail);
        assert(split(s, class) =~= split(head, class).push(tail));
    } else {
        assert forall|j: int| 0 <= j < head.len() implies !class.holds(#[trigger] head[j]) by {}
        lemma_parted(head, separator, tail, class);
        lemma_unparted(head, class);
        assert(split(s, class) =~= split(head, class).push(tail));
    }
}

/// Two words with a space between them are read as they are.
pub proof fn lemma_two_words(a: Seq<char>, b: Seq<char>)
    requires
        a.len() > 0,
        b.len() > 0,
        forall|i: int| 0 <= i < a.len() ==> !is_white(#[trigger] a[i]),
        forall|i: int| 0 <= i < b.len() ==> !is_white(#[trigger] b[i]),
    ensures
        words(a.push(' ') + b) == seq![a, b],
{
    let class = CharClass::White;
    assert forall|i: int| 0 <= i < a.len() implies !class.holds(#[trigger] a[i]) by {
        assert(!is_white(a[i]));
    }
    assert forall|i: int| 0 <= i < b.len() implies !class.holds(#[trigger] b[i]) by {
        assert(!is_white(b[i]));
    }
    lemma_parted(a, ' ', b, class);
    lemma_unparted(b, class);
    let keep = |w: Seq<char>| w.len() > 0;
    let all = split(a.push(' ') + b, class);
    assert(all =~= seq![a, b]);
    reveal(Seq::filter);
    assert(all.drop_last() =~= seq![a]);
    assert(all.drop_last().drop_last() =~= Seq::<Seq<char>>::empty());
    assert(all.drop_last().drop_last().filter(keep) =~= Seq::<Seq<char>>::empty());
    assert(all.drop_last().filter(keep) =~= seq![a]);
    assert(all.filter(keep) =~= seq![a, b]);
}

/// Where a text occurs at all, its first occurrence is no later.
pub proof fn lemma_found(s: Seq<char>, needle: Seq<char>, i: int)
    requires
        occurs_at(s, needle, i),
    ensures
        0 <= first_at(s, needle) <= i,
        occurs_at(s, needle, first_at(s, needle)),
    decreases i,
{
    if exists|j: int| 0 <= j < i && #[trigger] occurs_at(s, needle, j) {
        let j = choose|j: int| 0 <= j < i && #[trigger] occurs_at(s, needle, j);
        lemma_found(s, needle, j);
    } else {
        assert(is_first_at(s, needle, i));
        lemma_first_at(s, needle, i);
    }
}

/// A text that occurs nowhere is not found.
pub proof fn lemma_not_found(s: Seq<char>, needle: Seq<char>)
    requires
        forall|i: int| !(#[trigger] occurs_at(s, needle, i)),
    ensures
        first_at(s, needle) == -1,
{
    assert(is_first_at(s, needle, -1));
    lemma_first_at(s, needle, -1);
}

} // verus!
