//! File paths in the Windows notation: both slashes separate, drives, shares, devices and literal
//! paths have their prefixes.
use crate::text;
use crate::text::CharClass;
use vstd::prelude::*;
use vstd::slice::slice_subrange;

verus! {

/// A file path, kept as it was written.
#[derive(Debug, Clone)]
pub struct FilePath {
    pub text: String,
}

impl View for FilePath {
    type V = Seq<char>;

    open spec fn view(&self) -> Seq<char> {
        self.text@
    }
}

pub open spec fn is_separator(c: char) -> bool {
    CharClass::PathSeparator.holds(c)
}

pub open spec fn is_letter(c: char) -> bool {
    65 <= c as u32 <= 90 || 97 <= c as u32 <= 122
}

/// A path that begins with a drive letter and a colon.
pub open spec fn has_drive(s: Seq<char>) -> bool {
    s.len() >= 2 && is_letter(s[0]) && s[1] == ':'
}

/// What a path begins with, before its root.
#[derive(Debug, Clone, Copy, PartialEq, Eq, Structural)]
pub enum PrefixKind {
    Absent,
    /// `C:`
    Drive,
    /// `\\server\share`
    Share,
    /// `\\.\device`
    Device,
    /// `\\?\name`, taken literally.
    Verbatim,
    /// `\\?\UNC\server\share`, taken literally.
    VerbatimShare,
    /// `\\?\C:`, taken literally.
    VerbatimDrive,
}

/// The first two pieces of a text: a server and a share.
pub open spec fn two_names(s: Seq<char>, class: CharClass) -> (Seq<char>, Seq<char>) {
    let share = match text::after(s, class) {
        Some(rest) => text::before(rest, class),
        None => Seq::empty(),
    };
    (text::before(s, class), share)
}

/// A path that begins with two separators.
pub open spec fn is_network(s: Seq<char>) -> bool {
    s.len() >= 2 && is_separator(s[0]) && is_separator(s[1])
}

/// A path that is taken literally. Only backslashes introduce one.
pub open spec fn is_verbatim(s: Seq<char>) -> bool {
    s.len() >= 4 && s[0] == '\\' && s[1] == '\\' && s[2] == '?' && s[3] == '\\'
}

/// What a path begins with.
pub open spec fn prefix_kind(s: Seq<char>) -> PrefixKind {
    if is_verbatim(s) {
        if s.len() >= 8 && s[4] == 'U' && s[5] == 'N' && s[6] == 'C' && is_separator(s[7]) {
            PrefixKind::VerbatimShare
        } else if has_drive(s.skip(4)) && (s.len() == 6 || is_separator(s[6])) {
            PrefixKind::VerbatimDrive
        } else {
            PrefixKind::Verbatim
        }
    } else if is_network(s) {
        let (server, share) = two_names(s.skip(2), CharClass::PathSeparator);
        if s.len() >= 4 && s[2] == '.' && is_separator(s[3]) {
            PrefixKind::Device
        } else if server.len() > 0 && share.len() > 0 {
            PrefixKind::Share
        } else {
            PrefixKind::Absent
        }
    } else if has_drive(s) {
        PrefixKind::Drive
    } else {
        PrefixKind::Absent
    }
}

/// What separates the components of a path: only backslashes where it is taken literally.
pub open spec fn separators(s: Seq<char>) -> CharClass {
    if is_verbatim(s) {
        CharClass::Only('\\')
    } else {
        CharClass::PathSeparator
    }
}

/// What a prefix names, and is compared by: drive letters in any case, other names exactly.
pub open spec fn prefix_key(s: Seq<char>) -> Seq<Seq<char>> {
    let class = separators(s);
    match prefix_kind(s) {
        PrefixKind::Absent => Seq::empty(),
        PrefixKind::Drive => seq![text::ascii_upper(s.take(2))],
        PrefixKind::Share => seq![two_names(s.skip(2), class).0, two_names(s.skip(2), class).1],
        PrefixKind::Device => seq![text::before(s.skip(4), class)],
        PrefixKind::Verbatim => seq![text::before(s.skip(4), class)],
        PrefixKind::VerbatimShare => seq![
            two_names(s.skip(8), class).0,
            two_names(s.skip(8), class).1,
        ],
        PrefixKind::VerbatimDrive => seq![text::ascii_upper(s.subrange(4, 6))],
    }
}

/// How many characters the prefix takes.
pub open spec fn prefix_len(s: Seq<char>) -> int {
    let key = prefix_key(s);
    match prefix_kind(s) {
        PrefixKind::Absent => 0,
        PrefixKind::Drive => 2,
        PrefixKind::Share => 3int + key[0].len() + key[1].len(),
        PrefixKind::Device => 4int + key[0].len(),
        PrefixKind::Verbatim => 4int + key[0].len(),
        PrefixKind::VerbatimShare => if key[1].len() > 0 {
            9int + key[0].len() + key[1].len()
        } else {
            8int + key[0].len()
        },
        PrefixKind::VerbatimDrive => 6,
    }
}

/// Whether a separator follows the prefix.
pub open spec fn has_root_mark(s: Seq<char>) -> bool {
    prefix_len(s) < s.len() && is_separator(s[prefix_len(s)])
}

/// Whether the path starts at a root. A share or a device is one by itself.
pub open spec fn is_rooted(s: Seq<char>) -> bool {
    prefix_kind(s) == PrefixKind::Share || prefix_kind(s) == PrefixKind::Device || has_root_mark(s)
}

/// A piece between separators that names something: neither empty nor, unless it is taken
/// literally, the current directory.
pub open spec fn is_name(piece: Seq<char>, literal: bool) -> bool {
    piece.len() > 0 && (literal || piece != "."@)
}

/// The pieces of a path after its prefix and root.
pub open spec fn pieces(s: Seq<char>) -> Seq<Seq<char>> {
    text::split(
        s.skip(
            prefix_len(s) + if has_root_mark(s) {
                1int
            } else {
                0int
            },
        ),
        separators(s),
    )
}

/// A path relative to a current directory, which it says with a leading dot.
pub open spec fn starts_with_dot(s: Seq<char>) -> bool {
    (prefix_kind(s) == PrefixKind::Absent || prefix_kind(s) == PrefixKind::Drive)
        && !has_root_mark(s) && pieces(s)[0] == "."@
}

/// A leading dot that is a component: one behind a drive is not.
pub open spec fn leads_with_dot(s: Seq<char>) -> bool {
    prefix_kind(s) == PrefixKind::Absent && starts_with_dot(s)
}

/// The components of a path below its root.
pub open spec fn names(s: Seq<char>) -> Seq<Seq<char>> {
    (if leads_with_dot(s) {
        seq!["."@]
    } else {
        Seq::empty()
    }) + pieces(s).filter(|piece: Seq<char>| is_name(piece, is_verbatim(s)))
}

/// Whether two texts write the same path.
pub open spec fn same_path(a: Seq<char>, b: Seq<char>) -> bool {
    prefix_kind(a) == prefix_kind(b) && prefix_key(a) == prefix_key(b) && is_rooted(a)
        == is_rooted(b) && names(a) == names(b)
}

/// Components with some more: dots add nothing, and two dots take a name back.
pub open spec fn walked(list: Seq<Seq<char>>, more: Seq<Seq<char>>) -> Seq<Seq<char>>
    decreases more.len(),
{
    if more.len() == 0 {
        list
    } else {
        let done = walked(list, more.drop_last());
        let name = more.last();
        if name == "."@ {
            done
        } else if name == ".."@ {
            if done.len() > 0 && done.last() != "."@ && done.last() != ".."@ {
                done.drop_last()
            } else {
                done
            }
        } else {
            done.push(name)
        }
    }
}

/// A text with components appended, each behind a backslash.
pub open spec fn backslashed(head: Seq<char>, list: Seq<Seq<char>>) -> Seq<char>
    decreases list.len(),
{
    if list.len() == 0 {
        head
    } else {
        backslashed(head, list.drop_last()).push('\\') + list.last()
    }
}

/// A path that is taken literally with another one appended: dots are resolved, since they would
/// be names there.
pub open spec fn joined_verbatim(base: Seq<char>, name: Seq<char>) -> Seq<char> {
    let head = base.take(prefix_len(base));
    let list = walked(
        if is_rooted(name) {
            Seq::empty()
        } else {
            names(base)
        },
        names(name),
    );
    if list.len() == 0 && (is_rooted(name) || has_root_mark(base)) {
        head.push('\\')
    } else {
        backslashed(head, list)
    }
}

/// A path with another one appended: one with a prefix replaces the path, one with only a root
/// keeps the prefix, and a relative one follows a separator.
pub open spec fn joined(base: Seq<char>, name: Seq<char>) -> Seq<char> {
    if prefix_len(name) > 0 {
        name
    } else if is_verbatim(base) && name.len() > 0 {
        joined_verbatim(base, name)
    } else if is_rooted(name) {
        base.take(prefix_len(base)) + name
    } else if base.len() == 0 || is_separator(base.last()) || (has_drive(base) && base.len()
        == 2) {
        base + name
    } else {
        base.push('\\') + name
    }
}

/// The last component, where it names a file or directory.
pub open spec fn file_name_of(s: Seq<char>) -> Option<Seq<char>> {
    let all = names(s);
    if all.len() > 0 && all.last() != ".."@ && all.last() != "."@ {
        Some(all.last())
    } else {
        None
    }
}

/// Where the last dot of a file name parts its stem from its extension, or 0.
pub open spec fn dot_at(name: Seq<char>) -> int {
    let at = text::last_at(name, "."@);
    if at > 0 {
        at
    } else {
        0
    }
}

/// The part of a file name before its extension.
pub open spec fn stem_of(name: Seq<char>) -> Seq<char> {
    if dot_at(name) > 0 {
        name.take(dot_at(name))
    } else {
        name
    }
}

/// The part of a file name after its last dot, unless that dot leads it.
pub open spec fn extension_in(name: Seq<char>) -> Option<Seq<char>> {
    if dot_at(name) > 0 {
        Some(name.skip(dot_at(name) + 1))
    } else {
        None
    }
}

/// The extension of a path's file name.
pub open spec fn extension_of(s: Seq<char>) -> Option<Seq<char>> {
    match file_name_of(s) {
        Some(name) => extension_in(name),
        None => None,
    }
}

/// The first part of a path that always stays: its prefix, its root, its leading dot.
pub open spec fn body_start(s: Seq<char>) -> int {
    if has_root_mark(s) || starts_with_dot(s) {
        prefix_len(s) + 1
    } else {
        prefix_len(s)
    }
}

/// The path without separators at its end, nor dots that name nothing.
pub open spec fn trim_path(s: Seq<char>, body: int, class: CharClass) -> Seq<char>
    decreases s.len(),
{
    if s.len() <= body || s.len() == 0 {
        s
    } else if class.holds(s.last()) {
        trim_path(s.drop_last(), body, class)
    } else if class == CharClass::PathSeparator && s.last() == '.' && (s.len() == body + 1
        || is_separator(s[s.len() - 2])) {
        trim_path(s.drop_last(), body, class)
    } else {
        s
    }
}

/// The path without the characters of its last component.
pub open spec fn drop_name(s: Seq<char>, body: int, class: CharClass) -> Seq<char>
    decreases s.len(),
{
    if s.len() <= body || s.len() == 0 || class.holds(s.last()) {
        s
    } else {
        drop_name(s.drop_last(), body, class)
    }
}

/// The path without its last component, if it has one.
pub open spec fn parent_of(s: Seq<char>) -> Option<Seq<char>> {
    let body = body_start(s);
    let class = separators(s);
    let whole = trim_path(s, body, class);
    if names(s).len() == 0 {
        None
    } else if whole.len() <= body {
        Some(s.take(prefix_len(s)))
    } else {
        Some(trim_path(drop_name(whole, body, class), body, class))
    }
}

fn separator(c: char) -> (r: bool)
    ensures
        r == is_separator(c),
{
    CharClass::PathSeparator.test(c)
}

fn letter(c: char) -> (r: bool)
    ensures
        r == is_letter(c),
{
    let n: u32 = c as u32;
    (65 <= n && n <= 90) || (97 <= n && n <= 122)
}

fn drive(s: &[char]) -> (r: bool)
    ensures
        r == has_drive(s@),
{
    s.len() >= 2 && letter(s[0]) && s[1] == ':'
}

fn pair(s: &[char], class: CharClass) -> (r: (Vec<char>, Vec<char>))
    ensures
        two_names(s@, class) == (r.0@, r.1@),
        r.0@.len() + r.1@.len() <= s@.len(),
        r.1@.len() > 0 ==> 1 + r.0@.len() + r.1@.len() <= s@.len(),
{
    let k: usize = text::find_class(s, class);
    let server = slice_subrange(s, 0, k);
    assert(server@ =~= text::before(s@, class));
    let first = text::slice_to_chars(server);
    if k == s.len() {
        let none: Vec<char> = Vec::new();
        assert(none@ =~= Seq::<char>::empty());
        return (first, none);
    }
    let tail = slice_subrange(s, k + 1, s.len());
    assert(tail@ =~= s@.skip(k + 1));
    let m: usize = text::find_class(tail, class);
    let name = slice_subrange(tail, 0, m);
    assert(name@ =~= text::before(tail@, class));
    (first, text::slice_to_chars(name))
}

fn lead(s: &[char], class: CharClass) -> (r: Vec<char>)
    ensures
        r@ == text::before(s@, class),
        r@.len() <= s@.len(),
{
    let k: usize = text::find_class(s, class);
    let head = slice_subrange(s, 0, k);
    assert(head@ =~= text::before(s@, class));
    text::slice_to_chars(head)
}

fn verbatim(s: &[char]) -> (r: bool)
    ensures
        r == is_verbatim(s@),
{
    s.len() >= 4 && s[0] == '\\' && s[1] == '\\' && s[2] == '?' && s[3] == '\\'
}

fn class_of(s: &[char]) -> (r: CharClass)
    ensures
        r == separators(s@),
{
    if verbatim(s) {
        CharClass::Only('\\')
    } else {
        CharClass::PathSeparator
    }
}

/// What a path begins with: its kind, what it names, and how long it is.
struct Prefix {
    kind: PrefixKind,
    words: Vec<Vec<char>>,
    length: usize,
}

impl Prefix {
    spec fn is_of(self, s: Seq<char>) -> bool {
        &&& self.kind == prefix_kind(s)
        &&& text::views(self.words@) == prefix_key(s)
        &&& self.length == prefix_len(s)
        &&& self.length <= s.len()
    }
}

fn one_word(word: Vec<char>) -> (r: Vec<Vec<char>>)
    ensures
        text::views(r@) == seq![word@],
{
    let mut r: Vec<Vec<char>> = Vec::new();
    r.push(word);
    assert(text::views(r@) =~= seq![word@]);
    r
}

fn two_words(first: Vec<char>, second: Vec<char>) -> (r: Vec<Vec<char>>)
    ensures
        text::views(r@) == seq![first@, second@],
{
    let mut r: Vec<Vec<char>> = Vec::new();
    r.push(first);
    r.push(second);
    assert(text::views(r@) =~= seq![first@, second@]);
    r
}

fn verbatim_prefix(s: &[char]) -> (r: Prefix)
    requires
        is_verbatim(s@),
    ensures
        r.is_of(s@),
{
    let class = CharClass::Only('\\');
    if s.len() >= 8 && s[4] == 'U' && s[5] == 'N' && s[6] == 'C' && separator(s[7]) {
        let rest = slice_subrange(s, 8, s.len());
        assert(rest@ =~= s@.skip(8));
        let (server, share) = pair(rest, class);
        let length: usize = if share.len() > 0 {
            9 + server.len() + share.len()
        } else {
            8 + server.len()
        };
        return Prefix { kind: PrefixKind::VerbatimShare, words: two_words(server, share), length };
    }
    let rest = slice_subrange(s, 4, s.len());
    assert(rest@ =~= s@.skip(4));
    if drive(rest) && (s.len() == 6 || separator(s[6])) {
        let letter = slice_subrange(s, 4, 6);
        assert(letter@ =~= s@.subrange(4, 6));
        return Prefix {
            kind: PrefixKind::VerbatimDrive,
            words: one_word(text::to_ascii_upper(letter)),
            length: 6,
        };
    }
    let name = lead(rest, class);
    let length: usize = 4 + name.len();
    Prefix { kind: PrefixKind::Verbatim, words: one_word(name), length }
}

fn parse_prefix(s: &[char]) -> (r: Prefix)
    ensures
        r.is_of(s@),
{
    if verbatim(s) {
        return verbatim_prefix(s);
    }
    let class = CharClass::PathSeparator;
    if s.len() >= 2 && separator(s[0]) && separator(s[1]) {
        if s.len() >= 4 && s[2] == '.' && separator(s[3]) {
            let rest = slice_subrange(s, 4, s.len());
            assert(rest@ =~= s@.skip(4));
            let name = lead(rest, class);
            let length: usize = 4 + name.len();
            return Prefix { kind: PrefixKind::Device, words: one_word(name), length };
        }
        let rest = slice_subrange(s, 2, s.len());
        assert(rest@ =~= s@.skip(2));
        let (server, share) = pair(rest, class);
        if server.len() > 0 && share.len() > 0 {
            let length: usize = 3 + server.len() + share.len();
            return Prefix { kind: PrefixKind::Share, words: two_words(server, share), length };
        }
    } else if drive(s) {
        let head = slice_subrange(s, 0, 2);
        assert(head@ =~= s@.take(2));
        return Prefix {
            kind: PrefixKind::Drive,
            words: one_word(text::to_ascii_upper(head)),
            length: 2,
        };
    }
    let words: Vec<Vec<char>> = Vec::new();
    assert(text::views(words@) =~= Seq::<Seq<char>>::empty());
    Prefix { kind: PrefixKind::Absent, words, length: 0 }
}

fn prefix_length(s: &[char]) -> (r: usize)
    ensures
        r == prefix_len(s@),
        r <= s@.len(),
{
    parse_prefix(s).length
}

fn root_marked(s: &[char]) -> (r: bool)
    ensures
        r == has_root_mark(s@),
        r ==> prefix_len(s@) < usize::MAX,
{
    let prefix: usize = prefix_length(s);
    prefix < s.len() && separator(s[prefix])
}

fn rooted(s: &[char]) -> (r: bool)
    ensures
        r == is_rooted(s@),
{
    match parse_prefix(s).kind {
        PrefixKind::Share => true,
        PrefixKind::Device => true,
        _ => root_marked(s),
    }
}

fn is_dot(piece: &[char]) -> (r: bool)
    ensures
        r == (piece@ == "."@),
{
    let dot = text::chars_of(".");
    text::same_chars(piece, dot.as_slice())
}

fn piece_list(s: &[char]) -> (r: Vec<Vec<char>>)
    ensures
        text::views(r@) == pieces(s@),
        r@.len() > 0,
{
    let prefix: usize = prefix_length(s);
    let start: usize = if root_marked(s) {
        prefix + 1
    } else {
        prefix
    };
    let rest = slice_subrange(s, start, s.len());
    assert(rest@ =~= s@.skip(start as int));
    let class = class_of(s);
    let r = text::split_chars(rest, class);
    assert(text::split(rest@, class).len() > 0);
    assert(text::views(r@).len() == r@.len());
    r
}

fn dot_starts(s: &[char]) -> (r: bool)
    ensures
        r == starts_with_dot(s@),
{
    match parse_prefix(s).kind {
        PrefixKind::Absent => {},
        PrefixKind::Drive => {},
        _ => {
            return false;
        },
    }
    if root_marked(s) {
        return false;
    }
    let list = piece_list(s);
    assert(text::views(list@)[0] == list@[0]@);
    is_dot(list[0].as_slice())
}

fn name_list(s: &[char]) -> (r: Vec<Vec<char>>)
    ensures
        text::views(r@) == names(s@),
{
    let list = piece_list(s);
    let literal = verbatim(s);
    let ghost keep = |piece: Seq<char>| is_name(piece, literal);
    let mut r: Vec<Vec<char>> = Vec::new();
    if parse_prefix(s).kind == PrefixKind::Absent && dot_starts(s) {
        r.push(text::chars_of("."));
    }
    let ghost lead = text::views(r@);
    assert(lead =~= (if leads_with_dot(s@) {
        seq!["."@]
    } else {
        Seq::empty()
    }));
    let mut i: usize = 0;
    assert(text::views(list@).take(0) =~= Seq::<Seq<char>>::empty());
    assert(text::views(r@) =~= lead + text::views(list@).take(0).filter(keep)) by {
        reveal(Seq::filter);
    }
    while i < list.len()
        invariant
            i <= list.len(),
            keep == (|piece: Seq<char>| is_name(piece, literal)),
            text::views(r@) == lead + text::views(list@).take(i as int).filter(keep),
        decreases list.len() - i,
    {
        let ghost done = text::views(r@);
        proof {
            let taken = text::views(list@).take(i + 1);
            assert(taken.drop_last() =~= text::views(list@).take(i as int));
            assert(taken.last() == list@[i as int]@);
            reveal(Seq::filter);
        }
        if list[i].len() > 0 && (literal || !is_dot(list[i].as_slice())) {
            let piece = text::slice_to_chars(list[i].as_slice());
            r.push(piece);
            assert(text::views(r@) =~= done.push(piece@));
            assert(done.push(piece@) =~= lead + text::views(list@).take(i as int).filter(
                keep,
            ).push(piece@));
        }
        i += 1;
    }
    assert(text::views(list@).take(list@.len() as int) =~= text::views(list@));
    r
}

/// The position of the last dot that starts an extension, or 0.
fn extension_dot(name: &[char]) -> (r: usize)
    ensures
        r == dot_at(name@),
        r == 0 || r < name@.len() <= usize::MAX,
{
    proof {
        reveal_strlit(".");
    }
    let dot = text::chars_of(".");
    match text::rfind_text(name, dot.as_slice()) {
        Some(at) => at,
        None => 0,
    }
}

/// The stem and the extension of a file name.
pub fn split_extension(name: &str) -> (r: (String, Option<String>))
    ensures
        r.0@ == stem_of(name@),
        text::string_text(r.1) == extension_in(name@),
{
    let chars = text::chars_of(name);
    let at: usize = extension_dot(chars.as_slice());
    if at == 0 {
        return (text::string_of(chars.as_slice()), None);
    }
    let stem = slice_subrange(chars.as_slice(), 0, at);
    assert(stem@ =~= name@.take(at as int));
    let extension = slice_subrange(chars.as_slice(), at + 1, chars.len());
    assert(extension@ =~= name@.skip(at + 1));
    (text::string_of(stem), Some(text::string_of(extension)))
}

fn body_offset(s: &[char]) -> (r: usize)
    ensures
        r == body_start(s@),
        r <= s@.len(),
{
    let prefix: usize = prefix_length(s);
    if root_marked(s) {
        return prefix + 1;
    }
    if dot_starts(s) {
        assert(s@.len() > prefix) by {
            reveal_strlit(".");
            let rest = s@.skip(prefix as int);
            text::lemma_first_in(rest, separators(s@));
            assert(pieces(s@)[0] == text::before(rest, separators(s@)) || pieces(s@)[0] == rest);
        }
        prefix + 1
    } else {
        prefix
    }
}

fn trim_end_at(s: &[char], end: usize, body: usize, class: CharClass) -> (r: usize)
    requires
        end <= s@.len(),
        class == CharClass::PathSeparator || class == CharClass::Only('\\'),
    ensures
        r <= end,
        s@.take(r as int) == trim_path(s@.take(end as int), body as int, class),
{
    let dots = match class {
        CharClass::PathSeparator => true,
        _ => false,
    };
    let mut n: usize = end;
    while n > body && (class.test(s[n - 1]) || (dots && s[n - 1] == '.' && (n - 1 == body
        || separator(s[n - 2]))))
        invariant
            n <= end <= s@.len(),
            dots == (class == CharClass::PathSeparator),
            trim_path(s@.take(n as int), body as int, class) == trim_path(
                s@.take(end as int),
                body as int,
                class,
            ),
        decreases n,
    {
        assert(s@.take(n as int).drop_last() =~= s@.take(n - 1));
        assert(s@.take(n as int).last() == s@[n - 1]);
        if n >= 2 {
            assert(s@.take(n as int)[n - 2] == s@[n - 2]);
        }
        n -= 1;
    }
    proof {
        let left = s@.take(n as int);
        if n > body {
            assert(left.last() == s@[n - 1]);
            if n >= 2 {
                assert(left[n - 2] == s@[n - 2]);
            }
        }
    }
    n
}

fn is_dots(piece: &[char]) -> (r: bool)
    ensures
        r == (piece@ == ".."@),
{
    let dots = text::chars_of("..");
    text::same_chars(piece, dots.as_slice())
}

fn walk(list: Vec<Vec<char>>, more: &Vec<Vec<char>>) -> (r: Vec<Vec<char>>)
    ensures
        text::views(r@) == walked(text::views(list@), text::views(more@)),
{
    let ghost start = text::views(list@);
    let ghost steps = text::views(more@);
    let mut r = list;
    let mut i: usize = 0;
    assert(steps.take(0) =~= Seq::<Seq<char>>::empty());
    while i < more.len()
        invariant
            i <= more@.len(),
            steps == text::views(more@),
            text::views(r@) == walked(start, steps.take(i as int)),
        decreases more@.len() - i,
    {
        let ghost done = text::views(r@);
        proof {
            let taken = steps.take(i + 1);
            assert(taken.drop_last() =~= steps.take(i as int));
            assert(taken.last() == more@[i as int]@);
            assert(done.len() == r@.len());
            assert(r@.len() > 0 ==> done.last() == r@[r@.len() - 1]@);
        }
        if is_dots(more[i].as_slice()) {
            proof {
                reveal_strlit(".");
                reveal_strlit("..");
                assert(".."@.len() != "."@.len());
            }
            if r.len() > 0 && !is_dot(r[r.len() - 1].as_slice()) && !is_dots(
                r[r.len() - 1].as_slice(),
            ) {
                let _ = r.pop();
                assert(text::views(r@) =~= done.drop_last());
            }
        } else if !is_dot(more[i].as_slice()) {
            r.push(text::slice_to_chars(more[i].as_slice()));
            assert(text::views(r@) =~= done.push(more@[i as int]@));
        }
        i += 1;
    }
    assert(steps.take(steps.len() as int) =~= steps);
    r
}

fn append_names(head: Vec<char>, list: &Vec<Vec<char>>) -> (r: Vec<char>)
    ensures
        r@ == backslashed(head@, text::views(list@)),
{
    let ghost start = head@;
    let ghost all = text::views(list@);
    let mut r = head;
    let mut i: usize = 0;
    assert(all.take(0) =~= Seq::<Seq<char>>::empty());
    while i < list.len()
        invariant
            i <= list@.len(),
            all == text::views(list@),
            r@ == backslashed(start, all.take(i as int)),
        decreases list@.len() - i,
    {
        proof {
            let taken = all.take(i + 1);
            assert(taken.drop_last() =~= all.take(i as int));
            assert(taken.last() == list@[i as int]@);
        }
        r.push('\\');
        r = text::append_chars(r.as_slice(), list[i].as_slice());
        i += 1;
    }
    assert(all.take(all.len() as int) =~= all);
    r
}

fn join_verbatim(base: &[char], name: &[char]) -> (r: Vec<char>)
    ensures
        r@ == joined_verbatim(base@, name@),
{
    let prefix: usize = prefix_length(base);
    let head = slice_subrange(base, 0, prefix);
    assert(head@ =~= base@.take(prefix as int));
    let anew = rooted(name);
    let start: Vec<Vec<char>> = if anew {
        Vec::new()
    } else {
        name_list(base)
    };
    assert(anew ==> text::views(start@) =~= Seq::<Seq<char>>::empty());
    let list = walk(start, &name_list(name));
    assert(text::views(list@).len() == list@.len());
    let mut out = text::slice_to_chars(head);
    if list.len() == 0 && (anew || root_marked(base)) {
        out.push('\\');
        return out;
    }
    append_names(out, &list)
}

impl FilePath {
    pub fn new(path: &str) -> (r: FilePath)
        ensures
            r@ == path@,
    {
        FilePath { text: path.to_owned() }
    }

    pub fn copy(&self) -> (r: FilePath)
        ensures
            r == *self,
    {
        FilePath { text: self.text.clone() }
    }

    pub fn as_str(&self) -> (r: &str)
        ensures
            r@ == self@,
    {
        self.text.as_str()
    }

    pub fn is_empty(&self) -> (r: bool)
        ensures
            r == (self@.len() == 0),
    {
        self.text.as_str().is_empty()
    }

    /// Whether both write the same path.
    pub fn same(&self, other: &FilePath) -> (r: bool)
        ensures
            r == same_path(self@, other@),
    {
        let a = text::chars_of(self.text.as_str());
        let b = text::chars_of(other.text.as_str());
        let a_prefix = parse_prefix(a.as_slice());
        let b_prefix = parse_prefix(b.as_slice());
        let a_names = name_list(a.as_slice());
        let b_names = name_list(b.as_slice());
        a_prefix.kind == b_prefix.kind && text::same_lists(&a_prefix.words, &b_prefix.words) && rooted(a.as_slice()) == rooted(b.as_slice())
            && text::same_lists(&a_names, &b_names)
    }

    /// This path with another one appended.
    pub fn join(&self, name: &str) -> (r: FilePath)
        ensures
            r@ == joined(self@, name@),
    {
        let base = text::chars_of(self.text.as_str());
        let tail = text::chars_of(name);
        let out = if prefix_length(tail.as_slice()) > 0 {
            tail
        } else if verbatim(base.as_slice()) && tail.len() > 0 {
            join_verbatim(base.as_slice(), tail.as_slice())
        } else if rooted(tail.as_slice()) {
            let prefix: usize = prefix_length(base.as_slice());
            let head = slice_subrange(base.as_slice(), 0, prefix);
            assert(head@ =~= base@.take(prefix as int));
            text::append_chars(head, tail.as_slice())
        } else if base.len() == 0 || separator(base[base.len() - 1]) || (base.len() == 2 && drive(
            base.as_slice(),
        )) {
            text::append_chars(base.as_slice(), tail.as_slice())
        } else {
            let mut head = base;
            head.push('\\');
            text::append_chars(head.as_slice(), tail.as_slice())
        };
        FilePath { text: text::string_of(out.as_slice()) }
    }

    /// The last component, where it names a file or directory.
    pub fn file_name(&self) -> (r: Option<String>)
        ensures
            text::string_text(r) == file_name_of(self@),
    {
        let chars = text::chars_of(self.text.as_str());
        let list = name_list(chars.as_slice());
        assert(text::views(list@).len() == list@.len());
        if list.len() == 0 {
            return None;
        }
        assert(text::views(list@).last() == list@[list@.len() - 1]@);
        let last = text::string_of(list[list.len() - 1].as_slice());
        if text::same_text(last.as_str(), "..") || text::same_text(last.as_str(), ".") {
            None
        } else {
            Some(last)
        }
    }

    /// The extension of the file name.
    pub fn extension(&self) -> (r: Option<String>)
        ensures
            text::string_text(r) == extension_of(self@),
    {
        match self.file_name() {
            Some(name) => split_extension(name.as_str()).1,
            None => None,
        }
    }

    /// The path without its last component.
    pub fn parent(&self) -> (r: Option<FilePath>)
        ensures
            (match r {
                Some(path) => Some(path@),
                None => None,
            }) == parent_of(self@),
    {
        let chars = text::chars_of(self.text.as_str());
        let s = chars.as_slice();
        let list = name_list(s);
        assert(text::views(list@).len() == list@.len());
        if list.len() == 0 {
            return None;
        }
        let body: usize = body_offset(s);
        assert(s@.take(s@.len() as int) =~= s@);
        let class = class_of(s);
        let whole: usize = trim_end_at(s, s.len(), body, class);
        if whole <= body {
            let prefix: usize = prefix_length(s);
            let head = slice_subrange(s, 0, prefix);
            assert(head@ =~= s@.take(prefix as int));
            return Some(FilePath { text: text::string_of(head) });
        }
        let mut n: usize = whole;
        while n > body && !class.test(s[n - 1])
            invariant
                n <= whole <= s@.len(),
                drop_name(s@.take(n as int), body as int, class) == drop_name(
                    s@.take(whole as int),
                    body as int,
                    class,
                ),
            decreases n,
        {
            assert(s@.take(n as int).drop_last() =~= s@.take(n - 1));
            assert(s@.take(n as int).last() == s@[n - 1]);
            n -= 1;
        }
        proof {
            if n > body {
                assert(s@.take(n as int).last() == s@[n - 1]);
            }
        }
        let end: usize = trim_end_at(s, n, body, class);
        let head = slice_subrange(s, 0, end);
        assert(head@ =~= s@.take(end as int));
        Some(FilePath { text: text::string_of(head) })
    }

    /// Whether the text ends with a separator.
    pub fn ends_with_separator(&self) -> (r: bool)
        ensures
            r == (self@.len() > 0 && is_separator(self@.last())),
    {
        let chars = text::chars_of(self.text.as_str());
        chars.len() > 0 && separator(chars[chars.len() - 1])
    }
}

/// Paths are equal when they write the same path.
impl PartialEq for FilePath {
    fn eq(&self, other: &FilePath) -> (r: bool) {
        self.same(other)
    }
}

impl vstd::std_specs::cmp::PartialEqSpecImpl for FilePath {
    open spec fn obeys_eq_spec() -> bool {
        true
    }

    open spec fn eq_spec(&self, other: &FilePath) -> bool {
        same_path(self@, other@)
    }
}

impl Eq for FilePath {

}

/// Where the last dot of a file name is: behind it there is none.
pub proof fn lemma_dot_at(name: Seq<char>)
    ensures
        0 <= dot_at(name) < name.len() || dot_at(name) == 0,
        dot_at(name) > 0 ==> name[dot_at(name)] == '.',
        forall|j: int| #[trigger] text::occurs_at(name, "."@, j) ==> j <= dot_at(name),
{
    reveal_strlit(".");
    let at = lemma_last_dot(name, name.len() as int);
    text::lemma_last_at(name, "."@, at);
    if at >= 0 {
        assert(name.subrange(at, at + 1)[0] == '.');
    }
}

proof fn lemma_last_dot(name: Seq<char>, n: int) -> (at: int)
    requires
        0 <= n <= name.len(),
        forall|j: int| #[trigger] text::occurs_at(name, "."@, j) ==> j < n,
    ensures
        text::is_last_at(name, "."@, at),
    decreases n,
{
    reveal_strlit(".");
    if n == 0 {
        assert forall|j: int| #[trigger] text::occurs_at(name, "."@, j) implies j <= -1 by {}
        -1
    } else if name[n - 1] == '.' {
        assert(name.subrange(n - 1, n) =~= "."@);
        assert(text::occurs_at(name, "."@, n - 1));
        n - 1
    } else {
        assert forall|j: int| #[trigger] text::occurs_at(name, "."@, j) implies j < n - 1 by {
            assert(name.subrange(j, j + 1)[0] == '.');
        }
        lemma_last_dot(name, n - 1)
    }
}

/// Law: a file name is its stem, a dot and its extension, which holds no further dot; a name without
/// an extension is all stem.
pub proof fn law_names_are_stem_and_extension(name: Seq<char>)
    ensures
        extension_in(name) matches Some(extension) ==> name == stem_of(name).push('.') + extension
            && stem_of(name).len() > 0 && !extension.contains('.'),
        extension_in(name) is None ==> stem_of(name) == name,
{
    reveal_strlit(".");
    lemma_dot_at(name);
    let at = dot_at(name);
    if at > 0 {
        let extension = name.skip(at + 1);
        assert(name =~= stem_of(name).push('.') + extension);
        if extension.contains('.') {
            let i = choose|i: int| 0 <= i < extension.len() && extension[i] == '.';
            let m = at + 1 + i;
            assert(name[m] == '.');
            assert(name.subrange(m, m + 1) =~= "."@);
            assert(text::occurs_at(name, "."@, m));
        }
    }
}

/// Law: paths are the same under any way of writing: the relation holds of a path and itself, both
/// ways, and carries over.
pub proof fn law_same_paths_are_an_equivalence(a: Seq<char>, b: Seq<char>, c: Seq<char>)
    ensures
        same_path(a, a),
        same_path(a, b) <==> same_path(b, a),
        same_path(a, b) && same_path(b, c) ==> same_path(a, c),
{
}

/// Law: a name joined to a directory on a drive is the file name of the joined path, which still
/// lies on that drive.
pub proof fn law_joined_names_are_found(dir: Seq<char>, name: Seq<char>)
    requires
        has_drive(dir),
        dir.len() > 2 && is_separator(dir[2]),
        name.len() > 0,
        forall|i: int|
            0 <= i < name.len() ==> !is_separator(#[trigger] name[i]) && name[i] != ':',
        name != "."@ && name != ".."@,
    ensures
        file_name_of(joined(dir, name)) == Some(name),
        joined(dir, name).take(2) == dir.take(2),
        text::starts_with(joined(dir, name), dir),
{
    reveal_strlit(".");
    reveal_strlit("..");
    let s = joined(dir, name);
    assert(prefix_kind(name) == PrefixKind::Absent);
    assert(!is_verbatim(dir));
    assert(prefix_len(name) == 0);
    assert(!is_rooted(name));
    let class = CharClass::PathSeparator;
    assert forall|i: int| 0 <= i < name.len() implies !class.holds(#[trigger] name[i]) by {
        assert(!is_separator(name[i]));
    }
    let whole = if is_separator(dir.last()) {
        dir
    } else {
        dir.push('\\')
    };
    assert(s =~= whole + name);
    assert(s[0] == dir[0] && s[1] == dir[1] && s[2] == dir[2]);
    assert(has_drive(s) && !is_verbatim(s) && !is_network(s));
    assert(prefix_kind(s) == PrefixKind::Drive);
    assert(prefix_len(s) == 2);
    assert(has_root_mark(s));
    let rest = s.skip(3);
    let list = pieces(s);
    assert(list == text::split(rest, class));
    if whole.len() == 3 {
        assert(rest =~= name);
        text::lemma_unparted(name, class);
        assert(list.last() == name);
    } else {
        let head = whole.subrange(3, whole.len() - 1);
        assert(rest =~= head.push(whole.last()) + name);
        text::lemma_last_piece(head, whole.last(), name, class);
        assert(list.last() == name);
    }
    let keep = |piece: Seq<char>| is_name(piece, is_verbatim(s));
    lemma_filter_last(list, keep);
    assert(names(s).last() == name);
    assert(s.take(2) =~= dir.take(2));
    assert(s.take(dir.len() as int) =~= dir);
}

proof fn lemma_filter_last(list: Seq<Seq<char>>, keep: spec_fn(Seq<char>) -> bool)
    requires
        list.len() > 0,
        keep(list.last()),
    ensures
        list.filter(keep).len() > 0,
        list.filter(keep).last() == list.last(),
{
    reveal(Seq::filter);
}

} // verus!
