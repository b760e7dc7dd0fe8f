//! Character-level helpers on strings: splitting on a separator and into
//! lines, joining, searching, trimming, comparing, and reading and writing
//! decimal numbers.
//!
//! Every function is specified over `Seq<char>`, the view of `str` and `String`.

use crate::search::{first_match, lemma_first_match, lemma_first_match_unique};
use vstd::prelude::*;
use vstd::std_specs::iter::IteratorSpec;
use vstd::string::StrSliceExecFns;
use vstd::string::StringExecFns;

verus! {

/// The view of a list of strings: the list of their character sequences.
pub open spec fn strings_view(v: Seq<String>) -> Seq<Seq<char>> {
    Seq::new(v.len(), |i: int| v[i]@)
}

/// The view of a string that may be missing.
pub open spec fn option_view(s: Option<&str>) -> Option<Seq<char>> {
    match s {
        Some(s) => Some(s@),
        None => None,
    }
}

/// The condition "is the character `c`".
pub open spec fn is_char(c: char) -> spec_fn(char) -> bool {
    |x: char| x == c
}

/// Index of the first occurrence of `c` in `s`, or `s.len()` where there is none.
pub open spec fn first_index_of(s: Seq<char>, c: char) -> int {
    first_match(s, is_char(c))
}

/// The pieces of `s` between occurrences of `sep`. A string with `n`
/// separators has `n + 1` pieces; the empty string has one empty piece.
pub open spec fn spec_split(s: Seq<char>, sep: char) -> Seq<Seq<char>>
    decreases s.len(),
{
    let i = first_index_of(s, sep);
    if 0 <= i < s.len() {
        seq![s.subrange(0, i)] + spec_split(s.subrange(i + 1, s.len() as int), sep)
    } else {
        seq![s]
    }
}

/// The pieces of `parts`, with `sep` between each two neighbours.
pub open spec fn spec_join(parts: Seq<Seq<char>>, sep: Seq<char>) -> Seq<char>
    decreases parts.len(),
{
    if parts.len() == 0 {
        Seq::empty()
    } else if parts.len() == 1 {
        parts[0]
    } else {
        parts[0] + sep + spec_join(parts.drop_first(), sep)
    }
}

/// `first_index_of` stays within the string, points at `c` when it points
/// inside, and nothing before it is `c`.
pub proof fn lemma_first_index_of(s: Seq<char>, c: char)
    ensures
        0 <= first_index_of(s, c) <= s.len(),
        forall|j: int| 0 <= j < first_index_of(s, c) ==> s[j] != c,
        first_index_of(s, c) < s.len() ==> s[first_index_of(s, c)] == c,
{
    lemma_first_match(s, is_char(c));
    assert forall|j: int| 0 <= j < first_index_of(s, c) implies s[j] != c by {
        assert(!is_char(c)(s[j]));
    }
}

/// An index with `c` at it (or the end of the string) and no `c` before it
/// is the one `first_index_of` gives.
pub proof fn lemma_first_index_unique(s: Seq<char>, c: char, k: int)
    requires
        0 <= k <= s.len(),
        forall|j: int| 0 <= j < k ==> s[j] != c,
        k < s.len() ==> s[k] == c,
    ensures
        first_index_of(s, c) == k,
{
    assert forall|j: int| 0 <= j < k implies !is_char(c)(#[trigger] s[j]) by {}
    lemma_first_match_unique(s, is_char(c), k);
}

/// Joining the pieces of a split with the separator gives the string back.
pub proof fn lemma_join_split(s: Seq<char>, sep: char)
    ensures
        spec_join(spec_split(s, sep), seq![sep]) == s,
        spec_split(s, sep).len() >= 1,
    decreases s.len(),
{
    let i = first_index_of(s, sep);
    lemma_first_index_of(s, sep);
    if 0 <= i < s.len() {
        let head = s.subrange(0, i);
        let rest = s.subrange(i + 1, s.len() as int);
        lemma_join_split(rest, sep);
        let parts = spec_split(s, sep);
        assert(parts.drop_first() =~= spec_split(rest, sep));
        assert(parts[0] == head);
        assert(head + seq![sep] + rest =~= s);
    }
}

/// Splitting a joined list on the separator gives the list back, where the
/// list is not empty and no piece holds the separator.
pub proof fn lemma_split_join(parts: Seq<Seq<char>>, sep: char)
    requires
        parts.len() >= 1,
        forall|i: int| 0 <= i < parts.len() ==> !(#[trigger] parts[i]).contains(sep),
    ensures
        spec_split(spec_join(parts, seq![sep]), sep) == parts,
    decreases parts.len(),
{
    let joined = spec_join(parts, seq![sep]);
    let head = parts[0];
    if parts.len() == 1 {
        assert forall|j: int| 0 <= j < head.len() implies head[j] != sep by {
            assert(head.contains(head[j]));
        }
        lemma_first_index_unique(head, sep, head.len() as int);
        assert(spec_split(head, sep) =~= parts);
    } else {
        let tail = parts.drop_first();
        let rest = spec_join(tail, seq![sep]);
        assert forall|i: int| 0 <= i < tail.len() implies !(#[trigger] tail[i]).contains(sep) by {
            assert(tail[i] == parts[i + 1]);
        }
        lemma_split_join(tail, sep);
        assert(joined == head + seq![sep] + rest);
        assert forall|j: int| 0 <= j < head.len() implies joined[j] != sep by {
            assert(head.contains(head[j]));
        }
        lemma_first_index_unique(joined, sep, head.len() as int);
        assert(joined.subrange(0, head.len() as int) =~= head);
        assert(joined.subrange(head.len() as int + 1, joined.len() as int) =~= rest);
        assert(spec_split(joined, sep) =~= seq![head] + tail);
        assert(seq![head] + tail =~= parts);
    }
}

/// A split has a single piece exactly when the string does not hold the
/// separator, and that piece is then the string itself.
pub proof fn lemma_split_single(s: Seq<char>, sep: char)
    ensures
        spec_split(s, sep).len() == 1 <==> !s.contains(sep),
        spec_split(s, sep).len() == 1 ==> spec_split(s, sep)[0] == s,
{
    lemma_first_index_of(s, sep);
    let i = first_index_of(s, sep);
    if 0 <= i < s.len() {
        assert(s.contains(s[i]));
        let rest = s.subrange(i + 1, s.len() as int);
        lemma_join_split(rest, sep);
    }
}

/// No piece of a split holds the separator.
pub proof fn lemma_split_pieces(s: Seq<char>, sep: char)
    ensures
        forall|i: int|
            0 <= i < spec_split(s, sep).len() ==> !(#[trigger] spec_split(s, sep)[i]).contains(sep),
    decreases s.len(),
{
    lemma_first_index_of(s, sep);
    let i = first_index_of(s, sep);
    let parts = spec_split(s, sep);
    if 0 <= i < s.len() {
        let head = s.subrange(0, i);
        let rest = s.subrange(i + 1, s.len() as int);
        lemma_split_pieces(rest, sep);
        assert forall|k: int| 0 <= k < parts.len() implies !(#[trigger] parts[k]).contains(
            sep,
        ) by {
            if k == 0 {
                assert(parts[0] == head);
                if head.contains(sep) {
                    let j = choose|j: int| 0 <= j < head.len() && head[j] == sep;
                    assert(s[j] == sep);
                }
            } else {
                assert(parts[k] == spec_split(rest, sep)[k - 1]);
            }
        }
    } else {
        assert(parts[0] == s);
        if s.contains(sep) {
            let j = choose|j: int| 0 <= j < s.len() && s[j] == sep;
            assert(s[j] == sep);
        }
    }
}

/// The characters of `s`, in order.
pub fn chars_of(s: &str) -> (chars: Vec<char>)
    ensures
        chars@ == s@,
{
    let mut chars: Vec<char> = Vec::new();
    for c in it: s.chars()
        invariant
            it.seq() == s@,
            chars@ == it.seq().take(it.index()),
    {
        chars.push(c);
    }
    chars
}

/// Splits `s` on every occurrence of `sep`.
pub fn split(s: &str, sep: char) -> (parts: Vec<String>)
    ensures
        strings_view(parts@) == spec_split(s@, sep),
{
    let chars = chars_of(s);
    let n = chars.len();
    let mut parts: Vec<String> = Vec::new();
    let mut start: usize = 0;
    let mut i: usize = 0;
    proof {
        assert(s@.subrange(0, n as int) =~= s@);
        assert(strings_view(parts@) + spec_split(s@, sep) =~= spec_split(s@, sep));
    }
    while i < n
        invariant
            start <= i <= n,
            n == chars@.len(),
            chars@ == s@,
            forall|j: int| start <= j < i ==> chars@[j] != sep,
            spec_split(s@, sep) == strings_view(parts@) + spec_split(
                s@.subrange(start as int, n as int),
                sep,
            ),
        decreases n - i,
    {
        if chars[i] == sep {
            let piece = s.substring_char(start, i).to_owned();
            proof {
                let cur = s@.subrange(start as int, n as int);
                lemma_first_index_unique(cur, sep, i - start);
                assert(cur.subrange(0, i - start) =~= piece@);
                assert(cur.subrange(i - start + 1, cur.len() as int) =~= s@.subrange(
                    i + 1,
                    n as int,
                ));
                assert(strings_view(parts@.push(piece)) =~= strings_view(parts@) + seq![piece@]);
            }
            parts.push(piece);
            start = i + 1;
        }
        i += 1;
    }
    let piece = s.substring_char(start, n).to_owned();
    proof {
        let cur = s@.subrange(start as int, n as int);
        lemma_first_index_unique(cur, sep, cur.len() as int);
        assert(cur =~= piece@);
        assert(strings_view(parts@.push(piece)) =~= strings_view(parts@) + seq![piece@]);
    }
    parts.push(piece);
    parts
}

/// Joins `parts`, putting `sep` between each two neighbours.
pub fn join(parts: &[String], sep: &str) -> (joined: String)
    ensures
        joined@ == spec_join(strings_view(parts@), sep@),
{
    let mut joined = String::new();
    let n = parts.len();
    let mut i: usize = n;
    while i > 0
        invariant
            i <= n,
            n == parts@.len(),
            joined@ == spec_join(strings_view(parts@).subrange(i as int, n as int), sep@),
        decreases i,
    {
        i -= 1;
        let ghost tail = strings_view(parts@).subrange(i as int, n as int);
        let mut next = parts[i].clone();
        if i + 1 < n {
            next.append(sep);
            next.append(joined.as_str());
        }
        proof {
            assert(tail[0] == parts@[i as int]@);
            assert(tail.drop_first() =~= strings_view(parts@).subrange(i + 1, n as int));
        }
        joined = next;
    }
    proof {
        assert(strings_view(parts@).subrange(0, n as int) =~= strings_view(parts@));
    }
    joined
}

/// Whether `text` starts with `prefix`.
pub open spec fn spec_starts_with(text: Seq<char>, prefix: Seq<char>) -> bool {
    prefix.len() <= text.len() && text.subrange(0, prefix.len() as int) == prefix
}

/// Whether `needle` stands somewhere in `text`.
pub open spec fn spec_contains(text: Seq<char>, needle: Seq<char>) -> bool {
    exists|i: int| spec_occurs_at(text, needle, i)
}

/// Whether `needle` stands in `text` at place `i`.
pub open spec fn spec_occurs_at(text: Seq<char>, needle: Seq<char>, i: int) -> bool {
    0 <= i && i + needle.len() <= text.len() && text.subrange(i, i + needle.len()) == needle
}

/// The white space characters: those with the Unicode property White_Space.
pub open spec fn spec_is_whitespace(c: char) -> bool {
    let code = c as u32;
    ||| 0x09 <= code <= 0x0d
    ||| code == 0x20
    ||| code == 0x85
    ||| code == 0xa0
    ||| code == 0x1680
    ||| 0x2000 <= code <= 0x200a
    ||| code == 0x2028
    ||| code == 0x2029
    ||| code == 0x202f
    ||| code == 0x205f
    ||| code == 0x3000
}

/// The number of white space characters at the start of `s`.
pub open spec fn spec_leading_space(s: Seq<char>) -> int
    decreases s.len(),
{
    if s.len() > 0 && spec_is_whitespace(s[0]) {
        1 + spec_leading_space(s.drop_first())
    } else {
        0
    }
}

/// The number of white space characters at the end of `s`.
pub open spec fn spec_trailing_space(s: Seq<char>) -> int
    decreases s.len(),
{
    if s.len() > 0 && spec_is_whitespace(s.last()) {
        1 + spec_trailing_space(s.drop_last())
    } else {
        0
    }
}

/// `s` without the white space at its two ends.
pub open spec fn spec_trim(s: Seq<char>) -> Seq<char> {
    let start = spec_leading_space(s);
    if start >= s.len() {
        Seq::empty()
    } else {
        s.subrange(start, s.len() - spec_trailing_space(s))
    }
}

/// The character of the decimal digit `d`.
pub open spec fn spec_digit(d: int) -> char {
    if d == 0 {
        '0'
    } else if d == 1 {
        '1'
    } else if d == 2 {
        '2'
    } else if d == 3 {
        '3'
    } else if d == 4 {
        '4'
    } else if d == 5 {
        '5'
    } else if d == 6 {
        '6'
    } else if d == 7 {
        '7'
    } else if d == 8 {
        '8'
    } else {
        '9'
    }
}

/// The value of the decimal digit `c`; nothing for any other character.
pub open spec fn spec_digit_value(c: char) -> Option<int> {
    if '0' <= c <= '9' {
        Some(c as int - '0' as int)
    } else {
        None
    }
}

/// `n` in decimal digits, without leading zeros.
pub open spec fn spec_decimal(n: nat) -> Seq<char>
    decreases n,
{
    if n < 10 {
        seq![spec_digit(n as int)]
    } else {
        spec_decimal(n / 10).push(spec_digit((n % 10) as int))
    }
}

/// Whether every character of `s` is a decimal digit.
pub open spec fn spec_all_digits(s: Seq<char>) -> bool {
    forall|i: int| 0 <= i < s.len() ==> spec_digit_value(#[trigger] s[i]) is Some
}

/// The number that the decimal digits `s` write.
pub open spec fn spec_digits_value(s: Seq<char>) -> nat
    decreases s.len(),
{
    if s.len() == 0 {
        0
    } else {
        let d = match spec_digit_value(s.last()) {
            Some(d) => d,
            None => 0,
        };
        (spec_digits_value(s.drop_last()) * 10 + d) as nat
    }
}

/// The number that `s` writes: one or more decimal digits, with or without
/// a plus sign in front, whose value fits 32 bits.
pub open spec fn spec_parse_u32(s: Seq<char>) -> Option<u32> {
    let digits = if s.len() > 0 && s[0] == '+' {
        s.drop_first()
    } else {
        s
    };
    if digits.len() == 0 || !spec_all_digits(digits) || spec_digits_value(digits) > u32::MAX {
        None
    } else {
        Some(spec_digits_value(digits) as u32)
    }
}

/// The value of a prefix of a string of digits is no more than the value of
/// the whole.
pub proof fn lemma_digits_value_grows(s: Seq<char>, k: int)
    requires
        0 <= k <= s.len(),
    ensures
        spec_digits_value(s.take(k)) <= spec_digits_value(s),
    decreases s.len() - k,
{
    if k < s.len() {
        lemma_digits_value_grows(s, k + 1);
        assert(s.take(k + 1).drop_last() =~= s.take(k));
    } else {
        assert(s.take(k) =~= s);
    }
}

/// Whether `a` and `b` hold the same text.
pub fn same_text(a: &str, b: &str) -> (res: bool)
    ensures
        res == (a@ == b@),
{
    let x = a.to_owned();
    let y = b.to_owned();
    x == y
}

/// Whether `text` starts with `prefix`.
pub fn starts_with(text: &str, prefix: &str) -> (res: bool)
    ensures
        res == spec_starts_with(text@, prefix@),
{
    let n = prefix.unicode_len();
    if n > text.unicode_len() {
        return false;
    }
    same_text(text.substring_char(0, n), prefix)
}

/// Whether `needle` stands somewhere in `text`.
pub fn contains(text: &str, needle: &str) -> (res: bool)
    ensures
        res == spec_contains(text@, needle@),
{
    let n = needle.unicode_len();
    let len = text.unicode_len();
    if n > len {
        return false;
    }
    let last = len - n;
    let mut i: usize = 0;
    while i < last
        invariant
            n <= len,
            n == needle@.len(),
            len == text@.len(),
            last == len - n,
            i <= last,
            forall|j: int| 0 <= j < i ==> !spec_occurs_at(text@, needle@, j),
        decreases last - i,
    {
        if same_text(text.substring_char(i, i + n), needle) {
            assert(spec_occurs_at(text@, needle@, i as int));
            return true;
        }
        i += 1;
    }
    let found = same_text(text.substring_char(last, len), needle);
    proof {
        if found {
            assert(spec_occurs_at(text@, needle@, last as int));
        }
    }
    found
}

/// Whether `c` is a white space character.
pub fn is_whitespace(c: char) -> (res: bool)
    ensures
        res == spec_is_whitespace(c),
{
    let code = c as u32;
    (0x09 <= code && code <= 0x0d) || code == 0x20 || code == 0x85 || code == 0xa0 || code
        == 0x1680 || (0x2000 <= code && code <= 0x200a) || code == 0x2028 || code == 0x2029
        || code == 0x202f || code == 0x205f || code == 0x3000
}

/// `s` without the white space at its two ends.
pub fn trim(s: &str) -> (res: String)
    ensures
        res@ == spec_trim(s@),
{
    let chars = chars_of(s);
    let n = chars.len();
    let mut start: usize = 0;
    proof {
        assert(s@.subrange(0, n as int) =~= s@);
    }
    while start < n && is_whitespace(chars[start])
        invariant
            start <= n,
            n == chars@.len(),
            chars@ == s@,
            spec_leading_space(s@) == start + spec_leading_space(s@.subrange(start as int, n as int)),
        decreases n - start,
    {
        proof {
            let cur = s@.subrange(start as int, n as int);
            assert(cur[0] == s@[start as int]);
            assert(cur.drop_first() =~= s@.subrange(start + 1, n as int));
        }
        start += 1;
    }
    proof {
        let cur = s@.subrange(start as int, n as int);
        if start < n {
            assert(cur[0] == s@[start as int]);
        }
        assert(spec_leading_space(s@) == start);
    }
    if start == n {
        return String::new();
    }
    let mut end: usize = n;
    while end > start && is_whitespace(chars[end - 1])
        invariant
            start < end <= n,
            n == chars@.len(),
            chars@ == s@,
            !spec_is_whitespace(s@[start as int]),
            spec_trailing_space(s@) == n - end + spec_trailing_space(s@.subrange(0, end as int)),
        decreases end,
    {
        proof {
            let cur = s@.subrange(0, end as int);
            assert(cur.last() == s@[end - 1]);
            assert(cur.drop_last() =~= s@.subrange(0, end - 1));
        }
        end -= 1;
    }
    proof {
        let cur = s@.subrange(0, end as int);
        assert(cur.last() == s@[end - 1]);
        assert(spec_trailing_space(s@) == n - end);
    }
    s.substring_char(start, end).to_owned()
}

/// The text of the decimal digit `d`.
fn digit_text(d: u32) -> (res: &'static str)
    requires
        d < 10,
    ensures
        res@ == seq![spec_digit(d as int)],
{
    proof {
        reveal_strlit("0");
        reveal_strlit("1");
        reveal_strlit("2");
        reveal_strlit("3");
        reveal_strlit("4");
        reveal_strlit("5");
        reveal_strlit("6");
        reveal_strlit("7");
        reveal_strlit("8");
        reveal_strlit("9");
    }
    let res = if d == 0 {
        "0"
    } else if d == 1 {
        "1"
    } else if d == 2 {
        "2"
    } else if d == 3 {
        "3"
    } else if d == 4 {
        "4"
    } else if d == 5 {
        "5"
    } else if d == 6 {
        "6"
    } else if d == 7 {
        "7"
    } else if d == 8 {
        "8"
    } else {
        "9"
    };
    proof {
        assert(res@ =~= seq![spec_digit(d as int)]);
    }
    res
}

/// `n` in decimal digits.
pub fn decimal(n: u32) -> (res: String)
    ensures
        res@ == spec_decimal(n as nat),
    decreases n,
{
    if n < 10 {
        digit_text(n).to_owned()
    } else {
        let mut res = decimal(n / 10);
        res.append(digit_text(n % 10));
        res
    }
}

/// Reads a number from its decimal digits.
pub fn parse_u32(s: &str) -> (res: Option<u32>)
    ensures
        res == spec_parse_u32(s@),
{
    let chars = chars_of(s);
    let n = chars.len();
    let first: usize = if n > 0 && chars[0] == '+' {
        1
    } else {
        0
    };
    let ghost digits = s@.subrange(first as int, n as int);
    proof {
        if first == 1 {
            assert(digits =~= s@.drop_first());
        } else {
            assert(digits =~= s@);
        }
    }
    if first == n {
        return None;
    }
    let mut value: u64 = 0;
    let mut i: usize = first;
    while i < n
        invariant
            first <= i <= n,
            n == chars@.len(),
            chars@ == s@,
            digits == s@.subrange(first as int, n as int),
            digits == (if s@.len() > 0 && s@[0] == '+' {
                s@.drop_first()
            } else {
                s@
            }),
            spec_all_digits(digits.take(i - first)),
            value == spec_digits_value(digits.take(i - first)),
            value <= u32::MAX,
        decreases n - i,
    {
        let c = chars[i];
        let ghost prefix = digits.take(i - first + 1);
        proof {
            assert(prefix.drop_last() =~= digits.take(i - first));
            assert(prefix.last() == c);
            assert(digits[i - first] == c);
        }
        if c < '0' || c > '9' {
            proof {
                assert(spec_digit_value(digits[i - first]) is None);
            }
            return None;
        }
        let d = (c as u32 - '0' as u32) as u64;
        value = value * 10 + d;
        proof {
            assert forall|j: int| 0 <= j < prefix.len() implies spec_digit_value(
                #[trigger] prefix[j],
            ) is Some by {
                if j < prefix.len() - 1 {
                    assert(prefix[j] == digits.take(i - first)[j]);
                }
            }
        }
        if value > 0xffff_ffff {
            proof {
                lemma_digits_value_grows(digits, i - first + 1);
            }
            return None;
        }
        i += 1;
    }
    proof {
        assert(digits.take(n - first) =~= digits);
    }
    Some(value as u32)
}

/// `line` without the carriage return at its end, where it has one.
pub open spec fn spec_strip_return(line: Seq<char>) -> Seq<char> {
    if line.len() > 0 && line.last() == '\r' {
        line.drop_last()
    } else {
        line
    }
}

/// The lines of `content`. A line ends with a line feed, or with a carriage
/// return and a line feed; neither belongs to the line. The last line may
/// do without its line ending. An empty text has no line.
pub open spec fn spec_lines(content: Seq<char>) -> Seq<Seq<char>> {
    let pieces = spec_split(content, '\n');
    let closed = Seq::new((pieces.len() - 1) as nat, |i: int| spec_strip_return(pieces[i]));
    if pieces.last().len() == 0 {
        closed
    } else {
        closed.push(pieces.last())
    }
}

/// The lines of `content`.
pub fn lines(content: &str) -> (res: Vec<String>)
    ensures
        strings_view(res@) == spec_lines(content@),
{
    let mut pieces = split(content, '\n');
    proof {
        lemma_join_split(content@, '\n');
    }
    let ghost all = strings_view(pieces@);
    let tail = pieces.pop().unwrap();
    let mut res: Vec<String> = Vec::new();
    let mut i: usize = 0;
    while i < pieces.len()
        invariant
            i <= pieces@.len(),
            pieces@.len() == all.len() - 1,
            forall|j: int| 0 <= j < pieces@.len() ==> pieces@[j]@ == all[j],
            res@.len() == i,
            forall|j: int| 0 <= j < i ==> res@[j]@ == spec_strip_return(all[j]),
        decreases pieces@.len() - i,
    {
        let line = pieces[i].as_str();
        let n = line.unicode_len();
        if n > 0 && line.get_char(n - 1) == '\r' {
            let stripped = line.substring_char(0, n - 1).to_owned();
            proof {
                assert(stripped@ =~= line@.drop_last());
            }
            res.push(stripped);
        } else {
            res.push(line.to_owned());
        }
        i += 1;
    }
    let ghost closed = strings_view(res@);
    proof {
        assert(closed =~= Seq::new((all.len() - 1) as nat, |i: int| spec_strip_return(all[i])));
    }
    if !tail.as_str().is_empty() {
        res.push(tail);
        proof {
            assert(strings_view(res@) =~= closed.push(all.last()));
        }
    }
    res
}

/// How one value stands to another in an order.
#[derive(Clone, Copy, Debug, PartialEq, Eq, Structural)]
pub enum Order {
    Less,
    Equal,
    Greater,
}

impl Order {
    /// The same relation seen from the other side.
    pub open spec fn flip(self) -> Order {
        match self {
            Order::Less => Order::Greater,
            Order::Equal => Order::Equal,
            Order::Greater => Order::Less,
        }
    }
}

/// How `a` stands to `b` in the order of the dictionary: the first place
/// where they differ decides, and a text comes before those it starts.
pub open spec fn spec_compare(a: Seq<char>, b: Seq<char>) -> Order
    decreases a.len(),
{
    if a.len() == 0 && b.len() == 0 {
        Order::Equal
    } else if a.len() == 0 {
        Order::Less
    } else if b.len() == 0 {
        Order::Greater
    } else if a[0] < b[0] {
        Order::Less
    } else if a[0] > b[0] {
        Order::Greater
    } else {
        spec_compare(a.drop_first(), b.drop_first())
    }
}

/// Two texts compare as equal exactly when they are the same text.
pub proof fn lemma_compare_equal(a: Seq<char>, b: Seq<char>)
    ensures
        spec_compare(a, b) == Order::Equal <==> a == b,
    decreases a.len(),
{
    if a.len() > 0 && b.len() > 0 && a[0] == b[0] {
        lemma_compare_equal(a.drop_first(), b.drop_first());
        if a.drop_first() == b.drop_first() {
            assert(a =~= seq![a[0]] + a.drop_first());
            assert(b =~= seq![b[0]] + b.drop_first());
        }
    } else if a.len() == 0 && b.len() == 0 {
        assert(a =~= b);
    }
}

/// Seen from the other side, the order is the other way round.
pub proof fn lemma_compare_flip(a: Seq<char>, b: Seq<char>)
    ensures
        spec_compare(b, a) == spec_compare(a, b).flip(),
    decreases a.len(),
{
    if a.len() > 0 && b.len() > 0 && a[0] == b[0] {
        lemma_compare_flip(a.drop_first(), b.drop_first());
    }
}

/// What comes before a text comes before all that the text comes before.
pub proof fn lemma_compare_transitive(a: Seq<char>, b: Seq<char>, c: Seq<char>)
    requires
        spec_compare(a, b) == Order::Less,
        spec_compare(b, c) == Order::Less,
    ensures
        spec_compare(a, c) == Order::Less,
    decreases a.len(),
{
    if a.len() > 0 && b.len() > 0 && c.len() > 0 && a[0] == b[0] && b[0] == c[0] {
        lemma_compare_transitive(a.drop_first(), b.drop_first(), c.drop_first());
    }
}

/// How `a` stands to `b` in the order of the dictionary.
pub fn compare(a: &str, b: &str) -> (res: Order)
    ensures
        res == spec_compare(a@, b@),
{
    let x = chars_of(a);
    let y = chars_of(b);
    let mut i: usize = 0;
    proof {
        assert(a@.skip(0) =~= a@);
        assert(b@.skip(0) =~= b@);
    }
    while i < x.len() && i < y.len()
        invariant
            i <= x@.len(),
            i <= y@.len(),
            x@ == a@,
            y@ == b@,
            spec_compare(a@, b@) == spec_compare(a@.skip(i as int), b@.skip(i as int)),
        decreases x@.len() - i,
    {
        proof {
            assert(a@.skip(i as int)[0] == x@[i as int]);
            assert(b@.skip(i as int)[0] == y@[i as int]);
            assert(a@.skip(i as int).drop_first() =~= a@.skip(i + 1));
            assert(b@.skip(i as int).drop_first() =~= b@.skip(i + 1));
        }
        if x[i] < y[i] {
            return Order::Less;
        }
        if x[i] > y[i] {
            return Order::Greater;
        }
        i += 1;
    }
    if i < y.len() {
        Order::Less
    } else if i < x.len() {
        Order::Greater
    } else {
        Order::Equal
    }
}

} // verus!
