//! Text as a sequence of characters: searching, decimal numbers, lists of
//! words, and the case mappings and decoding of the standard library.
use vstd::prelude::*;

verus! {

/// `pattern` stands in `text` at position `at`.
pub open spec fn occurs_at(text: Seq<char>, pattern: Seq<char>, at: int) -> bool {
    &&& 0 <= at
    &&& at + pattern.len() <= text.len()
    &&& text.subrange(at, at + pattern.len()) == pattern
}

/// `pattern` stands somewhere in `text`.
pub open spec fn has_part(text: Seq<char>, pattern: Seq<char>) -> bool {
    exists|at: int| occurs_at(text, pattern, at)
}

/// `at` is the leftmost position at which `pattern` stands in `text`.
pub open spec fn is_leftmost(text: Seq<char>, pattern: Seq<char>, at: int) -> bool {
    &&& occurs_at(text, pattern, at)
    &&& forall|earlier: int| earlier < at ==> !occurs_at(text, pattern, earlier)
}

/// The leftmost position of `pattern` in `text`, if there is one.
pub open spec fn leftmost(text: Seq<char>, pattern: Seq<char>) -> Option<int> {
    if has_part(text, pattern) {
        Some(choose|at: int| is_leftmost(text, pattern, at))
    } else {
        None
    }
}

/// `text` begins with `pattern`.
pub open spec fn begins_with(text: Seq<char>, pattern: Seq<char>) -> bool {
    pattern.is_prefix_of(text)
}

/// `text` ends with `pattern`.
pub open spec fn finishes_with(text: Seq<char>, pattern: Seq<char>) -> bool {
    pattern.is_suffix_of(text)
}

/// The first position from `at` on at which one of `stops` stands in `text`;
/// its end where none does.
pub open spec fn stop_from(text: Seq<char>, stops: Seq<char>, at: int) -> int
    decreases text.len() - at,
{
    if at >= text.len() {
        text.len() as int
    } else if stops.contains(text[at]) {
        at
    } else {
        stop_from(text, stops, at + 1)
    }
}

/// What stands in `text` before the first of `stops`; all of it where none of
/// them does.
pub open spec fn before_any(text: Seq<char>, stops: Seq<char>) -> Seq<char> {
    text.take(stop_from(text, stops, 0))
}

/// The position behind the last `mark` among the first `end` characters of
/// `text`; its beginning where there is none.
pub open spec fn behind_last_from(text: Seq<char>, mark: char, end: int) -> int
    decreases end,
{
    if end <= 0 {
        0
    } else if text[end - 1] == mark {
        end
    } else {
        behind_last_from(text, mark, end - 1)
    }
}

/// What stands in `text` behind the last `mark`; all of it where there is
/// none.
pub open spec fn behind_last(text: Seq<char>, mark: char) -> Seq<char> {
    text.skip(behind_last_from(text, mark, text.len() as int))
}

/// The decimal digit for `d`, which is below ten.
pub open spec fn digit(d: nat) -> char {
    if d == 0 {
        '0'
    } else if d == 1 {
        '1'
    } else if d == 2 {
        '2'
    } else if d == 3 {
        '3'
    } else if d == 4 {
        '4'
    } else if d == 5 {
        '5'
    } else if d == 6 {
        '6'
    } else if d == 7 {
        '7'
    } else if d == 8 {
        '8'
    } else {
        '9'
    }
}

/// `n` in decimal, without leading zeros.
pub open spec fn natural_text(n: nat) -> Seq<char>
    decreases n,
{
    if n < 10 {
        seq![digit(n)]
    } else {
        natural_text(n / 10).push(digit(n % 10))
    }
}

/// `n` in decimal, with a minus sign where it is negative.
pub open spec fn decimal_text(n: int) -> Seq<char> {
    if n < 0 {
        seq!['-'] + natural_text((-n) as nat)
    } else {
        natural_text(n as nat)
    }
}

/// The words of a list, each as its characters.
pub open spec fn texts(words: Seq<String>) -> Seq<Seq<char>> {
    words.map_values(|word: String| word@)
}

/// The name and value of each setting, as their characters.
pub open spec fn settings(pairs: Seq<(String, String)>) -> Seq<(Seq<char>, Seq<char>)> {
    pairs.map_values(|pair: (String, String)| (pair.0@, pair.1@))
}

/// Where a pattern occurs, it has one leftmost position.
pub proof fn leftmost_is_unique(text: Seq<char>, pattern: Seq<char>, at: int)
    requires
        is_leftmost(text, pattern, at),
    ensures
        leftmost(text, pattern) == Some(at),
{
    let chosen = choose|p: int| is_leftmost(text, pattern, p);
    assert(is_leftmost(text, pattern, chosen));
    assert(chosen == at) by {
        if chosen < at {
            assert(!occurs_at(text, pattern, chosen));
        } else if at < chosen {
            assert(!occurs_at(text, pattern, at));
        }
    }
}

/// The characters of `text`.
pub fn characters(text: &str) -> (chars: Vec<char>)
    ensures
        chars@ == text@,
{
    let mut chars: Vec<char> = Vec::new();
    for c in walk: text.chars()
        invariant
            walk.seq() == text@,
            chars@ == text@.take(walk.index()),
    {
        chars.push(c);
        assert(text@.take(walk.index() + 1) == text@.take(walk.index()).push(c));
    }
    assert(text@.take(text@.len() as int) == text@);
    chars
}

/// Whether `pattern` stands in `chars` at position `at`.
fn stands_at(chars: &Vec<char>, pattern: &Vec<char>, at: usize) -> (found: bool)
    ensures
        found == occurs_at(chars@, pattern@, at as int),
{
    if pattern.len() > chars.len() || at > chars.len() - pattern.len() {
        return false;
    }
    let mut i: usize = 0;
    while i < pattern.len()
        invariant
            i <= pattern.len(),
            at + pattern.len() <= chars.len(),
            forall|j: int| 0 <= j < i ==> chars[at + j] == pattern[j],
        decreases pattern.len() - i,
    {
        if chars[at + i] != pattern[i] {
            assert(chars@.subrange(at as int, at + pattern.len())[i as int] != pattern@[i as int]);
            return false;
        }
        i += 1;
    }
    assert(chars@.subrange(at as int, at + pattern.len()) == pattern@);
    true
}

/// The leftmost position of `pattern` in `text`, counted in characters.
pub fn find(text: &str, pattern: &str) -> (at: Option<usize>)
    ensures
        match at {
            Some(position) => leftmost(text@, pattern@) == Some(position as int) && occurs_at(
                text@,
                pattern@,
                position as int,
            ),
            None => leftmost(text@, pattern@) is None,
        },
{
    let chars = characters(text);
    let wanted = characters(pattern);
    if wanted.len() > chars.len() {
        return None;
    }
    let last: usize = chars.len() - wanted.len();
    let mut at: usize = 0;
    loop
        invariant
            chars@ == text@,
            wanted@ == pattern@,
            last == chars.len() - wanted.len(),
            at <= last,
            forall|earlier: int| earlier < at ==> !occurs_at(text@, pattern@, earlier),
        decreases last - at,
    {
        if stands_at(&chars, &wanted, at) {
            proof {
                leftmost_is_unique(text@, pattern@, at as int);
            }
            return Some(at);
        }
        if at == last {
            return None;
        }
        at += 1;
    }
}

/// Whether `pattern` stands somewhere in `text`.
pub fn contains(text: &str, pattern: &str) -> (found: bool)
    ensures
        found == has_part(text@, pattern@),
{
    find(text, pattern).is_some()
}

/// Whether `text` begins with `pattern`.
pub fn starts_with(text: &str, pattern: &str) -> (found: bool)
    ensures
        found == begins_with(text@, pattern@),
{
    let found = stands_at(&characters(text), &characters(pattern), 0);
    assert(found ==> text@.subrange(0, pattern@.len() as int) == pattern@);
    found
}

/// Whether `text` ends with `pattern`.
pub fn ends_with(text: &str, pattern: &str) -> (found: bool)
    ensures
        found == finishes_with(text@, pattern@),
{
    let chars = characters(text);
    let wanted = characters(pattern);
    if wanted.len() > chars.len() {
        return false;
    }
    let at: usize = chars.len() - wanted.len();
    let found = stands_at(&chars, &wanted, at);
    assert(found ==> text@.subrange(at as int, text@.len() as int) == pattern@);
    found
}

/// Whether two texts are the same.
pub fn same(a: &str, b: &str) -> (equal: bool)
    ensures
        equal == (a@ == b@),
{
    a.to_owned() == b.to_owned()
}

/// Where no stop stands before `end`, and one stands at `end` or the text
/// ends there, the run ends there.
pub proof fn stop_is_first(text: Seq<char>, stops: Seq<char>, at: int, end: int)
    requires
        0 <= at <= end <= text.len(),
        forall|i: int| at <= i < end ==> !stops.contains(#[trigger] text[i]),
        end < text.len() ==> stops.contains(text[end]),
    ensures
        stop_from(text, stops, at) == end,
    decreases end - at,
{
    if at < end {
        stop_is_first(text, stops, at + 1, end);
    }
}

/// Where no mark stands before `end`, nothing is left out.
pub proof fn no_mark_before(text: Seq<char>, mark: char, end: int)
    requires
        0 <= end <= text.len(),
        forall|i: int| 0 <= i < end ==> #[trigger] text[i] != mark,
    ensures
        behind_last_from(text, mark, end) == 0,
    decreases end,
{
    if end > 0 {
        no_mark_before(text, mark, end - 1);
    }
}

/// What stands in `text` before the first of `stops`.
pub fn until_any<'a>(text: &'a str, stops: &str) -> (part: &'a str)
    ensures
        part@ == before_any(text@, stops@),
{
    let chars = characters(text);
    let marks = characters(stops);
    let mut at: usize = 0;
    while at < chars.len()
        invariant_except_break
            stop_from(text@, stops@, 0) == stop_from(text@, stops@, at as int),
        invariant
            chars@ == text@,
            marks@ == stops@,
            at <= chars.len(),
        ensures
            at == stop_from(text@, stops@, 0),
        decreases chars.len() - at,
    {
        if has_char(&marks, chars[at]) {
            break;
        }
        at += 1;
    }
    let part = text.substring_char(0, at);
    assert(part@ == text@.take(at as int));
    part
}

/// What stands in `text` behind the last `mark`.
pub fn after_last<'a>(text: &'a str, mark: char) -> (part: &'a str)
    ensures
        part@ == behind_last(text@, mark),
{
    let chars = characters(text);
    let mut end: usize = chars.len();
    while end > 0
        invariant_except_break
            behind_last_from(text@, mark, text@.len() as int) == behind_last_from(
                text@,
                mark,
                end as int,
            ),
        invariant
            chars@ == text@,
            end <= chars.len(),
        ensures
            end == behind_last_from(text@, mark, text@.len() as int),
        decreases end,
    {
        if chars[end - 1] == mark {
            break;
        }
        end -= 1;
    }
    let part = text.substring_char(end, chars.len());
    assert(part@ == text@.skip(end as int));
    part
}

fn has_char(chars: &Vec<char>, wanted: char) -> (found: bool)
    ensures
        found == chars@.contains(wanted),
{
    let mut i: usize = 0;
    while i < chars.len()
        invariant
            i <= chars.len(),
            forall|j: int| 0 <= j < i ==> chars[j] != wanted,
        decreases chars.len() - i,
    {
        if chars[i] == wanted {
            return true;
        }
        i += 1;
    }
    false
}

fn digit_word(d: u64) -> (word: &'static str)
    requires
        d < 10,
    ensures
        word@ == seq![digit(d as nat)],
{
    proof {
        reveal_strlit("0");
        reveal_strlit("1");
        reveal_strlit("2");
        reveal_strlit("3");
        reveal_strlit("4");
        reveal_strlit("5");
        reveal_strlit("6");
        reveal_strlit("7");
        reveal_strlit("8");
        reveal_strlit("9");
    }
    match d {
        0 => "0",
        1 => "1",
        2 => "2",
        3 => "3",
        4 => "4",
        5 => "5",
        6 => "6",
        7 => "7",
        8 => "8",
        _ => "9",
    }
}

/// `n` in decimal.
pub fn natural(n: u64) -> (word: String)
    ensures
        word@ == natural_text(n as nat),
    decreases n,
{
    if n < 10 {
        digit_word(n).to_owned()
    } else {
        let mut word = natural(n / 10);
        word.append(digit_word(n % 10));
        assert(word@ == natural_text((n / 10) as nat).push(digit((n % 10) as nat)));
        word
    }
}

/// `n` in decimal.
pub fn decimal(n: i64) -> (word: String)
    ensures
        word@ == decimal_text(n as int),
{
    if n < 0 {
        let size: u64 = (-(n as i128)) as u64;
        proof {
            reveal_strlit("-");
        }
        let mut word = "-".to_owned();
        word.append(natural(size).as_str());
        word
    } else {
        natural(n as u64)
    }
}

/// Adds a word at the end of a list.
pub fn push_word(words: &mut Vec<String>, word: &str)
    ensures
        texts(final(words)@) == texts(old(words)@).push(word@),
{
    words.push(word.to_owned());
    assert(texts(words@) == texts(old(words)@).push(word@));
}

/// Adds a name and its value at the end of a list.
pub fn push_setting(pairs: &mut Vec<(String, String)>, name: &str, value: &str)
    ensures
        settings(final(pairs)@) == settings(old(pairs)@).push((name@, value@)),
{
    pairs.push((name.to_owned(), value.to_owned()));
    assert(settings(pairs@) == settings(old(pairs)@).push((name@, value@)));
}

/// What `str::to_lowercase` makes of a text.
pub uninterp spec fn lowercase(text: Seq<char>) -> Seq<char>;

/// What `str::to_uppercase` makes of a text.
pub uninterp spec fn uppercase(text: Seq<char>) -> Seq<char>;

/// What `String::from_utf8_lossy` makes of bytes.
pub uninterp spec fn lossy_text(bytes: Seq<u8>) -> Seq<char>;

/// `str::to_lowercase`: the text with every letter mapped to lower case as
/// Unicode maps it. The result is named, not described.
#[verifier::external_body]
pub(crate) fn to_lowercase(text: &str) -> (lower: String)
    ensures
        lower@ == lowercase(text@),
{
    text.to_lowercase()
}

/// `str::to_uppercase`: the text with every letter mapped to upper case as
/// Unicode maps it. The result is named, not described.
#[verifier::external_body]
pub(crate) fn to_uppercase(text: &str) -> (upper: String)
    ensures
        upper@ == uppercase(text@),
{
    text.to_uppercase()
}

/// `String::from_utf8_lossy`: the bytes read as UTF-8, with a replacement
/// character for what is not. Of the result it is said that well-formed UTF-8
/// is decoded as it stands; where replacement characters go is not described.
#[verifier::external_body]
pub(crate) fn from_utf8_lossy(bytes: &[u8]) -> (text: String)
    ensures
        text@ == lossy_text(bytes@),
        vstd::utf8::valid_utf8(bytes@) ==> text@ == vstd::utf8::decode_utf8(bytes@),
{
    String::from_utf8_lossy(bytes).into_owned()
}

} // verus!
