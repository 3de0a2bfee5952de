//! Text as the protocol needs it: words between whitespace, lines, joined
//! parts, byte lengths and comparisons.

use vstd::prelude::*;
use vstd::std_specs::iter::IteratorSpec;
use vstd::string::{StrSliceExecFns, StringExecFns};
use vstd::utf8::{
    encode_utf8, encode_utf8_decode_utf8, is_ascii_chars, is_ascii_chars_encode_utf8,
};

verus! {

/// Whether `c` carries the Unicode `White_Space` property.
pub open spec fn is_whitespace(c: char) -> bool {
    let u = c as u32;
    ||| 0x09 <= u <= 0x0D
    ||| u == 0x20
    ||| u == 0x85
    ||| u == 0xA0
    ||| u == 0x1680
    ||| 0x2000 <= u <= 0x200A
    ||| u == 0x2028
    ||| u == 0x2029
    ||| u == 0x202F
    ||| u == 0x205F
    ||| u == 0x3000
}

/// Executable test for [`is_whitespace`].
pub fn char_is_whitespace(c: char) -> (b: bool)
    ensures
        b == is_whitespace(c),
{
    let u: u32 = c as u32;
    (0x09 <= u && u <= 0x0D) || u == 0x20 || u == 0x85 || u == 0xA0 || u == 0x1680 || (0x2000 <= u
        && u <= 0x200A) || u == 0x2028 || u == 0x2029 || u == 0x202F || u == 0x205F || u == 0x3000
}

/// Number of characters at the front of `s` before the first whitespace
/// character (all of `s` when it holds none).
pub open spec fn word_len(s: Seq<char>) -> nat
    decreases s.len(),
{
    if s.len() == 0 || is_whitespace(s[0]) {
        0
    } else {
        1 + word_len(s.drop_first())
    }
}

/// The whitespace-separated words of `s`, in order: every maximal run of
/// characters that are not whitespace.
pub open spec fn words(s: Seq<char>) -> Seq<Seq<char>>
    decreases s.len(),
    via words_decreases
{
    if s.len() == 0 {
        Seq::empty()
    } else if is_whitespace(s[0]) {
        words(s.drop_first())
    } else {
        seq![s.take(word_len(s) as int)] + words(s.skip(word_len(s) as int))
    }
}

#[via_fn]
proof fn words_decreases(s: Seq<char>) {
    lemma_word_len_bounds(s);
}

/// `word_len` never runs past the end, and is positive exactly when `s`
/// starts with a character that is not whitespace.
pub proof fn lemma_word_len_bounds(s: Seq<char>)
    ensures
        word_len(s) <= s.len(),
        word_len(s) > 0 <==> s.len() > 0 && !is_whitespace(s[0]),
        forall|i: int| 0 <= i < word_len(s) ==> !is_whitespace(#[trigger] s[i]),
        word_len(s) < s.len() ==> is_whitespace(s[word_len(s) as int]),
    decreases s.len(),
{
    if s.len() > 0 && !is_whitespace(s[0]) {
        let rest = s.drop_first();
        lemma_word_len_bounds(rest);
        assert forall|i: int| 0 <= i < word_len(s) implies !is_whitespace(#[trigger] s[i]) by {
            if i > 0 {
                assert(s[i] == rest[i - 1]);
            }
        }
        if word_len(s) < s.len() {
            assert(s[word_len(s) as int] == rest[word_len(rest) as int]);
        }
    }
}

/// If the first `n` characters of `s` are not whitespace and `s` ends or
/// has whitespace right after them, the leading word has length `n`.
pub proof fn lemma_word_len_is(s: Seq<char>, n: int)
    requires
        0 <= n <= s.len(),
        forall|i: int| 0 <= i < n ==> !is_whitespace(#[trigger] s[i]),
        n < s.len() ==> is_whitespace(s[n]),
    ensures
        word_len(s) == n,
    decreases n,
{
    if n > 0 {
        let rest = s.drop_first();
        assert forall|i: int| 0 <= i < n - 1 implies !is_whitespace(#[trigger] rest[i]) by {
            assert(rest[i] == s[i + 1]);
        }
        lemma_word_len_is(rest, n - 1);
    }
}

/// A word that spans `start..end` of `s` is the first word of what starts at
/// `start`, and the remaining words are those of what starts at `end`.
pub proof fn lemma_words_step(s: Seq<char>, start: int, end: int)
    requires
        0 <= start < end <= s.len(),
        forall|k: int| start <= k < end ==> !is_whitespace(#[trigger] s[k]),
        end < s.len() ==> is_whitespace(s[end]),
    ensures
        words(s.skip(start)) == seq![s.subrange(start, end)] + words(s.skip(end)),
{
    let t = s.skip(start);
    assert forall|i: int| 0 <= i < end - start implies !is_whitespace(#[trigger] t[i]) by {
        assert(t[i] == s[start + i]);
    }
    lemma_word_len_is(t, end - start);
    assert(t.take(end - start) =~= s.subrange(start, end));
    assert(t.skip(end - start) =~= s.skip(end));
}

/// Whitespace at the front of a text adds no word.
pub proof fn lemma_words_after_space(c: char, rest: Seq<char>)
    requires
        is_whitespace(c),
    ensures
        words(seq![c] + rest) == words(rest),
{
    let s = seq![c] + rest;
    assert(s[0] == c);
    assert(s.drop_first() =~= rest);
}

/// A word at the front of a text, with the end of the text or whitespace
/// behind it, is the first of the words.
pub proof fn lemma_words_after_word(word: Seq<char>, rest: Seq<char>)
    requires
        word.len() > 0,
        forall|i: int| 0 <= i < word.len() ==> !is_whitespace(#[trigger] word[i]),
        rest.len() > 0 ==> is_whitespace(rest[0]),
    ensures
        words(word + rest) == seq![word] + words(rest),
{
    let s = word + rest;
    assert forall|k: int| 0 <= k < word.len() implies !is_whitespace(#[trigger] s[k]) by {
        assert(s[k] == word[k]);
    }
    if rest.len() > 0 {
        assert(s[word.len() as int] == rest[0]);
    }
    lemma_words_step(s, 0, word.len() as int);
    assert(s.skip(0) =~= s);
    assert(s.subrange(0, word.len() as int) =~= word);
    assert(s.skip(word.len() as int) =~= rest);
}

/// Whitespace at the end of a text adds no word.
pub proof fn lemma_words_before_space(s: Seq<char>, c: char)
    requires
        is_whitespace(c),
    ensures
        words(s.push(c)) == words(s),
    decreases s.len(),
{
    let t = s.push(c);
    if s.len() == 0 {
        assert(t.drop_first() =~= s);
    } else if is_whitespace(s[0]) {
        assert(t[0] == s[0]);
        assert(t.drop_first() =~= s.drop_first().push(c));
        lemma_words_before_space(s.drop_first(), c);
    } else {
        let n = word_len(s) as int;
        lemma_word_len_bounds(s);
        assert forall|i: int| 0 <= i < n implies !is_whitespace(#[trigger] t[i]) by {
            assert(t[i] == s[i]);
        }
        if n < s.len() {
            assert(t[n] == s[n]);
        } else {
            assert(t[n] == c);
        }
        lemma_word_len_is(t, n);
        assert(t[0] == s[0]);
        assert(t.take(n) =~= s.take(n));
        assert(t.skip(n) =~= s.skip(n).push(c));
        lemma_words_before_space(s.skip(n), c);
    }
}

/// `message` as a line: with a line feed after it.
pub open spec fn line(message: Seq<char>) -> Seq<char> {
    message.push('\n')
}

/// Writes `message` as a line.
pub fn to_line(message: &str) -> (written: String)
    ensures
        written@ == line(message@),
{
    let mut written = String::from_str(message);
    proof {
        reveal_strlit("\n");
        assert("\n"@ =~= seq!['\n']);
    }
    written.append("\n");
    assert(written@ =~= line(message@));
    written
}

/// The line feed that ends a line adds no word.
pub proof fn lemma_words_of_line(message: Seq<char>)
    ensures
        words(line(message)) == words(message),
{
    lemma_words_before_space(message, '\n');
}

/// The views of a sequence of string slices.
pub open spec fn str_views(v: Seq<&str>) -> Seq<Seq<char>> {
    v.map_values(|s: &str| s@)
}

/// The views of a sequence of strings.
pub open spec fn string_views(v: Seq<String>) -> Seq<Seq<char>> {
    v.map_values(|s: String| s@)
}

/// Splits `s` at whitespace into its words.
pub fn split_words<'a>(s: &'a str) -> (out: Vec<&'a str>)
    ensures
        str_views(out@) == words(s@),
{
    let bound = byte_len(s);
    let mut out: Vec<&'a str> = Vec::new();
    let mut it = s.chars();
    let mut i: usize = 0;
    let mut start: usize = 0;
    let mut in_word = false;
    proof {
        lemma_chars_le_bytes(s@);
        assert(s@.skip(0) =~= s@);
        assert(str_views(out@) =~= Seq::<Seq<char>>::empty());
    }
    loop
        invariant
            i <= s@.len() <= bound,
            it.remaining() == s@.skip(i as int),
            in_word ==> start < i,
            in_word ==> forall|k: int| start <= k < i ==> !is_whitespace(#[trigger] s@[k]),
            !in_word ==> start == i,
            str_views(out@) + words(s@.skip(start as int)) == words(s@),
        ensures
            i == s@.len(),
        decreases s@.len() - i,
    {
        match it.next() {
            None => {
                break ;
            },
            Some(c) => {
                assert(c == s@[i as int]);
                assert(it.remaining() =~= s@.skip(i + 1));
                if char_is_whitespace(c) {
                    if in_word {
                        let w = s.substring_char(start, i);
                        proof {
                            lemma_words_step(s@, start as int, i as int);
                            assert(s@.skip(i as int).drop_first() =~= s@.skip(i + 1));
                            assert(str_views(out@.push(w)) =~= str_views(out@).push(w@));
                        }
                        out.push(w);
                        in_word = false;
                    } else {
                        proof {
                            assert(s@.skip(i as int).drop_first() =~= s@.skip(i + 1));
                        }
                    }
                    start = i + 1;
                } else {
                    in_word = true;
                }
                i = i + 1;
            },
        }
    }
    if in_word {
        let w = s.substring_char(start, i);
        proof {
            lemma_words_step(s@, start as int, i as int);
            assert(str_views(out@.push(w)) =~= str_views(out@).push(w@));
        }
        out.push(w);
    } else {
        proof {
            assert(words(s@.skip(i as int)) =~= Seq::<Seq<char>>::empty());
        }
    }
    out
}

/// Number of bytes that `s` takes in UTF-8, which is what `str::len` counts.
pub open spec fn utf8_len(s: Seq<char>) -> nat {
    encode_utf8(s).len()
}

/// A text has at most as many characters as bytes.
pub proof fn lemma_chars_le_bytes(s: Seq<char>)
    ensures
        s.len() <= utf8_len(s),
    decreases s.len(),
{
    if s.len() > 0 {
        lemma_chars_le_bytes(s.drop_first());
    }
}

/// The length of `s` in bytes.
pub fn byte_len(s: &str) -> (n: usize)
    ensures
        n == utf8_len(s@),
{
    s.as_bytes().len()
}

/// Whether two string slices hold the same characters.
pub fn str_eq(a: &str, b: &str) -> (same: bool)
    ensures
        same == (a@ == b@),
{
    let x = a.as_bytes();
    let y = b.as_bytes();
    proof {
        encode_utf8_decode_utf8(a@);
        encode_utf8_decode_utf8(b@);
    }
    if x.len() != y.len() {
        return false;
    }
    let mut i: usize = 0;
    while i < x.len()
        invariant
            i <= x.len(),
            x.len() == y.len(),
            x@ == encode_utf8(a@),
            y@ == encode_utf8(b@),
            forall|k: int| 0 <= k < i ==> x@[k] == y@[k],
        decreases x.len() - i,
    {
        if x[i] != y[i] {
            return false;
        }
        i = i + 1;
    }
    assert(x@ =~= y@);
    true
}

/// The `parts` written one after another with `sep` between neighbours.
pub open spec fn join(parts: Seq<Seq<char>>, sep: Seq<char>) -> Seq<char>
    decreases parts.len(),
{
    if parts.len() == 0 {
        Seq::empty()
    } else if parts.len() == 1 {
        parts[0]
    } else {
        join(parts.drop_last(), sep) + sep + parts.last()
    }
}

/// Joining a first part with more parts puts the separator after the first.
pub proof fn lemma_join_first(first: Seq<char>, rest: Seq<Seq<char>>, sep: Seq<char>)
    requires
        rest.len() > 0,
    ensures
        join(seq![first] + rest, sep) == first + sep + join(rest, sep),
    decreases rest.len(),
{
    let all = seq![first] + rest;
    assert(all.last() == rest.last());
    if rest.len() == 1 {
        assert(all.drop_last() =~= seq![first]);
        assert(join(seq![first], sep) == first);
        assert(join(rest, sep) == rest[0]);
    } else {
        assert(all.drop_last() =~= seq![first] + rest.drop_last());
        lemma_join_first(first, rest.drop_last(), sep);
        assert(join(all, sep) =~= first + sep + join(rest, sep));
    }
}

/// Whether `key` can be written as one word: it is not empty and holds no
/// whitespace.
pub open spec fn is_word(key: Seq<char>) -> bool {
    &&& key.len() > 0
    &&& forall|i: int| 0 <= i < key.len() ==> !is_whitespace(#[trigger] key[i])
}

/// Whether `value` comes back from a request as it was written: it is not
/// empty, and it is its own words with single spaces between them.
pub open spec fn is_spaced_words(value: Seq<char>) -> bool {
    &&& value.len() > 0
    &&& join(words(value), " "@) == value
}

/// Whether the only whitespace in `value` is single spaces between words:
/// it starts and ends with a character that is not whitespace, and every
/// whitespace character in it is a space that follows such a character.
pub open spec fn is_single_spaced(value: Seq<char>) -> bool {
    &&& value.len() > 0
    &&& !is_whitespace(value[0])
    &&& !is_whitespace(value.last())
    &&& forall|i: int|
        0 <= i < value.len() && is_whitespace(#[trigger] value[i]) ==> value[i] == ' '
            && !is_whitespace(value[i - 1])
}

/// Text whose only whitespace is single spaces between words comes back
/// from a request as it was written.
pub proof fn lemma_single_spaced(value: Seq<char>)
    requires
        is_single_spaced(value),
    ensures
        is_spaced_words(value),
    decreases value.len(),
{
    reveal_strlit(" ");
    assert(" "@ =~= seq![' ']);
    let n = word_len(value) as int;
    lemma_word_len_bounds(value);
    let word = value.take(n);
    let after = value.skip(n);
    if n == value.len() {
        assert(word =~= value);
        assert(words(after) =~= Seq::<Seq<char>>::empty());
        assert(words(value) =~= seq![value]);
    } else {
        assert(value[n] == ' ');
        assert(value.last() == value[value.len() - 1]);
        let rest = value.skip(n + 1);
        assert(after =~= seq![' '] + rest);
        assert(rest[0] == value[n + 1]);
        assert(rest.last() == value.last());
        assert(is_single_spaced(rest)) by {
            assert forall|i: int|
                0 <= i < rest.len() && is_whitespace(#[trigger] rest[i]) implies rest[i] == ' '
                && !is_whitespace(rest[i - 1]) by {
                assert(rest[i] == value[n + 1 + i]);
                assert(rest[i - 1] == value[n + i]);
            }
        }
        lemma_single_spaced(rest);
        lemma_words_after_space(' ', rest);
        assert(words(rest).len() > 0);
        lemma_join_first(word, words(rest), " "@);
        assert(word + " "@ + rest =~= value);
    }
}

/// Whether `c` is a visible ASCII character: `!` to `~`.
pub open spec fn is_graphic(c: char) -> bool {
    '!' <= c <= '~'
}

/// Whether `s` is visible ASCII characters only, and at least one.
pub open spec fn is_graphic_word(s: Seq<char>) -> bool {
    &&& s.len() > 0
    &&& forall|i: int| 0 <= i < s.len() ==> is_graphic(#[trigger] s[i])
}

/// Whether `s` is visible ASCII characters and single spaces between them.
pub open spec fn is_graphic_text(s: Seq<char>) -> bool {
    &&& s.len() > 0
    &&& is_graphic(s[0])
    &&& is_graphic(s.last())
    &&& forall|i: int|
        0 < i < s.len() ==> is_graphic(#[trigger] s[i]) || (s[i] == ' ' && is_graphic(s[i - 1]))
}

/// A word of visible ASCII characters is one word, and takes one byte for
/// each character.
pub proof fn lemma_graphic_word(s: Seq<char>)
    requires
        is_graphic_word(s),
    ensures
        is_word(s),
        is_graphic_text(s),
        utf8_len(s) == s.len(),
{
    assert(is_ascii_chars(s));
    is_ascii_chars_encode_utf8(s);
    assert(s.last() == s[s.len() - 1]);
}

/// Visible ASCII characters with single spaces between them are a text
/// whose only whitespace is single spaces between words, and take one byte
/// for each character.
pub proof fn lemma_graphic_text(s: Seq<char>)
    requires
        is_graphic_text(s),
    ensures
        is_single_spaced(s),
        utf8_len(s) == s.len(),
{
    assert(is_ascii_chars(s)) by {
        assert forall|i: int| 0 <= i < s.len() implies '\0' <= #[trigger] s[i] <= '\u{7f}' by {
            if i > 0 {
                assert(is_graphic(s[i]) || s[i] == ' ');
            }
        }
    }
    is_ascii_chars_encode_utf8(s);
    assert forall|i: int| 0 <= i < s.len() && is_whitespace(#[trigger] s[i]) implies s[i] == ' '
        && !is_whitespace(s[i - 1]) by {
        if i > 0 {
            assert(is_graphic(s[i]) || (s[i] == ' ' && is_graphic(s[i - 1])));
        }
    }
}

/// Every word of a text is a word: not empty and without whitespace.
pub proof fn lemma_words_are_words(s: Seq<char>)
    ensures
        forall|i: int| 0 <= i < words(s).len() ==> is_word(#[trigger] words(s)[i]),
    decreases s.len(),
{
    if s.len() == 0 {
        assert(words(s).len() == 0);
    } else if is_whitespace(s[0]) {
        lemma_words_are_words(s.drop_first());
        assert(words(s) == words(s.drop_first()));
    } else {
        let n = word_len(s) as int;
        lemma_word_len_bounds(s);
        lemma_words_are_words(s.skip(n));
        let first = s.take(n);
        assert(words(s) == seq![first] + words(s.skip(n)));
        assert(is_word(first)) by {
            assert forall|i: int| 0 <= i < first.len() implies !is_whitespace(
                #[trigger] first[i],
            ) by {
                assert(first[i] == s[i]);
            }
        }
        assert forall|i: int| 0 <= i < words(s).len() implies is_word(#[trigger] words(s)[i]) by {
            if i > 0 {
                assert(words(s)[i] == words(s.skip(n))[i - 1]);
            }
        }
    }
}

/// Words joined by single spaces hold no other whitespace.
pub proof fn lemma_joined_words_are_single_spaced(parts: Seq<Seq<char>>)
    requires
        parts.len() > 0,
        forall|i: int| 0 <= i < parts.len() ==> is_word(#[trigger] parts[i]),
    ensures
        is_single_spaced(join(parts, " "@)),
    decreases parts.len(),
{
    reveal_strlit(" ");
    assert(" "@ =~= seq![' ']);
    let last = parts.last();
    assert(is_word(last)) by {
        assert(last == parts[parts.len() - 1]);
    }
    if parts.len() > 1 {
        let front = parts.drop_last();
        assert forall|i: int| 0 <= i < front.len() implies is_word(#[trigger] front[i]) by {
            assert(front[i] == parts[i]);
        }
        lemma_joined_words_are_single_spaced(front);
        let a = join(front, " "@);
        let all = join(parts, " "@);
        assert(all =~= a + seq![' '] + last);
        assert(all[0] == a[0]);
        assert(all.last() == last.last());
        assert forall|i: int| 0 <= i < all.len() && is_whitespace(#[trigger] all[i]) implies all[i]
            == ' ' && !is_whitespace(all[i - 1]) by {
            if i < a.len() {
                assert(all[i] == a[i]);
                assert(all[i - 1] == a[i - 1]);
            } else if i == a.len() {
                assert(all[i - 1] == a.last());
            } else {
                assert(all[i] == last[i - a.len() - 1]);
            }
        }
    }
}

/// A text comes back from a request as it was written exactly when its
/// only whitespace is single spaces between words.
pub proof fn lemma_spaced_words_are_single_spaced(value: Seq<char>)
    ensures
        is_spaced_words(value) <==> is_single_spaced(value),
{
    if is_single_spaced(value) {
        lemma_single_spaced(value);
    }
    if is_spaced_words(value) {
        lemma_words_are_words(value);
        lemma_joined_words_are_single_spaced(words(value));
    }
}

/// Joins string slices with `sep` between neighbours.
pub fn join_strs(parts: &[&str], sep: &str) -> (joined: String)
    ensures
        joined@ == join(str_views(parts@), sep@),
{
    let mut joined = String::new();
    let mut i: usize = 0;
    while i < parts.len()
        invariant
            i <= parts.len(),
            joined@ == join(str_views(parts@).take(i as int), sep@),
        decreases parts.len() - i,
    {
        proof {
            let done = str_views(parts@).take(i as int);
            let next = str_views(parts@).take(i + 1);
            assert(next.drop_last() =~= done);
            assert(next.last() == parts@[i as int]@);
        }
        if i > 0 {
            joined.append(sep);
        }
        joined.append(parts[i]);
        i = i + 1;
    }
    assert(str_views(parts@).take(parts.len() as int) =~= str_views(parts@));
    joined
}

/// The strings of `parts` as slices.
pub fn as_strs(parts: &Vec<String>) -> (strs: Vec<&str>)
    ensures
        str_views(strs@) == string_views(parts@),
{
    let mut strs: Vec<&str> = Vec::new();
    let mut i: usize = 0;
    while i < parts.len()
        invariant
            i <= parts.len(),
            strs@.len() == i,
            forall|k: int| 0 <= k < i ==> (#[trigger] strs@[k])@ == parts@[k]@,
        decreases parts.len() - i,
    {
        strs.push(parts[i].as_str());
        i = i + 1;
    }
    assert(str_views(strs@) =~= string_views(parts@));
    strs
}

/// Whether `s` holds at least one of the characters `chars`.
pub open spec fn holds_any(s: Seq<char>, chars: Seq<char>) -> bool {
    exists|i: int| 0 <= i < s.len() && chars.contains(#[trigger] s[i])
}

/// Whether `c` is one of `chars`.
pub fn is_one_of(c: char, chars: &Vec<char>) -> (found: bool)
    ensures
        found == chars@.contains(c),
{
    let mut i: usize = 0;
    while i < chars.len()
        invariant
            i <= chars.len(),
            forall|k: int| 0 <= k < i ==> chars@[k] != c,
        decreases chars.len() - i,
    {
        if chars[i] == c {
            return true;
        }
        i = i + 1;
    }
    false
}

/// Whether `s` holds at least one of the characters `chars`.
pub fn contains_any(s: &str, chars: &Vec<char>) -> (found: bool)
    ensures
        found == holds_any(s@, chars@),
{
    let bound = byte_len(s);
    let mut it = s.chars();
    let mut i: usize = 0;
    proof {
        lemma_chars_le_bytes(s@);
        assert(s@.skip(0) =~= s@);
    }
    loop
        invariant
            i <= s@.len() <= bound,
            it.remaining() == s@.skip(i as int),
            forall|k: int| 0 <= k < i ==> !chars@.contains(#[trigger] s@[k]),
        ensures
            i == s@.len(),
        decreases s@.len() - i,
    {
        match it.next() {
            None => {
                break ;
            },
            Some(c) => {
                proof {
                    assert(c == s@[i as int]);
                    assert(s@.skip(i as int).drop_first() =~= s@.skip(i + 1));
                }
                if is_one_of(c, chars) {
                    return true;
                }
                i = i + 1;
            },
        }
    }
    false
}

} // verus!
