//! Text primitives shared by the rest of the crate: strings seen as sequences of characters.

use vstd::prelude::*;
use vstd::string::*;

verus! {

/// `String::push` appends one character to the end of the string.
pub assume_specification[ String::push ](s: &mut String, c: char)
    ensures
        final(s)@ == old(s)@.push(c),
;

/// The characters of `s`, one by one.
pub fn chars_of(s: &str) -> (chars: Vec<char>)
    ensures
        chars@ == s@,
{
    let mut chars: Vec<char> = Vec::new();
    for c in it: s.chars()
        invariant
            chars@ == it.seq().take(it.index() as int),
            it.seq() == s@,
    {
        chars.push(c);
    }
    assert(s@.take(s@.len() as int) =~= s@);
    chars
}

/// The string made of `chars[from..to]`.
pub fn string_of(chars: &Vec<char>, from: usize, to: usize) -> (s: String)
    requires
        from <= to <= chars.len(),
    ensures
        s@ == chars@.subrange(from as int, to as int),
{
    let mut s = String::new();
    for i in from..to
        invariant
            from <= i <= to <= chars.len(),
            s@ == chars@.subrange(from as int, i as int),
    {
        s.push(chars[i]);
        assert(chars@.subrange(from as int, i + 1) =~= chars@.subrange(from as int, i as int).push(
            chars@[i as int],
        ));
    }
    s
}

/// Two pieces of text, one behind the other.
pub fn concat2(a: &str, b: &str) -> (s: String)
    ensures
        s@ == a@ + b@,
{
    let mut s = a.to_owned();
    s.append(b);
    s
}

/// Three pieces of text, one behind the other.
pub fn concat3(a: &str, b: &str, c: &str) -> (s: String)
    ensures
        s@ == a@ + b@ + c@,
{
    let mut s = concat2(a, b);
    s.append(c);
    s
}

/// Four pieces of text, one behind the other.
pub fn concat4(a: &str, b: &str, c: &str, d: &str) -> (s: String)
    ensures
        s@ == a@ + b@ + c@ + d@,
{
    let mut s = concat3(a, b, c);
    s.append(d);
    s
}

/// Whether two pieces of text hold the same characters.
pub fn same_text(a: &str, b: &str) -> (same: bool)
    ensures
        same == (a@ == b@),
{
    a.to_owned() == b.to_owned()
}

/// The characters with the Unicode property `White_Space`.
pub open spec fn is_whitespace(c: char) -> bool {
    ||| '\u{9}' <= c <= '\u{d}'
    ||| c == ' '
    ||| c == '\u{85}'
    ||| c == '\u{a0}'
    ||| c == '\u{1680}'
    ||| '\u{2000}' <= c <= '\u{200a}'
    ||| c == '\u{2028}'
    ||| c == '\u{2029}'
    ||| c == '\u{202f}'
    ||| c == '\u{205f}'
    ||| c == '\u{3000}'
}

/// Text that holds nothing but white space.
pub open spec fn is_blank(s: Seq<char>) -> bool {
    forall|i: int| 0 <= i < s.len() ==> is_whitespace(#[trigger] s[i])
}

/// `s` without the white space in front.
pub open spec fn trim_start(s: Seq<char>) -> Seq<char>
    decreases s.len(),
{
    if s.len() > 0 && is_whitespace(s.first()) {
        trim_start(s.drop_first())
    } else {
        s
    }
}

/// `s` without the white space at the end.
pub open spec fn trim_end(s: Seq<char>) -> Seq<char>
    decreases s.len(),
{
    if s.len() > 0 && is_whitespace(s.last()) {
        trim_end(s.drop_last())
    } else {
        s
    }
}

/// `s` without the white space at either end.
pub open spec fn trim(s: Seq<char>) -> Seq<char> {
    trim_end(trim_start(s))
}

/// `s` without the copies of `c` at the end.
pub open spec fn trim_end_char(s: Seq<char>, c: char) -> Seq<char>
    decreases s.len(),
{
    if s.len() > 0 && s.last() == c {
        trim_end_char(s.drop_last(), c)
    } else {
        s
    }
}

pub fn whitespace(c: char) -> (b: bool)
    ensures
        b == is_whitespace(c),
{
    ('\u{9}' <= c && c <= '\u{d}') || c == ' ' || c == '\u{85}' || c == '\u{a0}' || c == '\u{1680}'
        || ('\u{2000}' <= c && c <= '\u{200a}') || c == '\u{2028}' || c == '\u{2029}' || c
        == '\u{202f}' || c == '\u{205f}' || c == '\u{3000}'
}

pub fn blank(s: &str) -> (b: bool)
    ensures
        b == is_blank(s@),
{
    let chars = chars_of(s);
    for i in 0..chars.len()
        invariant
            chars@ == s@,
            forall|j: int| 0 <= j < i ==> is_whitespace(#[trigger] s@[j]),
    {
        if !whitespace(chars[i]) {
            return false;
        }
    }
    true
}

/// The text without the white space at either end.
pub fn trimmed(s: &str) -> (t: String)
    ensures
        t@ == trim(s@),
{
    let chars = chars_of(s);
    let mut from: usize = 0;
    assert(chars@.skip(0) =~= chars@);
    while from < chars.len() && whitespace(chars[from])
        invariant
            from <= chars.len(),
            trim_start(chars@) == trim_start(chars@.skip(from as int)),
        decreases chars.len() - from,
    {
        assert(chars@.skip(from as int).drop_first() =~= chars@.skip(from + 1));
        from = from + 1;
    }
    let ghost rest = chars@.skip(from as int);
    let mut to: usize = chars.len();
    assert(rest =~= chars@.subrange(from as int, to as int));
    while to > from && whitespace(chars[to - 1])
        invariant
            from <= to <= chars.len(),
            trim_end(rest) == trim_end(chars@.subrange(from as int, to as int)),
        decreases to,
    {
        assert(chars@.subrange(from as int, to as int).drop_last() =~= chars@.subrange(
            from as int,
            to - 1,
        ));
        to = to - 1;
    }
    string_of(&chars, from, to)
}

/// How many characters are left of `chars` when the copies of `c` at the end are gone.
pub fn trimmed_len(chars: &Vec<char>, c: char) -> (n: usize)
    ensures
        n <= chars.len(),
        chars@.take(n as int) == trim_end_char(chars@, c),
{
    let mut n: usize = chars.len();
    assert(chars@.take(n as int) =~= chars@);
    while n > 0 && chars[n - 1] == c
        invariant
            n <= chars.len(),
            trim_end_char(chars@, c) == trim_end_char(chars@.take(n as int), c),
        decreases n,
    {
        assert(chars@.take(n as int).drop_last() =~= chars@.take(n - 1));
        n = n - 1;
    }
    n
}

/// The character for a decimal digit.
pub open spec fn digit(d: nat) -> char {
    (48 + d) as char
}

/// `n` in decimal, without leading zeros.
pub open spec fn decimal(n: nat) -> Seq<char>
    decreases n,
{
    if n < 10 {
        seq![digit(n)]
    } else {
        decimal(n / 10).push(digit(n % 10))
    }
}

pub fn decimal_of(n: u64) -> (s: String)
    ensures
        s@ == decimal(n as nat),
    decreases n,
{
    let mut s = if n < 10 {
        String::new()
    } else {
        decimal_of(n / 10)
    };
    let d: u8 = (n % 10) as u8;
    s.push((48u8 + d) as char);
    assert(s@ =~= decimal(n as nat));
    s
}

/// The number that a text of decimal digits stands for; `None` where a character is no digit.
pub open spec fn digits_value(s: Seq<char>) -> Option<nat>
    decreases s.len(),
{
    if s.len() == 0 {
        Some(0)
    } else {
        match digits_value(s.drop_last()) {
            Some(v) if '0' <= s.last() <= '9' => Some(10 * v + (s.last() as nat - 48) as nat),
            _ => None,
        }
    }
}

/// What `s` means as a 16-bit number: digits, perhaps behind a plus sign, of a value that fits.
pub open spec fn parse_u16(s: Seq<char>) -> Option<u16> {
    let digits = if s.len() > 0 && s[0] == '+' {
        s.skip(1)
    } else {
        s
    };
    match digits_value(digits) {
        Some(v) if digits.len() > 0 && v <= u16::MAX => Some(v as u16),
        _ => None,
    }
}

/// A prefix of a text of digits is one too, and stands for no larger a number.
proof fn lemma_digits_prefix(s: Seq<char>, n: int)
    requires
        0 <= n <= s.len(),
        digits_value(s) is Some,
    ensures
        digits_value(s.take(n)) is Some,
        digits_value(s.take(n))->0 <= digits_value(s)->0,
    decreases s.len(),
{
    if n == s.len() {
        assert(s.take(n) =~= s);
    } else {
        lemma_digits_prefix(s.drop_last(), n);
        assert(s.drop_last().take(n) =~= s.take(n));
    }
}

/// The number that `chars[from..]` stands for, as [`parse_u16`] reads it.
pub fn u16_of(chars: &Vec<char>, from: usize) -> (value: Option<u16>)
    requires
        from <= chars.len(),
    ensures
        value == parse_u16(chars@.skip(from as int)),
{
    let ghost all = chars@.skip(from as int);
    let start: usize = if from < chars.len() && chars[from] == '+' {
        from + 1
    } else {
        from
    };
    let ghost digits = chars@.skip(start as int);
    proof {
        if start > from {
            assert(all[0] == '+');
            assert(digits =~= all.skip(1));
        } else {
            assert(digits == all);
            assert(all.len() > 0 ==> all[0] == chars@[from as int]);
        }
    }
    if start == chars.len() {
        return None;
    }
    let mut value: u32 = 0;
    let mut i: usize = start;
    assert(digits.take(0) =~= Seq::<char>::empty());
    while i < chars.len()
        invariant
            start <= i <= chars.len(),
            start < chars.len(),
            all == chars@.skip(from as int),
            digits == chars@.skip(start as int),
            value <= u16::MAX,
            digits_value(digits.take(i - start)) == Some(value as nat),
            parse_u16(all) == match digits_value(digits) {
                Some(v) if v <= u16::MAX => Some(v as u16),
                _ => None,
            },
        decreases chars.len() - i,
    {
        let c = chars[i];
        proof {
            assert(digits.take(i - start + 1).drop_last() =~= digits.take(i - start));
            assert(digits.take(i - start + 1).last() == c);
            if digits_value(digits) is Some {
                lemma_digits_prefix(digits, i - start + 1);
            }
        }
        if c < '0' || c > '9' {
            return None;
        }
        value = 10 * value + (c as u32 - 48);
        if value > 65535 {
            return None;
        }
        i = i + 1;
    }
    assert(digits.take(i - start) =~= digits);
    Some(value as u16)
}

/// Every text that [`decimal`] writes is read back as the number it was written from.
pub proof fn lemma_decimal_reads_back(n: nat)
    ensures
        decimal(n).len() > 0,
        forall|i: int| 0 <= i < decimal(n).len() ==> '0' <= #[trigger] decimal(n)[i] <= '9',
        digits_value(decimal(n)) == Some(n),
    decreases n,
{
    let s = decimal(n);
    if n < 10 {
        assert(s.drop_last() =~= Seq::<char>::empty());
        assert(digits_value(s.drop_last()) == Some(0nat));
    } else {
        lemma_decimal_reads_back(n / 10);
        assert(s.drop_last() =~= decimal(n / 10));
        assert forall|i: int| 0 <= i < s.len() implies '0' <= #[trigger] s[i] <= '9' by {
            if i < s.len() - 1 {
                assert(s[i] == decimal(n / 10)[i]);
            }
        }
    }
}

/// Whether `pattern` stands in `s` at `i`.
pub open spec fn occurs_at(s: Seq<char>, pattern: Seq<char>, i: int) -> bool {
    0 <= i && i + pattern.len() <= s.len() && s.subrange(i, i + pattern.len()) == pattern
}

/// Where `pattern` first stands in `s`, at `from` or behind it.
pub open spec fn find_from(s: Seq<char>, pattern: Seq<char>, from: int) -> Option<int>
    decreases s.len() + 1 - from,
{
    if from + pattern.len() > s.len() {
        None
    } else if occurs_at(s, pattern, from) {
        Some(from)
    } else {
        find_from(s, pattern, from + 1)
    }
}

/// Where `pattern` first stands in `s`.
pub open spec fn find(s: Seq<char>, pattern: Seq<char>) -> Option<int> {
    find_from(s, pattern, 0)
}

/// Whether `pattern` stands in `chars[..len]` at `i`.
pub fn occurs(chars: &Vec<char>, len: usize, pattern: &Vec<char>, i: usize) -> (b: bool)
    requires
        len <= chars.len(),
        i <= len,
    ensures
        b == occurs_at(chars@.take(len as int), pattern@, i as int),
{
    let ghost s = chars@.take(len as int);
    if len - i < pattern.len() {
        return false;
    }
    for j in 0..pattern.len()
        invariant
            s == chars@.take(len as int),
            len <= chars.len(),
            i + pattern.len() <= len,
            forall|k: int| 0 <= k < j ==> s[i + k] == #[trigger] pattern@[k],
    {
        if chars[i + j] != pattern[j] {
            assert(s.subrange(i as int, i + pattern@.len())[j as int] != pattern@[j as int]);
            return false;
        }
    }
    assert(s.subrange(i as int, i + pattern@.len()) =~= pattern@);
    true
}

/// Where `pattern` first stands in `chars[..len]`.
pub fn position(chars: &Vec<char>, len: usize, pattern: &Vec<char>) -> (at: Option<usize>)
    requires
        len <= chars.len(),
    ensures
        match at {
            Some(i) => find(chars@.take(len as int), pattern@) == Some(i as int) && i
                + pattern.len() <= len,
            None => find(chars@.take(len as int), pattern@) is None,
        },
{
    let ghost s = chars@.take(len as int);
    let mut i: usize = 0;
    while i <= len && len - i >= pattern.len()
        invariant
            s == chars@.take(len as int),
            len <= chars.len(),
            i <= len + 1,
            find(s, pattern@) == find_from(s, pattern@, i as int),
        decreases len + 1 - i,
    {
        if occurs(chars, len, pattern, i) {
            return Some(i);
        }
        if i == len {
            assert(s.subrange(i as int, i as int) =~= pattern@);
            return None;
        }
        i = i + 1;
    }
    None
}

/// Where `c` first stands in `chars`.
pub fn first_position(chars: &Vec<char>, c: char) -> (at: Option<usize>)
    ensures
        match at {
            Some(i) => i < chars.len() && chars@.index_of_first(c) == Some(i as int),
            None => chars@.index_of_first(c) is None,
        },
{
    proof {
        chars@.index_of_first_ensures(c);
    }
    for i in 0..chars.len()
        invariant
            forall|j: int| 0 <= j < i ==> chars@[j] != c,
            match chars@.index_of_first(c) {
                Some(k) => 0 <= k < chars.len() && chars@[k] == c && forall|j: int|
                    0 <= j < k ==> chars@[j] != c,
                None => !chars@.contains(c),
            },
    {
        if chars[i] == c {
            assert(chars@[i as int] == c);
            return Some(i);
        }
    }
    None
}

/// Where `c` last stands in `chars`.
pub fn last_position(chars: &Vec<char>, c: char) -> (at: Option<usize>)
    ensures
        match at {
            Some(i) => i < chars.len() && chars@.index_of_last(c) == Some(i as int),
            None => chars@.index_of_last(c) is None,
        },
{
    proof {
        chars@.index_of_last_ensures(c);
    }
    let mut i: usize = chars.len();
    while i > 0
        invariant
            i <= chars.len(),
            forall|j: int| i <= j < chars.len() ==> chars@[j] != c,
            match chars@.index_of_last(c) {
                Some(k) => 0 <= k < chars.len() && chars@[k] == c && forall|j: int|
                    k < j < chars.len() ==> chars@[j] != c,
                None => !chars@.contains(c),
            },
        decreases i,
    {
        i = i - 1;
        if chars[i] == c {
            assert(chars@[i as int] == c);
            return Some(i);
        }
    }
    None
}

/// Where `pattern` stands at `at` and nowhere before it, that is where it is found.
pub proof fn lemma_found(s: Seq<char>, pattern: Seq<char>, from: int, at: int)
    requires
        0 <= from <= at,
        occurs_at(s, pattern, at),
        forall|i: int| from <= i < at ==> !occurs_at(s, pattern, i),
    ensures
        find_from(s, pattern, from) == Some(at),
    decreases at - from,
{
    if from < at {
        lemma_found(s, pattern, from + 1, at);
    }
}

/// Whether `c` is among the characters of `s`.
pub fn contains_char(s: &str, c: char) -> (b: bool)
    ensures
        b == s@.contains(c),
{
    let chars = chars_of(s);
    for i in 0..chars.len()
        invariant
            chars@ == s@,
            forall|j: int| 0 <= j < i ==> s@[j] != c,
    {
        if chars[i] == c {
            assert(s@[i as int] == c);
            return true;
        }
    }
    false
}

/// Whether `s` ends with `suffix`.
pub open spec fn ends_with(s: Seq<char>, suffix: Seq<char>) -> bool {
    s.len() >= suffix.len() && s.skip(s.len() - suffix.len()) == suffix
}

pub fn has_suffix(s: &str, suffix: &str) -> (b: bool)
    ensures
        b == ends_with(s@, suffix@),
{
    let chars = chars_of(s);
    let wanted = chars_of(suffix);
    if chars.len() < wanted.len() {
        return false;
    }
    let at: usize = chars.len() - wanted.len();
    assert(chars@.take(chars.len() as int) =~= chars@);
    assert(chars@.subrange(at as int, at + wanted@.len()) =~= chars@.skip(at as int));
    occurs(&chars, chars.len(), &wanted, at)
}

/// Whether `s` begins with `prefix`.
pub open spec fn starts_with(s: Seq<char>, prefix: Seq<char>) -> bool {
    s.len() >= prefix.len() && s.take(prefix.len() as int) == prefix
}

pub fn has_prefix(s: &str, prefix: &str) -> (b: bool)
    ensures
        b == starts_with(s@, prefix@),
{
    let chars = chars_of(s);
    let wanted = chars_of(prefix);
    assert(chars@.take(chars.len() as int) =~= chars@);
    if chars.len() >= wanted.len() {
        assert(chars@.subrange(0, wanted@.len() as int) =~= chars@.take(wanted.len() as int));
    }
    occurs(&chars, chars.len(), &wanted, 0)
}

/// Pieces of text with `separator` between one and the next.
pub open spec fn join(pieces: Seq<Seq<char>>, separator: Seq<char>) -> Seq<char>
    decreases pieces.len(),
{
    if pieces.len() == 0 {
        Seq::empty()
    } else if pieces.len() == 1 {
        pieces[0]
    } else {
        join(pieces.drop_last(), separator) + separator + pieces.last()
    }
}

/// The contents of a string that may be missing.
pub open spec fn opt_view(text: Option<String>) -> Option<Seq<char>> {
    match text {
        Some(s) => Some(s@),
        None => None,
    }
}

/// The contents of a text, or of the message that came in its place.
pub open spec fn text_outcome(outcome: Result<String, String>) -> Result<Seq<char>, Seq<char>> {
    match outcome {
        Ok(text) => Ok(text@),
        Err(message) => Err(message@),
    }
}

/// What an outcome without a value comes to.
pub open spec fn done_outcome(outcome: Result<(), String>) -> Result<(), Seq<char>> {
    match outcome {
        Ok(()) => Ok(()),
        Err(message) => Err(message@),
    }
}

/// The contents of each string.
pub open spec fn views(strings: Seq<String>) -> Seq<Seq<char>> {
    strings.map_values(|s: String| s@)
}

pub fn joined(pieces: &Vec<String>, separator: &str) -> (s: String)
    ensures
        s@ == join(views(pieces@), separator@),
{
    let mut s = String::new();
    for i in 0..pieces.len()
        invariant
            s@ == join(views(pieces@).take(i as int), separator@),
    {
        proof {
            assert(views(pieces@).take(i + 1).drop_last() =~= views(pieces@).take(i as int));
            assert(views(pieces@).take(i + 1).last() == pieces@[i as int]@);
        }
        if i > 0 {
            s.append(separator);
        }
        s.append(pieces[i].as_str());
        assert(s@ =~= join(views(pieces@).take(i + 1), separator@));
    }
    assert(views(pieces@).take(pieces@.len() as int) =~= views(pieces@));
    s
}

/// A text that may be missing, an outcome and a list of texts are seen as what they hold, with
/// nothing left out.
pub proof fn law_views_hold_every_text(text: String, message: String, strings: Seq<String>)
    ensures
        opt_view(Some(text)) == Some(text@),
        opt_view(None) is None,
        text_outcome(Ok(text)) == Ok::<Seq<char>, Seq<char>>(text@),
        text_outcome(Err(message)) == Err::<Seq<char>, Seq<char>>(message@),
        done_outcome(Ok(())) is Ok,
        done_outcome(Err(message)) == Err::<(), Seq<char>>(message@),
        views(strings).len() == strings.len(),
        forall|i: int| 0 <= i < strings.len() ==> #[trigger] views(strings)[i] == strings[i]@,
{
}

/// White space is what Unicode calls so: these code points and no others.
pub proof fn law_white_space(c: char)
    ensures
        is_whitespace(c) <==> {
            let n = c as int;
            9 <= n <= 13 || n == 32 || n == 133 || n == 160 || n == 5760 || 8192 <= n <= 8202 || n
                == 8232 || n == 8233 || n == 8239 || n == 8287 || n == 12288
        },
{
}

/// A text is blank when each of its parts is, down to the single characters.
pub proof fn law_blank_text(front: Seq<char>, back: Seq<char>, c: char)
    ensures
        is_blank(Seq::<char>::empty()),
        is_blank(seq![c]) <==> is_whitespace(c),
        is_blank(front + back) <==> is_blank(front) && is_blank(back),
{
    let all = front + back;
    assert(is_blank(seq![c]) ==> is_whitespace(c)) by {
        assert(seq![c][0] == c);
    }
    if is_blank(all) {
        assert forall|i: int| 0 <= i < front.len() implies is_whitespace(#[trigger] front[i]) by {
            assert(all[i] == front[i]);
        }
        assert forall|i: int| 0 <= i < back.len() implies is_whitespace(#[trigger] back[i]) by {
            assert(all[front.len() + i] == back[i]);
        }
    }
}

/// Trimming takes white space off both ends, all of it and nothing else.
pub proof fn law_trim_takes_white_space(s: Seq<char>)
    ensures
        exists|front: Seq<char>, back: Seq<char>|
            is_blank(front) && is_blank(back) && s == #[trigger] (front + trim(s) + back),
        trim(s).len() > 0 ==> !is_whitespace(trim(s)[0]) && !is_whitespace(trim(s).last()),
{
    let rest = trim_start(s);
    let front = lemma_trim_start(s);
    let back = lemma_trim_end(rest);
    assert(s =~= front + trim(s) + back);
    if trim(s).len() > 0 {
        assert(rest[0] == trim(s)[0]);
    }
}

proof fn lemma_trim_start(s: Seq<char>) -> (front: Seq<char>)
    ensures
        is_blank(front),
        s == front + trim_start(s),
        trim_start(s).len() > 0 ==> !is_whitespace(trim_start(s)[0]),
    decreases s.len(),
{
    if s.len() > 0 && is_whitespace(s.first()) {
        let rest = lemma_trim_start(s.drop_first());
        let front = seq![s[0]] + rest;
        assert(s =~= seq![s[0]] + s.drop_first());
        assert(seq![s[0]] + (rest + trim_start(s)) =~= front + trim_start(s));
        front
    } else {
        assert(s =~= Seq::<char>::empty() + s);
        Seq::empty()
    }
}

proof fn lemma_trim_end(s: Seq<char>) -> (back: Seq<char>)
    ensures
        is_blank(back),
        s == trim_end(s) + back,
        trim_end(s).len() > 0 ==> !is_whitespace(trim_end(s).last()),
    decreases s.len(),
{
    if s.len() > 0 && is_whitespace(s.last()) {
        let rest = lemma_trim_end(s.drop_last());
        let back = rest.push(s.last());
        assert(s =~= s.drop_last().push(s.last()));
        assert((trim_end(s) + rest).push(s.last()) =~= trim_end(s) + back);
        back
    } else {
        assert(s =~= s + Seq::<char>::empty());
        Seq::empty()
    }
}

/// What is left without the copies of a character at the end does not end with it, and the text is
/// that with copies of the character behind it.
pub proof fn law_trim_end_char(s: Seq<char>, c: char)
    ensures
        exists|copies: Seq<char>|
            s == #[trigger] (trim_end_char(s, c) + copies) && forall|i: int|
                0 <= i < copies.len() ==> copies[i] == c,
        trim_end_char(s, c).len() > 0 ==> trim_end_char(s, c).last() != c,
    decreases s.len(),
{
    if s.len() > 0 && s.last() == c {
        law_trim_end_char(s.drop_last(), c);
        let copies = choose|copies: Seq<char>|
            s.drop_last() == #[trigger] (trim_end_char(s.drop_last(), c) + copies) && forall|i: int|
                0 <= i < copies.len() ==> copies[i] == c;
        assert(s =~= s.drop_last().push(c));
        assert((trim_end_char(s, c) + copies).push(c) =~= trim_end_char(s, c) + copies.push(c));
    } else {
        assert(s =~= trim_end_char(s, c) + Seq::<char>::empty());
    }
}

/// A number is written with digits alone, and without leading zeros.
pub proof fn law_decimal_is_plain(n: nat)
    ensures
        decimal(n).len() > 0,
        forall|i: int| 0 <= i < decimal(n).len() ==> '0' <= #[trigger] decimal(n)[i] <= '9',
        digits_value(decimal(n)) == Some(n),
        decimal(n)[0] == '0' ==> n == 0 && decimal(n).len() == 1,
    decreases n,
{
    lemma_decimal_reads_back(n);
    if n >= 10 {
        law_decimal_is_plain(n / 10);
        assert(decimal(n)[0] == decimal(n / 10)[0]);
    }
}

/// Digits are read in the decimal system: a digit behind others counts once, and the others ten
/// times. Nothing but digits is read.
pub proof fn law_digits_are_decimal(s: Seq<char>, c: char)
    ensures
        digits_value(Seq::<char>::empty()) == Some(0nat),
        digits_value(s.push(c)) is Some <==> digits_value(s) is Some && 48 <= c as int <= 57,
        digits_value(s.push(c)) is Some ==> digits_value(s.push(c))->0 == 10 * digits_value(s)->0
            + c as int - 48,
{
    assert(s.push(c).drop_last() =~= s);
}

/// A port is read from one or more digits, perhaps behind one plus sign, where their value fits
/// into sixteen bits; from nothing else.
pub proof fn law_port_is_read_from_digits(s: Seq<char>)
    ensures
        s.len() == 0 ==> parse_u16(s) is None,
        s.len() > 0 && s[0] != '+' ==> (parse_u16(s) is Some <==> digits_value(s) is Some
            && digits_value(s)->0 <= 65535),
        s.len() > 0 && s[0] != '+' && parse_u16(s) is Some ==> parse_u16(s)->0 == digits_value(s)->0,
        s.len() > 0 && s[0] != '+' ==> parse_u16(seq!['+'] + s) == parse_u16(s),
        parse_u16(seq!['+']) is None,
        parse_u16(seq!['+', '+'] + s) is None,
{
    let signed = seq!['+'] + s;
    assert(signed.skip(1) =~= s);
    let sign = seq!['+'];
    assert(sign.skip(1) =~= Seq::<char>::empty());
    let twice = seq!['+', '+'] + s;
    assert(twice.skip(1) =~= seq!['+'] + s);
    lemma_no_digits(seq!['+'] + s, 0);
    reveal_with_fuel(digits_value, 2);
}

/// A text with a character that is no digit stands for no number.
proof fn lemma_no_digits(s: Seq<char>, i: int)
    requires
        0 <= i < s.len(),
        !('0' <= s[i] <= '9'),
    ensures
        digits_value(s) is None,
    decreases s.len(),
{
    if i < s.len() - 1 {
        lemma_no_digits(s.drop_last(), i);
    }
}

/// A pattern is found where it first stands, and not found where it stands nowhere.
pub proof fn law_find_is_the_first(s: Seq<char>, pattern: Seq<char>)
    ensures
        match find(s, pattern) {
            Some(at) => 0 <= at && at + pattern.len() <= s.len() && s.subrange(
                at,
                at + pattern.len(),
            ) == pattern && forall|i: int|
                0 <= i < at ==> #[trigger] s.subrange(i, i + pattern.len()) != pattern,
            None => forall|i: int|
                0 <= i && i + pattern.len() <= s.len() ==> #[trigger] s.subrange(
                    i,
                    i + pattern.len(),
                ) != pattern,
        },
{
    lemma_find_from(s, pattern, 0);
}

proof fn lemma_find_from(s: Seq<char>, pattern: Seq<char>, from: int)
    requires
        0 <= from,
    ensures
        match find_from(s, pattern, from) {
            Some(at) => from <= at && occurs_at(s, pattern, at) && forall|i: int|
                from <= i < at ==> #[trigger] s.subrange(i, i + pattern.len()) != pattern,
            None => forall|i: int|
                from <= i && i + pattern.len() <= s.len() ==> #[trigger] s.subrange(
                    i,
                    i + pattern.len(),
                ) != pattern,
        },
    decreases s.len() + 1 - from,
{
    if from + pattern.len() <= s.len() && !occurs_at(s, pattern, from) {
        lemma_find_from(s, pattern, from + 1);
    }
}

/// A text ends with a suffix, or begins with a prefix, when it is made of that and a rest.
pub proof fn law_ends_of_text(s: Seq<char>, part: Seq<char>)
    ensures
        ends_with(s, part) <==> exists|rest: Seq<char>| s == #[trigger] (rest + part),
        starts_with(s, part) <==> exists|rest: Seq<char>| s == #[trigger] (part + rest),
{
    if ends_with(s, part) {
        let rest = s.take(s.len() - part.len());
        assert(s =~= rest + part);
    }
    if exists|rest: Seq<char>| s == #[trigger] (rest + part) {
        let rest = choose|rest: Seq<char>| s == #[trigger] (rest + part);
        assert(s.skip(s.len() - part.len()) =~= part);
    }
    if starts_with(s, part) {
        let rest = s.skip(part.len() as int);
        assert(s =~= part + rest);
    }
    if exists|rest: Seq<char>| s == #[trigger] (part + rest) {
        let rest = choose|rest: Seq<char>| s == #[trigger] (part + rest);
        assert(s.take(part.len() as int) =~= part);
    }
}

/// Joined pieces stand one behind the other with the separator between two of them.
pub proof fn law_join(front: Seq<Seq<char>>, back: Seq<Seq<char>>, separator: Seq<char>)
    ensures
        join(Seq::<Seq<char>>::empty(), separator) == Seq::<char>::empty(),
        front.len() == 1 ==> join(front, separator) == front[0],
        front.len() > 0 && back.len() > 0 ==> join(front + back, separator) == join(
            front,
            separator,
        ) + separator + join(back, separator),
    decreases back.len(),
{
    if front.len() > 0 && back.len() > 0 {
        let all = front + back;
        assert(all.drop_last() =~= front + back.drop_last());
        assert(all.last() == back.last());
        if back.len() == 1 {
            assert(all.drop_last() =~= front);
        } else {
            law_join(front, back.drop_last(), separator);
        }
        assert(join(all, separator) =~= join(front, separator) + separator + join(back, separator));
    }
}

} // verus!
