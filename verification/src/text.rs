//! Small text routines: comparison, decimal numbers, prefixes and search.

use vstd::prelude::*;
use vstd::string::StringExecFns;

verus! {

/// `<str as PartialEq>::eq`: two string slices are equal exactly when they hold
/// the same characters.
pub assume_specification[ <str as PartialEq<str>>::eq ](a: &str, b: &str) -> (res: bool)
    ensures
        res == (a@ == b@),
;

/// The length of a text in UTF-8 bytes.
pub open spec fn byte_len(s: Seq<char>) -> nat {
    vstd::utf8::encode_utf8(s).len() as usize as nat
}

/// Whether two string slices hold the same characters.
pub fn same_text(a: &str, b: &str) -> (res: bool)
    ensures
        res == (a@ == b@),
{
    *a == *b
}

/// The characters of a string slice, in order.
pub fn chars_of(s: &str) -> (out: Vec<char>)
    ensures
        out@ == s@,
{
    let mut out: Vec<char> = Vec::new();
    for c in it: s.chars()
        invariant
            out@.len() == it.index(),
            it.seq() == s@,
            forall|i: int| 0 <= i < out@.len() ==> out@[i] == it.seq()[i],
    {
        out.push(c);
    }
    out
}

// ── decimal numbers ──────────────────────────────────────────────────────

/// Whether `c` is one of the ten ASCII digits.
pub open spec fn is_digit(c: char) -> bool {
    48 <= c as u32 <= 57
}

/// Whether `s` consists of ASCII digits only.
pub open spec fn all_digits(s: Seq<char>) -> bool {
    forall|i: int| 0 <= i < s.len() ==> is_digit(#[trigger] s[i])
}

/// The number a string of digits denotes in base ten.
pub open spec fn digits_value(s: Seq<char>) -> nat
    decreases s.len(),
{
    if s.len() == 0 {
        0
    } else {
        (digits_value(s.drop_last()) * 10 + (s.last() as u32 - 48)) as nat
    }
}

/// What `u64::from_str` makes of a text: an optional `+`, then at least one
/// digit and nothing else, denoting a number that fits.
pub open spec fn parsed_u64(s: Seq<char>) -> Option<u64> {
    let digits = if s.len() > 0 && s[0] == '+' {
        s.skip(1)
    } else {
        s
    };
    if digits.len() > 0 && all_digits(digits) && digits_value(digits) <= u64::MAX {
        Some(digits_value(digits) as u64)
    } else {
        None
    }
}

proof fn lemma_digits_value_grows(s: Seq<char>, k: int)
    requires
        all_digits(s),
        0 <= k <= s.len(),
    ensures
        digits_value(s.take(k)) <= digits_value(s),
    decreases s.len() - k,
{
    if k == s.len() {
        assert(s.take(k) == s);
    } else {
        let longer = s.take(k + 1);
        assert(longer.drop_last() == s.take(k));
        assert(is_digit(s[k]));
        assert(longer.last() == s[k]);
        assert(digits_value(s.take(k)) <= digits_value(longer));
        lemma_digits_value_grows(s, k + 1);
    }
}

/// Parse an unsigned decimal number out of the tail of `cs` that starts at `from`.
pub fn parse_u64_from(cs: &Vec<char>, from: usize) -> (res: Option<u64>)
    requires
        from <= cs@.len(),
    ensures
        res == parsed_u64(cs@.skip(from as int)),
{
    let ghost tail = cs@.skip(from as int);
    let start: usize = if from < cs.len() && cs[from] == '+' {
        from + 1
    } else {
        from
    };
    let ghost digits = if tail.len() > 0 && tail[0] == '+' {
        tail.skip(1)
    } else {
        tail
    };
    assert(digits == cs@.skip(start as int));
    if start == cs.len() {
        return None;
    }
    let mut i: usize = start;
    let mut value: u64 = 0;
    while i < cs.len()
        invariant
            start <= i <= cs@.len(),
            digits == cs@.skip(start as int),
            all_digits(digits.take(i - start)),
            value == digits_value(digits.take(i - start)),
            parsed_u64(cs@.skip(from as int)) == (if digits.len() > 0 && all_digits(digits)
                && digits_value(digits) <= u64::MAX {
                Some(digits_value(digits) as u64)
            } else {
                None
            }),
        decreases cs@.len() - i,
    {
        let c: char = cs[i];
        let ghost k = i - start;
        assert(digits[k] == c);
        let code: u32 = c as u32;
        if code < 48 || code > 57 {
            assert(!is_digit(digits[k]));
            return None;
        }
        let ghost longer = digits.take(k + 1);
        assert(longer.drop_last() == digits.take(k));
        assert(longer.last() == c);
        proof {
            assert forall|j: int| 0 <= j < longer.len() implies is_digit(#[trigger] longer[j]) by {
                if j < k {
                    assert(longer[j] == digits.take(k)[j]);
                }
            }
        }
        let d: u64 = (code - 48) as u64;
        if value > (u64::MAX - d) / 10 {
            proof {
                assert(digits_value(longer) == value * 10 + d);
                assert(value * 10 + d > u64::MAX);
                if all_digits(digits) {
                    lemma_digits_value_grows(digits, k + 1);
                }
            }
            return None;
        }
        value = value * 10 + d;
        i = i + 1;
    }
    assert(digits.take(i - start) == digits);
    Some(value)
}

/// The character of a single decimal digit.
pub open spec fn digit_char(d: nat) -> char {
    (48 + d) as char
}

/// The decimal notation of a number, without leading zeros.
pub open spec fn decimal(n: nat) -> Seq<char>
    decreases n,
{
    if n < 10 {
        seq![digit_char(n)]
    } else {
        decimal(n / 10).push(digit_char(n % 10))
    }
}

fn digit_text(d: u128) -> (res: &'static str)
    requires
        d < 10,
    ensures
        res@ == seq![digit_char(d as nat)],
{
    proof {
        reveal_strlit("0");
        reveal_strlit("1");
        reveal_strlit("2");
        reveal_strlit("3");
        reveal_strlit("4");
        reveal_strlit("5");
        reveal_strlit("6");
        reveal_strlit("7");
        reveal_strlit("8");
        reveal_strlit("9");
    }
    let res: &'static str = match d {
        0 => "0",
        1 => "1",
        2 => "2",
        3 => "3",
        4 => "4",
        5 => "5",
        6 => "6",
        7 => "7",
        8 => "8",
        _ => "9",
    };
    assert(res@ =~= seq![digit_char(d as nat)]);
    res
}

/// Append the decimal notation of `n` to `out`.
pub fn push_decimal(out: &mut String, n: u128)
    ensures
        final(out)@ == old(out)@ + decimal(n as nat),
    decreases n,
{
    if n >= 10 {
        push_decimal(out, n / 10);
    }
    out.append(digit_text(n % 10));
    proof {
        if n >= 10 {
            assert(old(out)@ + decimal((n / 10) as nat) + seq![digit_char((n % 10) as nat)]
                =~= old(out)@ + decimal(n as nat));
        }
    }
}

/// Decimal notation consists of digits and denotes the number it was made from.
pub proof fn lemma_decimal_reads_back(n: nat)
    ensures
        decimal(n).len() > 0,
        all_digits(decimal(n)),
        digits_value(decimal(n)) == n,
    decreases n,
{
    let d = decimal(n);
    if n < 10 {
        assert(d.drop_last() =~= Seq::<char>::empty());
        assert(digits_value(Seq::<char>::empty()) == 0);
        assert(d.last() == digit_char(n));
    } else {
        lemma_decimal_reads_back(n / 10);
        let front = decimal(n / 10);
        assert(d.drop_last() =~= front);
        assert(d.last() == digit_char(n % 10));
        assert forall|i: int| 0 <= i < d.len() implies is_digit(#[trigger] d[i]) by {
            if i < front.len() {
                assert(d[i] == front[i]);
            }
        }
    }
}

/// Parsing undoes decimal notation.
pub proof fn law_parse_undoes_decimal(n: u64)
    ensures
        parsed_u64(decimal(n as nat)) == Some(n),
{
    lemma_decimal_reads_back(n as nat);
    assert(is_digit(decimal(n as nat)[0]));
}

// ── prefixes and search ──────────────────────────────────────────────────

/// Whether `s` starts with `prefix`.
pub open spec fn has_prefix(s: Seq<char>, prefix: Seq<char>) -> bool {
    prefix.len() <= s.len() && s.take(prefix.len() as int) == prefix
}

/// Whether `needle` occurs in `hay` at position `at`.
pub open spec fn occurs_at(hay: Seq<char>, needle: Seq<char>, at: int) -> bool {
    0 <= at && at + needle.len() <= hay.len() && hay.subrange(at, at + needle.len() as int)
        == needle
}

/// Whether `needle` occurs anywhere in `hay`.
pub open spec fn has_text(hay: Seq<char>, needle: Seq<char>) -> bool {
    exists|at: int| occurs_at(hay, needle, at)
}

/// Whether `needle` occurs in `hay` at position `at`, compared char by char.
fn matches_at(hay: &Vec<char>, needle: &Vec<char>, at: usize) -> (res: bool)
    requires
        at + needle@.len() <= hay@.len(),
    ensures
        res == occurs_at(hay@, needle@, at as int),
{
    let mut i: usize = 0;
    let hay_len: usize = hay.len();
    let ghost window = hay@.subrange(at as int, at + needle@.len());
    while i < needle.len()
        invariant
            i <= needle@.len(),
            at + needle@.len() <= hay@.len(),
            hay@.len() == hay_len,
            window == hay@.subrange(at as int, at + needle@.len()),
            forall|j: int| 0 <= j < i ==> window[j] == needle@[j],
        decreases needle@.len() - i,
    {
        if hay[at + i] != needle[i] {
            assert(window[i as int] != needle@[i as int]);
            return false;
        }
        i = i + 1;
    }
    assert(window =~= needle@);
    true
}

/// Whether the text of `cs` starts with `prefix`.
pub fn starts_with(cs: &Vec<char>, prefix: &Vec<char>) -> (res: bool)
    ensures
        res == has_prefix(cs@, prefix@),
{
    if prefix.len() > cs.len() {
        return false;
    }
    assert(cs@.subrange(0, prefix@.len() as int) == cs@.take(prefix@.len() as int));
    matches_at(cs, prefix, 0)
}

/// Whether `needle` occurs in `hay`.
pub fn contains_text(hay: &str, needle: &str) -> (res: bool)
    ensures
        res == has_text(hay@, needle@),
{
    let h = chars_of(hay);
    let n = chars_of(needle);
    if n.len() > h.len() {
        return false;
    }
    let last: usize = h.len() - n.len();
    let mut at: usize = 0;
    loop
        invariant
            h@ == hay@,
            n@ == needle@,
            last + n@.len() == h@.len(),
            at <= last,
            forall|k: int| 0 <= k < at ==> !occurs_at(h@, n@, k),
        decreases last - at,
    {
        if matches_at(&h, &n, at) {
            return true;
        }
        if at == last {
            return false;
        }
        at = at + 1;
    }
}

// ── words ────────────────────────────────────────────────────────────────

/// Whether a character has the Unicode property `White_Space`.
pub uninterp spec fn white_space(c: char) -> bool;

/// `char::is_whitespace`: it tells by the character alone whether it is white
/// space. The Unicode table behind it is not restated.
pub assume_specification[ char::is_whitespace ](c: char) -> (res: bool)
    ensures
        res == white_space(c),
;

/// `String::push`: it appends one character.
pub assume_specification[ String::push ](s: &mut String, c: char)
    ensures
        final(s)@ == old(s)@.push(c),
;

/// The words of a text: its longest runs without white space, in order.
pub open spec fn words(s: Seq<char>) -> Seq<Seq<char>>
    decreases s.len(),
{
    if s.len() == 0 {
        Seq::empty()
    } else {
        let before = words(s.drop_last());
        if white_space(s.last()) {
            before
        } else if s.len() >= 2 && !white_space(s[s.len() - 2]) {
            before.drop_last().push(before.last().push(s.last()))
        } else {
            before.push(seq![s.last()])
        }
    }
}

/// Split a text into its words.
pub fn split_words(s: &str) -> (out: Vec<String>)
    ensures
        texts(out@) == words(s@),
{
    let cs = chars_of(s);
    let mut out: Vec<String> = Vec::new();
    let mut word = String::new();
    let mut in_word = false;
    let mut i: usize = 0;
    assert(cs@.take(0) =~= Seq::<char>::empty());
    assert(texts(out@) =~= Seq::<Seq<char>>::empty());
    while i < cs.len()
        invariant
            i <= cs@.len(),
            in_word == (i > 0 && !white_space(cs@[i - 1])),
            in_word ==> texts(out@).push(word@) == words(cs@.take(i as int)),
            !in_word ==> texts(out@) == words(cs@.take(i as int)),
        decreases cs@.len() - i,
    {
        let c: char = cs[i];
        let ghost longer = cs@.take(i + 1);
        let ghost before = words(cs@.take(i as int));
        let ghost word0 = word@;
        let ghost out0 = out@;
        assert(longer.drop_last() =~= cs@.take(i as int));
        assert(longer.last() == c);
        if i > 0 {
            assert(longer[longer.len() - 2] == cs@[i - 1]);
        }
        if c.is_whitespace() {
            if in_word {
                out.push(word);
                word = String::new();
                in_word = false;
                assert(texts(out@) =~= texts(out0).push(word0));
            }
        } else if in_word {
            word.push(c);
            assert(before.drop_last() =~= texts(out@));
            assert(texts(out@).push(word@) =~= words(longer));
        } else {
            word = String::new();
            word.push(c);
            in_word = true;
            assert(word@ =~= seq![c]);
        }
        i = i + 1;
    }
    assert(cs@.take(i as int) =~= cs@);
    if in_word {
        let ghost out0 = out@;
        let ghost word0 = word@;
        out.push(word);
        assert(texts(out@) =~= texts(out0).push(word0));
    }
    out
}

// ── lists of texts ───────────────────────────────────────────────────────

/// The texts of a list of strings.
pub open spec fn texts(v: Seq<String>) -> Seq<Seq<char>> {
    v.map_values(|s: String| s@)
}

/// The text of an optional string.
pub open spec fn opt_text(s: Option<String>) -> Option<Seq<char>> {
    match s {
        Some(t) => Some(t@),
        None => None,
    }
}

/// Whether a list of strings holds `s`.
pub fn holds_text(v: &Vec<String>, s: &str) -> (res: bool)
    ensures
        res == texts(v@).contains(s@),
{
    let mut i: usize = 0;
    while i < v.len()
        invariant
            i <= v@.len(),
            forall|j: int| 0 <= j < i ==> texts(v@)[j] != s@,
        decreases v@.len() - i,
    {
        if same_text(v[i].as_str(), s) {
            assert(texts(v@)[i as int] == s@);
            return true;
        }
        i = i + 1;
    }
    false
}

/// A copy of a list of strings.
pub fn copy_texts(v: &Vec<String>) -> (out: Vec<String>)
    ensures
        out@ == v@,
{
    let mut out: Vec<String> = Vec::new();
    let mut i: usize = 0;
    while i < v.len()
        invariant
            i <= v@.len(),
            out@ == v@.take(i as int),
        decreases v@.len() - i,
    {
        out.push(v[i].clone());
        assert(v@.take(i as int).push(v@[i as int]) == v@.take(i + 1));
        i = i + 1;
    }
    assert(v@.take(i as int) == v@);
    out
}

/// One more digit makes a number ten times as large, and adds the digit.
pub proof fn law_digits_count_in_tens(s: Seq<char>, c: char)
    requires
        '0' <= c <= '9',
    ensures
        digits_value(Seq::empty()) == 0,
        digits_value(s.push(c)) == 10 * digits_value(s) + (c as u32 - '0' as u32),
        is_digit(c),
{
    assert(s.push(c).drop_last() =~= s);
}

/// Decimal notation goes by tens: the digits of the tens, then that of the ones.
pub proof fn law_decimal_goes_by_tens(n: nat, d: nat)
    requires
        d < 10,
        n > 0,
    ensures
        decimal(10 * n + d) == decimal(n).push(decimal(d)[0]),
        decimal(d).len() == 1,
        decimal(d)[0] as u32 == '0' as u32 + d,
{
    assert((10 * n + d) / 10 == n);
    assert((10 * n + d) % 10 == d);
    assert(digit_char(d) as u32 == 48 + d);
}

proof fn lemma_digits(c: char)
    ensures
        is_digit(c) <==> '0' <= c <= '9',
{
}

/// A number is read from digits, behind a plus or not, and from nothing else; one
/// that does not fit is not read.
pub proof fn law_numbers_are_read_from_digits(s: Seq<char>, i: int)
    ensures
        parsed_u64(Seq::empty()) is None,
        parsed_u64(seq!['+']) is None,
        s.len() > 0 && (forall|j: int| 0 <= j < s.len() ==> '0' <= #[trigger] s[j] <= '9')
            && digits_value(s) <= u64::MAX ==> parsed_u64(s) == Some(digits_value(s) as u64)
            && parsed_u64(seq!['+'] + s) == Some(digits_value(s) as u64),
        s.len() > 0 && (forall|j: int| 0 <= j < s.len() ==> '0' <= #[trigger] s[j] <= '9')
            && digits_value(s) > u64::MAX ==> parsed_u64(s) is None,
        0 <= i < s.len() && !('0' <= s[i] <= '9') && (i > 0 || s[i] != '+') ==> parsed_u64(s)
            is None,
{
    assert(seq!['+'].skip(1) =~= Seq::<char>::empty());
    assert((seq!['+'] + s).skip(1) =~= s);
    if s.len() > 0 && (forall|j: int| 0 <= j < s.len() ==> '0' <= #[trigger] s[j] <= '9') {
        assert('0' <= s[0] <= '9');
        assert(s[0] != '+');
        assert forall|j: int| 0 <= j < s.len() implies is_digit(#[trigger] s[j]) by {
            assert('0' <= s[j] <= '9');
        }
    }
    if 0 <= i < s.len() && !('0' <= s[i] <= '9') {
        lemma_digits(s[i]);
        if s[0] == '+' && i > 0 {
            assert(s.skip(1)[i - 1] == s[i]);
        }
    }
}

/// A text has a prefix exactly if it is the prefix and something behind it.
pub proof fn law_prefix_stands_in_front(s: Seq<char>, prefix: Seq<char>, rest: Seq<char>)
    ensures
        has_prefix(prefix + rest, prefix),
        has_prefix(s, prefix) ==> s == prefix + s.skip(prefix.len() as int),
{
    assert((prefix + rest).take(prefix.len() as int) =~= prefix);
    if has_prefix(s, prefix) {
        assert(s =~= s.take(prefix.len() as int) + s.skip(prefix.len() as int));
    }
}

/// A text is found wherever it stands, and is not found where it does not.
pub proof fn law_text_is_found_where_it_stands(
    hay: Seq<char>,
    needle: Seq<char>,
    front: Seq<char>,
    back: Seq<char>,
)
    ensures
        has_text(front + needle + back, needle),
        has_text(hay, needle) ==> exists|a: Seq<char>, b: Seq<char>| hay == #[trigger] ((a
            + needle) + b),
{
    let whole = front + needle + back;
    let at = front.len() as int;
    assert(whole.subrange(at, at + needle.len() as int) =~= needle);
    assert(occurs_at(whole, needle, at));
    if has_text(hay, needle) {
        let k = choose|k: int| occurs_at(hay, needle, k);
        let a = hay.take(k);
        let b = hay.skip(k + needle.len() as int);
        assert(hay =~= (a + needle) + b);
    }
}

/// White space parts words: what stands before it and what stands behind it are
/// split each by itself.
pub proof fn law_white_space_parts_words(a: Seq<char>, c: char, b: Seq<char>)
    requires
        white_space(c),
    ensures
        words(a.push(c) + b) == words(a) + words(b),
    decreases b.len(),
{
    if b.len() == 0 {
        assert(a.push(c) + b =~= a.push(c));
        assert(a.push(c).drop_last() =~= a);
        assert(words(a) + words(b) =~= words(a));
    } else {
        let whole = a.push(c) + b;
        let front = b.drop_last();
        law_white_space_parts_words(a, c, front);
        assert(whole.drop_last() =~= a.push(c) + front);
        assert(whole.last() == b.last());
        let n = whole.len() as int;
        if b.len() >= 2 {
            assert(whole[n - 2] == b[b.len() - 2]);
            lemma_words_end(front);
        } else {
            assert(whole[n - 2] == c);
            assert(front =~= Seq::<char>::empty());
        }
        if !white_space(b.last()) && b.len() >= 2 && !white_space(b[b.len() - 2]) {
            assert(front.last() == b[b.len() - 2]);
            let both = words(a) + words(front);
            assert(both.last() == words(front).last());
            assert(both.drop_last() =~= words(a) + words(front).drop_last());
            assert(words(whole) =~= words(a) + words(b));
        } else {
            assert(words(whole) =~= words(a) + words(b));
        }
    }
}

proof fn lemma_words_end(s: Seq<char>)
    ensures
        s.len() > 0 && !white_space(s.last()) ==> words(s).len() > 0,
{
}

/// A text without white space is one word, itself; an empty one has no words.
pub proof fn law_text_without_white_space_is_a_word(s: Seq<char>)
    requires
        forall|i: int| 0 <= i < s.len() ==> !white_space(#[trigger] s[i]),
    ensures
        s.len() == 0 ==> words(s).len() == 0,
        s.len() > 0 ==> words(s) == seq![s],
    decreases s.len(),
{
    if s.len() > 0 {
        let front = s.drop_last();
        assert(!white_space(s[s.len() - 1]));
        assert forall|i: int| 0 <= i < front.len() implies !white_space(#[trigger] front[i]) by {
            assert(front[i] == s[i]);
        }
        law_text_without_white_space_is_a_word(front);
        if s.len() >= 2 {
            assert(!white_space(s[s.len() - 2]));
            assert(front.push(s.last()) =~= s);
            assert(words(s) =~= seq![s]);
        } else {
            assert(s =~= seq![s.last()]);
            assert(words(front) =~= Seq::<Seq<char>>::empty());
            assert(words(s) =~= seq![s]);
        }
    }
}

/// A list of strings is seen as their texts, one for one.
pub proof fn law_texts_are_seen_one_for_one(v: Seq<String>, i: int, s: Option<String>)
    ensures
        texts(v).len() == v.len(),
        0 <= i < v.len() ==> texts(v)[i] == v[i]@,
        s is Some <==> opt_text(s) is Some,
        s matches Some(t) ==> opt_text(s) == Some(t@),
{
}

} // verus!
