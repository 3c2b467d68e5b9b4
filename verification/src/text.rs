use vstd::prelude::*;

verus! {

/// The characters of a string
pub fn str_chars(s: &str) -> (res: Vec<char>)
    ensures
        res@ == s@,
{
    let n = s.unicode_len();
    let mut chars: Vec<char> = Vec::new();
    let mut i: usize = 0;
    while i < n
        invariant
            i <= n,
            n == s@.len(),
            chars@ == s@.subrange(0, i as int),
        decreases n - i,
    {
        chars.push(s.get_char(i));
        i = i + 1;
        proof {
            assert(chars@ =~= s@.subrange(0, i as int));
        }
    }
    proof {
        assert(chars@ =~= s@);
    }
    chars
}

/// If two character sequences are equal
pub fn chars_eq(a: &[char], b: &[char]) -> (res: bool)
    ensures
        res == (a@ == b@),
{
    if a.len() != b.len() {
        return false;
    }
    let mut i: usize = 0;
    while i < a.len()
        invariant
            i <= a@.len(),
            a@.len() == b@.len(),
            forall|j: int| 0 <= j < i ==> a@[j] == b@[j],
        decreases a@.len() - i,
    {
        if a[i] != b[i] {
            return false;
        }
        i = i + 1;
    }
    proof {
        assert(a@ =~= b@);
    }
    true
}


/// The decimal digit character of a number below 10
pub open spec fn spec_digit_char(d: int) -> char {
    ('0' as int + d) as char
}

/// The decimal representation of a natural number, without leading zeros
pub open spec fn spec_decimal(n: nat) -> Seq<char>
    decreases n,
{
    if n < 10 {
        seq![spec_digit_char(n as int)]
    } else {
        spec_decimal(n / 10) + seq![spec_digit_char((n % 10) as int)]
    }
}

/// The single digit text of a number below 10
pub fn digit_str(d: u64) -> (res: &'static str)
    requires
        d < 10,
    ensures
        res@ == seq![spec_digit_char(d as int)],
{
    match d {
        0 => { proof { reveal_strlit("0"); } "0" },
        1 => { proof { reveal_strlit("1"); } "1" },
        2 => { proof { reveal_strlit("2"); } "2" },
        3 => { proof { reveal_strlit("3"); } "3" },
        4 => { proof { reveal_strlit("4"); } "4" },
        5 => { proof { reveal_strlit("5"); } "5" },
        6 => { proof { reveal_strlit("6"); } "6" },
        7 => { proof { reveal_strlit("7"); } "7" },
        8 => { proof { reveal_strlit("8"); } "8" },
        _ => { proof { reveal_strlit("9"); } "9" },
    }
}

/// The decimal text of a number
pub fn u64_to_string(n: u64) -> (res: String)
    ensures
        res@ == spec_decimal(n as nat),
    decreases n,
{
    if n < 10 {
        String::from_str(digit_str(n))
    } else {
        let mut text = u64_to_string(n / 10);
        text.append(digit_str(n % 10));
        text
    }
}

/// The upper case hexadecimal digit character of a number below 16
pub open spec fn spec_hex_digit(d: int) -> char {
    if d < 10 {
        spec_digit_char(d)
    } else {
        ('A' as int + (d - 10)) as char
    }
}

/// The upper case hexadecimal representation of a natural number, without leading zeros
pub open spec fn spec_hex(n: nat) -> Seq<char>
    decreases n,
{
    if n < 16 {
        seq![spec_hex_digit(n as int)]
    } else {
        spec_hex(n / 16) + seq![spec_hex_digit((n % 16) as int)]
    }
}

/// The single hexadecimal digit text of a number below 16
fn hex_digit_str(d: u64) -> (res: &'static str)
    requires
        d < 16,
    ensures
        res@ == seq![spec_hex_digit(d as int)],
{
    match d {
        10 => { proof { reveal_strlit("A"); } "A" },
        11 => { proof { reveal_strlit("B"); } "B" },
        12 => { proof { reveal_strlit("C"); } "C" },
        13 => { proof { reveal_strlit("D"); } "D" },
        14 => { proof { reveal_strlit("E"); } "E" },
        15 => { proof { reveal_strlit("F"); } "F" },
        _ => digit_str(d),
    }
}

/// The upper case hexadecimal text of a number
pub fn u64_to_hex_string(n: u64) -> (res: String)
    ensures
        res@ == spec_hex(n as nat),
    decreases n,
{
    if n < 16 {
        String::from_str(hex_digit_str(n))
    } else {
        let mut text = u64_to_hex_string(n / 16);
        text.append(hex_digit_str(n % 16));
        text
    }
}

/// The decimal representation of an integer, with a leading minus sign when negative
pub open spec fn spec_signed_decimal(n: int) -> Seq<char> {
    if n < 0 {
        seq!['-'] + spec_decimal((-n) as nat)
    } else {
        spec_decimal(n as nat)
    }
}

/// The decimal text of a signed number
pub fn i32_to_string(n: i32) -> (res: String)
    ensures
        res@ == spec_signed_decimal(n as int),
{
    if n < 0 {
        proof {
            reveal_strlit("-");
        }
        let mut text = String::from_str("-");
        let magnitude: u64 = (-(n as i64)) as u64;
        text.append(u64_to_string(magnitude).as_str());
        text
    } else {
        u64_to_string(n as u64)
    }
}

/// The decimal text of a signed 64 bit number
pub fn i64_to_string(n: i64) -> (res: String)
    ensures
        res@ == spec_signed_decimal(n as int),
{
    if n < 0 {
        proof {
            reveal_strlit("-");
        }
        let mut text = String::from_str("-");
        let magnitude: u64 = if n == i64::MIN { 9_223_372_036_854_775_808u64 } else { (-n) as u64 };
        text.append(u64_to_string(magnitude).as_str());
        text
    } else {
        u64_to_string(n as u64)
    }
}

/// The text of a boolean
pub open spec fn spec_bool_text(b: bool) -> Seq<char> {
    if b {
        seq!['t', 'r', 'u', 'e']
    } else {
        seq!['f', 'a', 'l', 's', 'e']
    }
}

/// The text of a boolean: `true` or `false`
pub fn bool_to_str(b: bool) -> (res: &'static str)
    ensures
        res@ == spec_bool_text(b),
{
    if b {
        proof {
            reveal_strlit("true");
        }
        "true"
    } else {
        proof {
            reveal_strlit("false");
        }
        "false"
    }
}

/// ASCII whitespace: space, tab, line feed, form feed and carriage return
pub open spec fn is_ascii_whitespace(c: char) -> bool {
    c == ' ' || c == '\t' || c == '\n' || c == '\x0C' || c == '\r'
}

/// The words (maximal runs without ASCII whitespace) finished among the first `n` characters, and the word
/// still being read
pub open spec fn words_upto(s: Seq<char>, n: int) -> (Seq<Seq<char>>, Seq<char>)
    decreases n,
{
    if n <= 0 {
        (Seq::empty(), Seq::empty())
    } else {
        let (words, current) = words_upto(s, n - 1);
        if is_ascii_whitespace(s[n - 1]) {
            if current.len() > 0 {
                (words.push(current), Seq::empty())
            } else {
                (words, current)
            }
        } else {
            (words, current.push(s[n - 1]))
        }
    }
}

/// The words of a text: its maximal runs of characters other than ASCII whitespace, in order
pub open spec fn spec_words(s: Seq<char>) -> Seq<Seq<char>> {
    let (words, current) = words_upto(s, s.len() as int);
    if current.len() > 0 {
        words.push(current)
    } else {
        words
    }
}

/// The text of each span of a text
pub open spec fn span_texts(s: Seq<char>, spans: Seq<(usize, usize)>) -> Seq<Seq<char>> {
    Seq::new(spans.len(), |k: int| s.subrange(spans[k].0 as int, spans[k].1 as int))
}

fn is_whitespace_char(c: char) -> (res: bool)
    ensures
        res == is_ascii_whitespace(c),
{
    c == ' ' || c == '\t' || c == '\n' || c == '\x0C' || c == '\r'
}

/// The start and end (exclusive) of each word of a text, in order
pub fn word_spans(s: &[char]) -> (res: Vec<(usize, usize)>)
    ensures
        span_texts(s@, res@) == spec_words(s@),
        forall|k: int| 0 <= k < res@.len() ==> #[trigger] res@[k].0 < res@[k].1 <= s@.len(),
{
    let mut spans: Vec<(usize, usize)> = Vec::new();
    let mut start: usize = 0;
    let mut reading = false;
    let mut i: usize = 0;
    while i < s.len()
        invariant
            i <= s@.len(),
            start <= i,
            span_texts(s@, spans@) == words_upto(s@, i as int).0,
            words_upto(s@, i as int).1 == (if reading { s@.subrange(start as int, i as int) } else { Seq::empty() }),
            reading ==> start < i,
            forall|k: int| 0 <= k < spans@.len() ==> #[trigger] spans@[k].0 < spans@[k].1 <= i,
        decreases s@.len() - i,
    {
        let c = s[i];
        if is_whitespace_char(c) {
            if reading {
                let ghost before = spans@;
                spans.push((start, i));
                reading = false;
                proof {
                    assert(span_texts(s@, spans@) =~= span_texts(s@, before).push(s@.subrange(start as int, i as int)));
                    assert forall|k: int| 0 <= k < spans@.len() implies #[trigger] spans@[k].0 < spans@[k].1 <= i + 1 by {
                        if k < before.len() {
                            assert(spans@[k] == before[k]);
                        }
                    }
                }
            }
        } else {
            if !reading {
                start = i;
                reading = true;
            }
            proof {
                assert(s@.subrange(start as int, i + 1) =~= words_upto(s@, i as int).1.push(c)) by {
                    if words_upto(s@, i as int).1.len() > 0 {
                        assert(s@.subrange(start as int, i as int).push(c) =~= s@.subrange(start as int, i + 1));
                    }
                }
            }
        }
        i += 1;
    }
    if reading {
        let ghost before = spans@;
        spans.push((start, i));
        proof {
            assert(span_texts(s@, spans@) =~= span_texts(s@, before).push(s@.subrange(start as int, i as int)));
            assert forall|k: int| 0 <= k < spans@.len() implies #[trigger] spans@[k].0 < spans@[k].1 <= s@.len() by {
                if k < before.len() {
                    assert(spans@[k] == before[k]);
                }
            }
        }
    }
    proof {
        if !reading {
            assert(span_texts(s@, spans@) == spec_words(s@));
        }
    }
    spans
}

/// The value of a run of decimal digits
pub open spec fn digits_value(s: Seq<char>) -> int
    decreases s.len(),
{
    if s.len() == 0 {
        0
    } else {
        digits_value(s.drop_last()) * 10 + (s.last() as int - '0' as int)
    }
}

/// Every character is a decimal digit
pub open spec fn all_digits(s: Seq<char>) -> bool {
    forall|i: int| 0 <= i < s.len() ==> '0' <= #[trigger] s[i] <= '9'
}

/// The 16 bit unsigned number a text names: an optional `+`, then one or more decimal digits, of a value that fits
pub open spec fn spec_parse_u16(s: Seq<char>) -> Option<u16> {
    let body = if s.len() > 0 && s[0] == '+' { s.drop_first() } else { s };
    if body.len() > 0 && all_digits(body) && digits_value(body) <= 65535 {
        Some(digits_value(body) as u16)
    } else {
        None
    }
}

/// Digits only add to the value
proof fn lemma_digits_value_grows(s: Seq<char>, n: int)
    requires
        all_digits(s),
        0 <= n <= s.len(),
    ensures
        0 <= digits_value(s.subrange(0, n)) <= digits_value(s),
    decreases s.len() - n,
{
    if n < s.len() {
        lemma_digits_value_grows(s, n + 1);
        assert(s.subrange(0, n + 1).drop_last() =~= s.subrange(0, n));
    } else {
        assert(s.subrange(0, n) =~= s);
    }
    lemma_digits_value_nonneg(s.subrange(0, n));
}

/// Digits have a value of at least zero
proof fn lemma_digits_value_nonneg(s: Seq<char>)
    requires
        all_digits(s),
    ensures
        digits_value(s) >= 0,
    decreases s.len(),
{
    if s.len() > 0 {
        assert(all_digits(s.drop_last()));
        lemma_digits_value_nonneg(s.drop_last());
    }
}

/// Parse the 16 bit unsigned number in `s[from..to]`, as Rust's `u16` parsing does
pub fn parse_u16(s: &[char], from: usize, to: usize) -> (res: Option<u16>)
    requires
        from <= to <= s@.len(),
    ensures
        res == spec_parse_u16(s@.subrange(from as int, to as int)),
{
    let ghost text = s@.subrange(from as int, to as int);
    let mut start = from;
    if start < to && s[start] == '+' {
        start += 1;
    }
    let ghost body = s@.subrange(start as int, to as int);
    proof {
        assert(body =~= (if text.len() > 0 && text[0] == '+' { text.drop_first() } else { text }));
    }
    if start == to {
        return None;
    }
    let mut value: u32 = 0;
    let mut i: usize = start;
    while i < to
        invariant
            start <= i <= to <= s@.len(),
            body == s@.subrange(start as int, to as int),
            text == s@.subrange(from as int, to as int),
            body == (if text.len() > 0 && text[0] == '+' { text.drop_first() } else { text }),
            body.len() > 0,
            all_digits(s@.subrange(start as int, i as int)),
            value == digits_value(s@.subrange(start as int, i as int)),
            value <= 65535,
        decreases to - i,
    {
        let c = s[i];
        if c < '0' || c > '9' {
            proof {
                assert(body[i - start] == c);
                assert(!('0' <= body[i - start] <= '9'));
            }
            return None;
        }
        let digit = (c as u32) - ('0' as u32);
        proof {
            assert(s@.subrange(start as int, i + 1).drop_last() =~= s@.subrange(start as int, i as int));
        }
        value = value * 10 + digit;
        proof {
            assert(value == digits_value(s@.subrange(start as int, i + 1)));
        }
        if value > 65535 {
            proof {
                assert(all_digits(s@.subrange(start as int, i + 1)));
                if all_digits(body) {
                    assert(body.subrange(0, i + 1 - start) =~= s@.subrange(start as int, i + 1));
                    lemma_digits_value_grows(body, i + 1 - start);
                }
            }
            return None;
        }
        i += 1;
    }
    proof {
        assert(s@.subrange(start as int, i as int) =~= body);
    }
    Some(value as u16)
}

/// Text has no ASCII whitespace
pub open spec fn no_whitespace(s: Seq<char>) -> bool {
    forall|i: int| 0 <= i < s.len() ==> !is_ascii_whitespace(#[trigger] s[i])
}

/// Words joined by single spaces
pub open spec fn spaced(words: Seq<Seq<char>>) -> Seq<char>
    decreases words.len(),
{
    if words.len() <= 1 {
        if words.len() == 1 {
            words[0]
        } else {
            Seq::empty()
        }
    } else {
        spaced(words.drop_last()) + seq![' '] + words.last()
    }
}

/// The words read so far depend only on the characters read so far
proof fn lemma_words_upto_prefix(s: Seq<char>, t: Seq<char>, n: int)
    requires
        0 <= n <= s.len(),
        n <= t.len(),
        s.subrange(0, n) == t.subrange(0, n),
    ensures
        words_upto(s, n) == words_upto(t, n),
    decreases n,
{
    if n > 0 {
        assert(s[n - 1] == s.subrange(0, n)[n - 1]);
        assert(t[n - 1] == t.subrange(0, n)[n - 1]);
        assert(s.subrange(0, n - 1) =~= s.subrange(0, n).subrange(0, n - 1));
        assert(t.subrange(0, n - 1) =~= t.subrange(0, n).subrange(0, n - 1));
        lemma_words_upto_prefix(s, t, n - 1);
    }
}

/// Reading the characters of a word after `start` adds them to the current word
proof fn lemma_words_upto_word(s: Seq<char>, start: int, j: int, words: Seq<Seq<char>>, current: Seq<char>)
    requires
        0 <= start,
        0 <= j,
        start + j <= s.len(),
        words_upto(s, start) == (words, current),
        no_whitespace(s.subrange(start, start + j)),
    ensures
        words_upto(s, start + j) == (words, current + s.subrange(start, start + j)),
    decreases j,
{
    if j == 0 {
        assert(current + s.subrange(start, start) =~= current);
    } else {
        assert(no_whitespace(s.subrange(start, start + j - 1))) by {
            assert forall|i: int| 0 <= i < j - 1 implies !is_ascii_whitespace(#[trigger] s.subrange(start, start + j - 1)[i]) by {
                assert(s.subrange(start, start + j - 1)[i] == s.subrange(start, start + j)[i]);
            }
        }
        lemma_words_upto_word(s, start, j - 1, words, current);
        assert(!is_ascii_whitespace(s.subrange(start, start + j)[j - 1]));
        assert((current + s.subrange(start, start + j - 1)).push(s[start + j - 1]) =~= current + s.subrange(start, start + j));
    }
}

/// Reading words joined by single spaces finishes all but the last word, which is still being read
proof fn lemma_words_upto_spaced(words: Seq<Seq<char>>)
    requires
        words.len() >= 1,
        forall|k: int| 0 <= k < words.len() ==> #[trigger] words[k].len() > 0 && no_whitespace(words[k]),
    ensures
        words_upto(spaced(words), spaced(words).len() as int) == (words.drop_last(), words.last()),
    decreases words.len(),
{
    let s = spaced(words);
    let w = words.last();
    if words.len() == 1 {
        assert(s == w);
        assert(s.subrange(0, w.len() as int) =~= w);
        lemma_words_upto_word(s, 0, w.len() as int, Seq::empty(), Seq::empty());
        assert(Seq::<char>::empty() + w =~= w);
        assert(words.drop_last() =~= Seq::<Seq<char>>::empty());
    } else {
        let front = words.drop_last();
        let t = spaced(front);
        let l = t.len() as int;
        assert forall|k: int| 0 <= k < front.len() implies #[trigger] front[k].len() > 0 && no_whitespace(front[k]) by {
            assert(front[k] == words[k]);
        }
        lemma_words_upto_spaced(front);
        assert(s == t + seq![' '] + w);
        assert(s.subrange(0, l) =~= t.subrange(0, l));
        lemma_words_upto_prefix(s, t, l);
        assert(t.subrange(0, l) =~= t);
        assert(front.last().len() > 0);
        assert(s[l] == ' ');
        assert(front.drop_last().push(front.last()) =~= front);
        assert(words_upto(s, l + 1) == (front, Seq::<char>::empty()));
        assert(s.subrange(l + 1, l + 1 + w.len()) =~= w);
        lemma_words_upto_word(s, l + 1, w.len() as int, front, Seq::empty());
        assert(Seq::<char>::empty() + w =~= w);
    }
}

/// The words of words joined by single spaces are those words, when none is empty or holds whitespace
pub proof fn lemma_words_of_spaced(words: Seq<Seq<char>>)
    requires
        words.len() >= 1,
        forall|k: int| 0 <= k < words.len() ==> #[trigger] words[k].len() > 0 && no_whitespace(words[k]),
    ensures
        spec_words(spaced(words)) == words,
{
    lemma_words_upto_spaced(words);
    assert(words.last().len() > 0);
    assert(words.drop_last().push(words.last()) =~= words);
}

/// The decimal text of a number: digits only, none of them whitespace, with the number's value
pub proof fn lemma_decimal_digits(n: nat)
    ensures
        spec_decimal(n).len() > 0,
        all_digits(spec_decimal(n)),
        no_whitespace(spec_decimal(n)),
        digits_value(spec_decimal(n)) == n,
    decreases n,
{
    let s = spec_decimal(n);
    let d = (n % 10) as int;
    assert(spec_digit_char(d) as int - '0' as int == d);
    if n < 10 {
        assert(s.drop_last() =~= Seq::<char>::empty());
        assert(digits_value(s) == digits_value(s.drop_last()) * 10 + (s.last() as int - '0' as int));
    } else {
        lemma_decimal_digits(n / 10);
        let front = spec_decimal(n / 10);
        assert(s.drop_last() =~= front);
        assert(digits_value(s) == digits_value(front) * 10 + d);
        assert((n / 10) * 10 + n % 10 == n);
        assert forall|i: int| 0 <= i < s.len() implies '0' <= #[trigger] s[i] <= '9' && !is_ascii_whitespace(s[i]) by {
            if i < front.len() {
                assert(s[i] == front[i]);
            }
        }
    }
}

/// Reading the decimal text of a 16 bit number gives the number back
pub proof fn lemma_parse_decimal(n: u16)
    ensures
        spec_parse_u16(spec_decimal(n as nat)) == Some(n),
        spec_decimal(n as nat).len() > 0,
        no_whitespace(spec_decimal(n as nat)),
{
    lemma_decimal_digits(n as nat);
    assert(spec_decimal(n as nat)[0] != '+');
}

} // verus!
