//! Characters and decimal numbers: the few text operations that the rest of
//! the library needs, with their meaning stated over sequences of characters.
use vstd::prelude::*;
use vstd::string::*;

verus! {

/// Trusted: `String::push` appends one character to the string and changes
/// nothing else of its contents.
pub assume_specification[ String::push ](s: &mut String, c: char)
    ensures
        final(s)@ == old(s)@.push(c),
;

/// The characters with the Unicode `White_Space` property.
pub open spec fn is_white(c: char) -> bool {
    let n = c as u32;
    ||| 0x9 <= n <= 0xD
    ||| n == 0x20
    ||| n == 0x85
    ||| n == 0xA0
    ||| n == 0x1680
    ||| 0x2000 <= n <= 0x200A
    ||| n == 0x2028
    ||| n == 0x2029
    ||| n == 0x202F
    ||| n == 0x205F
    ||| n == 0x3000
}

/// The characters that separate words: tab, line feed, form feed, carriage
/// return and space.
pub open spec fn is_ascii_white(c: char) -> bool {
    let n = c as u32;
    n == 0x9 || n == 0xA || n == 0xC || n == 0xD || n == 0x20
}

/// `s` without the white space it starts with.
pub open spec fn trim_start(s: Seq<char>) -> Seq<char>
    decreases s.len(),
{
    if s.len() > 0 && is_white(s[0]) {
        trim_start(s.drop_first())
    } else {
        s
    }
}

/// `s` without the white space it ends with.
pub open spec fn trim_end(s: Seq<char>) -> Seq<char>
    decreases s.len(),
{
    if s.len() > 0 && is_white(s.last()) {
        trim_end(s.drop_last())
    } else {
        s
    }
}

/// `s` without the white space at either end.
pub open spec fn trimmed(s: Seq<char>) -> Seq<char> {
    trim_end(trim_start(s))
}

/// What `strings` spell, one by one.
pub open spec fn views(strings: Seq<String>) -> Seq<Seq<char>> {
    strings.map_values(|s: String| s@)
}

/// Reading `s` from the left, split at blanks: the words that are complete,
/// and the one that is still being read. `any` takes every white space
/// character for a blank, else only the ASCII ones are.
pub open spec fn split_state(s: Seq<char>, any: bool) -> (Seq<Seq<char>>, Seq<char>)
    decreases s.len(),
{
    if s.len() == 0 {
        (Seq::empty(), Seq::empty())
    } else {
        let (done, word) = split_state(s.drop_last(), any);
        if is_blank(s.last(), any) {
            (complete(done, word), Seq::empty())
        } else {
            (done, word.push(s.last()))
        }
    }
}

pub open spec fn is_blank(c: char, any: bool) -> bool {
    if any { is_white(c) } else { is_ascii_white(c) }
}

/// `words` and after them `word`, where it has a character.
pub open spec fn complete(words: Seq<Seq<char>>, word: Seq<char>) -> Seq<Seq<char>> {
    if word.len() > 0 { words.push(word) } else { words }
}

/// The words of `s`.
pub open spec fn words_of(s: Seq<char>, any: bool) -> Seq<Seq<char>> {
    let (done, word) = split_state(s, any);
    complete(done, word)
}

/// Every word has a character and none holds a blank.
pub proof fn words_are_solid(s: Seq<char>, any: bool)
    ensures
        forall|i: int, j: int|
            0 <= i < words_of(s, any).len() && 0 <= j < words_of(s, any)[i].len() ==> !is_blank(
                #[trigger] words_of(s, any)[i][j],
                any,
            ),
        forall|i: int| 0 <= i < words_of(s, any).len() ==> (#[trigger] words_of(s, any)[i]).len() > 0,
        forall|j: int|
            0 <= j < split_state(s, any).1.len() ==> !is_blank(#[trigger] split_state(s, any).1[j], any),
    decreases s.len(),
{
    if s.len() > 0 {
        words_are_solid(s.drop_last(), any);
        let (done, word) = split_state(s.drop_last(), any);
        let before = words_of(s.drop_last(), any);
        assert forall|i: int| 0 <= i < done.len() implies #[trigger] done[i] == before[i] by {}
        let after = words_of(s, any);
        if is_blank(s.last(), any) {
            assert(after == before);
        } else {
            assert(after == done.push(word.push(s.last())));
        }
    }
}

/// The words of `s`, one after the other, are `s` without its blanks.
pub proof fn words_keep_every_character(s: Seq<char>, any: bool)
    ensures
        words_of(s, any).flatten() == s.filter(|c: char| !is_blank(c, any)),
    decreases s.len(),
{
    reveal(Seq::filter);
    let keep = |c: char| !is_blank(c, any);
    if s.len() == 0 {
        assert(words_of(s, any) =~= Seq::<Seq<char>>::empty());
        assert(words_of(s, any).flatten() =~= Seq::<char>::empty());
        assert(s.filter(keep) =~= Seq::<char>::empty());
    } else {
        words_keep_every_character(s.drop_last(), any);
        let (done, word) = split_state(s.drop_last(), any);
        let before = words_of(s.drop_last(), any);
        if is_blank(s.last(), any) {
            assert(words_of(s, any) == before);
        } else {
            let longer = word.push(s.last());
            assert(words_of(s, any) == done.push(longer));
            done.lemma_flatten_push(longer);
            if word.len() > 0 {
                done.lemma_flatten_push(word);
            }
            assert(done.flatten() + longer =~= (done.flatten() + word).push(s.last()));
            assert(done.flatten() + word =~= before.flatten());
        }
    }
}

/// An ASCII capital as its small letter; any other character as it is.
pub open spec fn ascii_lower(c: char) -> char {
    if 'A' <= c <= 'Z' {
        ((c as u8) + 32) as u8 as char
    } else {
        c
    }
}

/// `s` with its ASCII capitals as small letters.
pub open spec fn lowered(s: Seq<char>) -> Seq<char> {
    s.map_values(|c: char| ascii_lower(c))
}

/// The decimal digit `d`.
pub open spec fn digit_char(d: nat) -> char {
    (48 + d) as u8 as char
}

/// `n` in decimal notation, without leading zeros.
pub open spec fn decimal_of(n: nat) -> Seq<char>
    decreases n,
{
    if n < 10 {
        seq![digit_char(n)]
    } else {
        decimal_of(n / 10).push(digit_char(n % 10))
    }
}

/// `n` in decimal notation, with a sign where it is negative.
pub open spec fn signed_decimal_of(n: int) -> Seq<char> {
    if n < 0 {
        seq!['-'] + decimal_of((-n) as nat)
    } else {
        decimal_of(n as nat)
    }
}

pub open spec fn is_digit(c: char) -> bool {
    '0' <= c <= '9'
}

pub open spec fn all_digits(s: Seq<char>) -> bool {
    forall|i: int| 0 <= i < s.len() ==> is_digit(#[trigger] s[i])
}

/// The number that a run of decimal digits stands for.
pub open spec fn digits_value(s: Seq<char>) -> nat
    decreases s.len(),
{
    if s.len() == 0 {
        0
    } else {
        digits_value(s.drop_last()) * 10 + ((s.last() as u32 - 48) as nat)
    }
}

/// The unsigned number that `s` spells: an optional plus sign and at least one
/// digit, nothing else.
pub open spec fn number_of(s: Seq<char>) -> Option<nat> {
    let digits = if s.len() > 0 && s[0] == '+' { s.drop_first() } else { s };
    if digits.len() > 0 && all_digits(digits) {
        Some(digits_value(digits))
    } else {
        None
    }
}

pub fn white_space(c: char) -> (r: bool)
    ensures
        r == is_white(c),
{
    let n: u32 = c as u32;
    (0x9 <= n && n <= 0xD) || n == 0x20 || n == 0x85 || n == 0xA0 || n == 0x1680 || (0x2000 <= n && n
        <= 0x200A) || n == 0x2028 || n == 0x2029 || n == 0x202F || n == 0x205F || n == 0x3000
}

pub fn ascii_white_space(c: char) -> (r: bool)
    ensures
        r == is_ascii_white(c),
{
    let n: u32 = c as u32;
    n == 0x9 || n == 0xA || n == 0xC || n == 0xD || n == 0x20
}

pub fn to_ascii_lower(c: char) -> (r: char)
    ensures
        r == ascii_lower(c),
{
    if 'A' <= c && c <= 'Z' {
        ((c as u8) + 32) as char
    } else {
        c
    }
}

/// The characters of `s`, in order.
pub fn chars_of(s: &str) -> (v: Vec<char>)
    ensures
        v@ == s@,
{
    let mut v: Vec<char> = Vec::new();
    broadcast use axiom_spec_iter;
    for c in it: s.chars()
        invariant
            it.seq() == s@,
            v@ == s@.subrange(0, it.index() as int),
    {
        v.push(c);
        proof {
            assert(s@.subrange(0, it.index() + 1) =~= s@.subrange(0, it.index() as int).push(c));
        }
    }
    proof {
        assert(s@.subrange(0, s@.len() as int) =~= s@);
    }
    v
}

/// The string made of the characters `v[from..to]`.
pub fn string_of(v: &Vec<char>, from: usize, to: usize) -> (r: String)
    requires
        from <= to <= v.len(),
    ensures
        r@ == v@.subrange(from as int, to as int),
{
    let mut r = String::new();
    let mut i: usize = from;
    proof {
        assert(v@.subrange(from as int, from as int) =~= Seq::<char>::empty());
    }
    while i < to
        invariant
            from <= i <= to <= v.len(),
            r@ == v@.subrange(from as int, i as int),
        decreases to - i,
    {
        r.push(v[i]);
        proof {
            assert(v@.subrange(from as int, i + 1) =~= v@.subrange(from as int, i as int).push(v@[i as int]));
        }
        i = i + 1;
    }
    r
}

proof fn lemma_trim_start_skips(s: Seq<char>, i: int)
    requires
        0 <= i <= s.len(),
        forall|k: int| 0 <= k < i ==> is_white(#[trigger] s[k]),
    ensures
        trim_start(s) == trim_start(s.subrange(i, s.len() as int)),
    decreases i,
{
    if i == 0 {
        assert(s.subrange(0, s.len() as int) =~= s);
    } else {
        assert(is_white(s[0]));
        let rest = s.drop_first();
        assert forall|k: int| 0 <= k < i - 1 implies is_white(#[trigger] rest[k]) by {
            assert(is_white(s[k + 1]));
        }
        lemma_trim_start_skips(rest, i - 1);
        assert(rest.subrange(i - 1, rest.len() as int) =~= s.subrange(i, s.len() as int));
    }
}

proof fn lemma_trim_end_skips(s: Seq<char>, n: int)
    requires
        0 <= n <= s.len(),
        forall|k: int| n <= k < s.len() ==> is_white(#[trigger] s[k]),
    ensures
        trim_end(s) == trim_end(s.subrange(0, n)),
    decreases s.len() - n,
{
    if n == s.len() {
        assert(s.subrange(0, n) =~= s);
    } else {
        assert(is_white(s[s.len() - 1]));
        let rest = s.drop_last();
        assert forall|k: int| n <= k < rest.len() implies is_white(#[trigger] rest[k]) by {
            assert(is_white(s[k]));
        }
        lemma_trim_end_skips(rest, n);
        assert(rest.subrange(0, n) =~= s.subrange(0, n));
    }
}

/// The characters of `s` without the white space at either end.
pub fn trim(s: &str) -> (r: Vec<char>)
    ensures
        r@ == trimmed(s@),
{
    let v = chars_of(s);
    let n: usize = v.len();
    let mut i: usize = 0;
    while i < n && white_space(v[i])
        invariant
            n == v.len(),
            i <= n,
            forall|k: int| 0 <= k < i ==> is_white(#[trigger] v@[k]),
        decreases n - i,
    {
        i = i + 1;
    }
    let ghost start = v@.subrange(i as int, n as int);
    proof {
        lemma_trim_start_skips(v@, i as int);
        assert(i < n ==> start[0] == v@[i as int]);
        assert(trim_start(v@) == start);
    }
    let mut e: usize = n;
    while e > i && white_space(v[e - 1])
        invariant
            n == v.len(),
            i <= e <= n,
            forall|k: int| e <= k < n ==> is_white(#[trigger] v@[k]),
        decreases e,
    {
        e = e - 1;
    }
    proof {
        assert forall|k: int| e - i <= k < start.len() implies is_white(#[trigger] start[k]) by {
            assert(is_white(v@[k + i]));
        }
        lemma_trim_end_skips(start, e - i);
        let core = start.subrange(0, e - i);
        assert(core =~= v@.subrange(i as int, e as int));
        assert(core.len() > 0 ==> core.last() == v@[e - 1]);
        assert(trim_end(core) == core);
    }
    let mut r: Vec<char> = Vec::new();
    let mut k: usize = i;
    while k < e
        invariant
            n == v.len(),
            i <= k <= e <= n,
            r@ == v@.subrange(i as int, k as int),
        decreases e - k,
    {
        r.push(v[k]);
        proof {
            assert(v@.subrange(i as int, k + 1) =~= v@.subrange(i as int, k as int).push(v@[k as int]));
        }
        k = k + 1;
    }
    r
}

/// Whether `v` spells `s`.
pub fn chars_eq(v: &Vec<char>, s: &str) -> (r: bool)
    ensures
        r == (v@ == s@),
{
    let w = chars_of(s);
    if v.len() != w.len() {
        return false;
    }
    let mut i: usize = 0;
    while i < v.len()
        invariant
            i <= v.len(),
            v.len() == w.len(),
            w@ == s@,
            forall|k: int| 0 <= k < i ==> v@[k] == w@[k],
        decreases v.len() - i,
    {
        if v[i] != w[i] {
            return false;
        }
        i = i + 1;
    }
    proof {
        assert(v@ =~= w@);
    }
    true
}

/// The words of `s`: see [`words_of`].
pub fn split_words(s: &Vec<char>, any: bool) -> (r: Vec<String>)
    ensures
        views(r@) == words_of(s@, any),
{
    let mut r: Vec<String> = Vec::new();
    let mut word = String::new();
    let mut i: usize = 0;
    proof {
        assert(s@.subrange(0, 0) =~= Seq::<char>::empty());
        assert(views(r@) =~= Seq::<Seq<char>>::empty());
    }
    while i < s.len()
        invariant
            i <= s.len(),
            split_state(s@.subrange(0, i as int), any) == (views(r@), word@),
        decreases s.len() - i,
    {
        let c = s[i];
        proof {
            let next = s@.subrange(0, i + 1);
            assert(next.drop_last() =~= s@.subrange(0, i as int));
            assert(next.last() == c);
        }
        let ghost words = r@;
        let blank = if any {
            white_space(c)
        } else {
            ascii_white_space(c)
        };
        if blank {
            if word.as_str().unicode_len() > 0 {
                proof {
                    assert(views(r@.push(word)) =~= views(r@).push(word@));
                }
                r.push(word);
                word = String::new();
            } else {
                proof {
                    assert(word@ =~= Seq::<char>::empty());
                }
            }
        } else {
            word.push(c);
        }
        i = i + 1;
    }
    proof {
        assert(s@.subrange(0, i as int) =~= s@);
    }
    if word.as_str().unicode_len() > 0 {
        proof {
            assert(views(r@.push(word)) =~= views(r@).push(word@));
        }
        r.push(word);
    }
    r
}

/// Whether two strings have the same characters.
pub fn str_eq(a: &str, b: &str) -> (r: bool)
    ensures
        r == (a@ == b@),
{
    let v = chars_of(a);
    chars_eq(&v, b)
}

/// Whether two strings are equal but for the case of ASCII letters.
pub fn eq_ignore_ascii_case(a: &str, b: &str) -> (r: bool)
    ensures
        r == (lowered(a@) == lowered(b@)),
{
    let v = chars_of(a);
    let w = chars_of(b);
    if v.len() != w.len() {
        proof {
            assert(lowered(a@).len() != lowered(b@).len());
        }
        return false;
    }
    let mut i: usize = 0;
    while i < v.len()
        invariant
            i <= v.len(),
            v.len() == w.len(),
            v@ == a@,
            w@ == b@,
            forall|k: int| 0 <= k < i ==> ascii_lower(v@[k]) == ascii_lower(w@[k]),
        decreases v.len() - i,
    {
        if to_ascii_lower(v[i]) != to_ascii_lower(w[i]) {
            proof {
                assert(lowered(a@)[i as int] != lowered(b@)[i as int]);
            }
            return false;
        }
        i = i + 1;
    }
    proof {
        assert(lowered(a@) =~= lowered(b@));
    }
    true
}

/// `n` in decimal notation.
pub fn decimal(n: u64) -> (r: String)
    ensures
        r@ == decimal_of(n as nat),
    decreases n,
{
    if n < 10 {
        let mut s = String::new();
        s.push((48 + n as u8) as char);
        proof {
            assert(s@ =~= seq![digit_char(n as nat)]);
        }
        s
    } else {
        let mut s = decimal(n / 10);
        s.push((48 + (n % 10) as u8) as char);
        s
    }
}

/// `n` in decimal notation, with its sign where it is negative.
pub fn signed_decimal(n: i64) -> (r: String)
    ensures
        r@ == signed_decimal_of(n as int),
{
    if n < 0 {
        let mut s = String::new();
        s.push('-');
        let magnitude: u64 = (-(n + 1)) as u64 + 1;
        s.append(decimal(magnitude).as_str());
        proof {
            assert(seq!['-'] =~= Seq::<char>::empty().push('-'));
        }
        s
    } else {
        decimal(n as u64)
    }
}

proof fn lemma_digits_value_grows(s: Seq<char>, i: int)
    requires
        0 <= i <= s.len(),
        forall|k: int| 0 <= k < s.len() ==> is_digit(#[trigger] s[k]),
    ensures
        digits_value(s.subrange(0, i)) <= digits_value(s),
    decreases s.len() - i,
{
    if i == s.len() {
        assert(s.subrange(0, i) =~= s);
    } else {
        let next = s.subrange(0, i + 1);
        assert(next.drop_last() =~= s.subrange(0, i));
        assert(is_digit(s[i]));
        lemma_digits_value_grows(s, i + 1);
    }
}

/// The number that `v[from..]` spells, where it fits a `usize`.
pub fn parse_usize(v: &Vec<char>, from: usize) -> (r: Option<usize>)
    requires
        from <= v.len(),
    ensures
        match number_of(v@.subrange(from as int, v.len() as int)) {
            Some(n) => if n <= usize::MAX { r == Some(n as usize) } else { r is None },
            None => r is None,
        },
{
    let n: usize = v.len();
    let ghost s = v@.subrange(from as int, n as int);
    let start: usize = if from < n && v[from] == '+' { from + 1 } else { from };
    let ghost digits = v@.subrange(start as int, n as int);
    proof {
        if from < n && v@[from as int] == '+' {
            assert(s[0] == '+');
            assert(digits =~= s.drop_first());
        } else {
            assert(digits =~= s);
            assert(s.len() > 0 ==> s[0] == v@[from as int]);
        }
    }
    if start == n {
        return None;
    }
    let mut value: usize = 0;
    let mut i: usize = start;
    proof {
        assert(digits.subrange(0, 0) =~= Seq::<char>::empty());
    }
    while i < n
        invariant
            from <= start <= i <= n,
            n == v.len(),
            digits == v@.subrange(start as int, n as int),
            digits.len() > 0,
            (number_of(s) is Some) == all_digits(digits),
            number_of(s) is Some ==> number_of(s) == Some(digits_value(digits)),
            s == v@.subrange(from as int, n as int),
            forall|k: int| 0 <= k < i - start ==> is_digit(#[trigger] digits[k]),
            value == digits_value(digits.subrange(0, i - start)),
        decreases n - i,
    {
        let c = v[i];
        let ghost k = i - start;
        proof {
            assert(digits[k] == c);
        }
        if !('0' <= c && c <= '9') {
            return None;
        }
        let d: usize = (c as u32 - 48) as usize;
        proof {
            let next = digits.subrange(0, k + 1);
            assert(next.drop_last() =~= digits.subrange(0, k));
            assert(next.last() == c);
            assert(digits_value(next) == value * 10 + d);
            if all_digits(digits) {
                lemma_digits_value_grows(digits, k + 1);
            }
        }
        match value.checked_mul(10) {
            None => {
                return None;
            },
            Some(tens) => match tens.checked_add(d) {
                None => {
                    return None;
                },
                Some(total) => {
                    value = total;
                },
            },
        }
        i = i + 1;
    }
    proof {
        assert(digits.subrange(0, n - start) =~= digits);
    }
    Some(value)
}

/// The number that `s` spells: an optional sign and at least one digit, nothing
/// else.
pub open spec fn signed_number_of(s: Seq<char>) -> Option<int> {
    if s.len() > 0 && s[0] == '-' {
        let digits = s.drop_first();
        if digits.len() > 0 && all_digits(digits) {
            Some(-(digits_value(digits) as int))
        } else {
            None
        }
    } else {
        match number_of(s) {
            Some(n) => Some(n as int),
            None => None,
        }
    }
}

/// The number that `v[from..]` spells, where it fits an `i32`.
pub fn parse_i32(v: &Vec<char>, from: usize) -> (r: Option<i32>)
    requires
        from <= v.len(),
    ensures
        match signed_number_of(v@.subrange(from as int, v.len() as int)) {
            Some(n) => if i32::MIN <= n <= i32::MAX {
                r == Some(n as i32)
            } else {
                r is None
            },
            None => r is None,
        },
{
    let n: usize = v.len();
    let ghost s = v@.subrange(from as int, n as int);
    if from < n && v[from] == '-' {
        let ghost digits = v@.subrange(from + 1, n as int);
        proof {
            assert(s[0] == '-');
            assert(digits =~= s.drop_first());
        }
        if from + 1 < n && v[from + 1] == '+' {
            proof {
                assert(digits[0] == '+');
                assert(!is_digit(digits[0]));
            }
            return None;
        }
        proof {
            assert(digits.len() > 0 ==> digits[0] == v@[from + 1]);
        }
        match parse_usize(v, from + 1) {
            Some(magnitude) => if magnitude <= 2147483648 {
                Some((0 - magnitude as i64) as i32)
            } else {
                None
            },
            None => None,
        }
    } else {
        proof {
            assert(s.len() > 0 ==> s[0] == v@[from as int]);
        }
        match parse_usize(v, from) {
            Some(magnitude) => if magnitude <= 2147483647 {
                Some(magnitude as i32)
            } else {
                None
            },
            None => None,
        }
    }
}

/// Whether `part` stands in `s` at `i`.
pub open spec fn stands_at(s: Seq<char>, part: Seq<char>, i: int) -> bool {
    0 <= i && i + part.len() <= s.len() && s.subrange(i, i + part.len()) == part
}

/// Whether `part` stands anywhere in `s`.
pub open spec fn holds(s: Seq<char>, part: Seq<char>) -> bool {
    exists|i: int| #[trigger] stands_at(s, part, i)
}

/// Whether `part` stands in `v` at `at`.
pub fn chars_at(v: &Vec<char>, part: &Vec<char>, at: usize) -> (r: bool)
    requires
        at <= v.len(),
    ensures
        r == stands_at(v@, part@, at as int),
{
    if v.len() - at < part.len() {
        return false;
    }
    let mut i: usize = 0;
    while i < part.len()
        invariant
            i <= part.len(),
            at <= v.len(),
            v.len() - at >= part.len(),
            forall|k: int| 0 <= k < i ==> v@[at + k] == part@[k],
        decreases part.len() - i,
    {
        if v[at + i] != part[i] {
            proof {
                let there = v@.subrange(at as int, at + part.len());
                assert(there[i as int] == v@[at + i]);
            }
            return false;
        }
        i = i + 1;
    }
    proof {
        assert(v@.subrange(at as int, at + part.len()) =~= part@);
    }
    true
}

/// Whether `part` stands anywhere in `v`.
pub fn chars_hold(v: &Vec<char>, part: &Vec<char>) -> (r: bool)
    ensures
        r == holds(v@, part@),
{
    let mut i: usize = 0;
    while i < v.len()
        invariant
            i <= v.len(),
            forall|k: int| 0 <= k < i ==> !#[trigger] stands_at(v@, part@, k),
        decreases v.len() - i,
    {
        if chars_at(v, part, i) {
            return true;
        }
        i = i + 1;
    }
    chars_at(v, part, i)
}

pub(crate) proof fn lemma_decimal_is_not_empty(n: nat)
    ensures
        decimal_of(n).len() >= 1,
    decreases n,
{
    if n >= 10 {
        lemma_decimal_is_not_empty(n / 10);
    }
}

/// A number that is written down and read again is the same; it is written in digits
/// alone, and without a zero in front unless it is zero.
pub proof fn numbers_are_read_as_they_are_written(n: nat)
    ensures
        all_digits(decimal_of(n)),
        digits_value(decimal_of(n)) == n,
        number_of(decimal_of(n)) == Some(n),
        n > 0 ==> decimal_of(n)[0] != '0',
    decreases n,
{
    lemma_decimal_is_not_empty(n);
    if n < 10 {
        assert(digit_char(n) as u32 == 48 + n);
        let s = seq![digit_char(n)];
        assert(s.drop_last() =~= Seq::<char>::empty());
        assert(s.last() == digit_char(n));
        assert(digits_value(s.drop_last()) == 0);
    } else {
        let head = decimal_of(n / 10);
        numbers_are_read_as_they_are_written(n / 10);
        let d = digit_char(n % 10);
        assert(d as u32 == 48 + n % 10);
        let s = head.push(d);
        assert(s.drop_last() =~= head);
        assert forall|i: int| 0 <= i < s.len() implies is_digit(#[trigger] s[i]) by {
            if i < head.len() {
                assert(s[i] == head[i]);
            }
        }
        lemma_decimal_is_not_empty(n / 10);
        assert(s[0] == head[0]);
    }
    let s = decimal_of(n);
    assert(is_digit(s[0]));
}

/// The same for numbers with a sign.
pub proof fn signed_numbers_are_read_as_they_are_written(n: int)
    ensures
        signed_number_of(signed_decimal_of(n)) == Some(n),
{
    if n < 0 {
        let digits = decimal_of((-n) as nat);
        numbers_are_read_as_they_are_written((-n) as nat);
        lemma_decimal_is_not_empty((-n) as nat);
        assert((seq!['-'] + digits).drop_first() =~= digits);
    } else {
        numbers_are_read_as_they_are_written(n as nat);
        lemma_decimal_is_not_empty(n as nat);
        assert(is_digit(decimal_of(n as nat)[0]));
    }
}

/// Small letters are kept, capital ones become small, and nothing else changes.
pub proof fn letters_are_made_small(c: char)
    ensures
        65 <= c as u32 <= 90 ==> ascii_lower(c) as u32 == c as u32 + 32,
        !(65 <= c as u32 <= 90) ==> ascii_lower(c) == c,
        ascii_lower(ascii_lower(c)) == ascii_lower(c),
{
}

/// What is left after trimming begins and ends with no white space, and is a part of the
/// text beyond which there is nothing but white space.
pub proof fn trimming_takes_only_white_space(s: Seq<char>)
    ensures
        ({
            let t = trimmed(s);
            &&& t.len() > 0 ==> !is_white(t[0]) && !is_white(t.last())
            &&& exists|from: int| #[trigger] is_trimmed_from(s, t, from)
        }),
{
    lemma_trim_start(s);
    let mid = trim_start(s);
    lemma_trim_end(mid);
    let t = trim_end(mid);
    let from = s.len() - mid.len();
    assert(t =~= s.subrange(from, from + t.len()));
    assert forall|i: int| from + t.len() <= i < s.len() implies is_white(#[trigger] s[i]) by {
        assert(mid[i - from] == s[i]);
    }
    assert(is_trimmed_from(s, t, from));
    if t.len() > 0 {
        assert(t[0] == mid[0]);
    }
}

/// Whether `t` is the part of `s` from `from` on, with only white space round it.
pub open spec fn is_trimmed_from(s: Seq<char>, t: Seq<char>, from: int) -> bool {
    &&& 0 <= from
    &&& from + t.len() <= s.len()
    &&& t == s.subrange(from, from + t.len())
    &&& forall|i: int| 0 <= i < from ==> is_white(#[trigger] s[i])
    &&& forall|i: int| from + t.len() <= i < s.len() ==> is_white(#[trigger] s[i])
}

proof fn lemma_trim_start(s: Seq<char>)
    ensures
        ({
            let t = trim_start(s);
            let from = s.len() - t.len();
            &&& t.len() <= s.len()
            &&& t == s.subrange(from, s.len() as int)
            &&& forall|i: int| 0 <= i < from ==> is_white(#[trigger] s[i])
            &&& t.len() > 0 ==> !is_white(t[0])
        }),
    decreases s.len(),
{
    if s.len() > 0 && is_white(s[0]) {
        let rest = s.drop_first();
        lemma_trim_start(rest);
        let t = trim_start(rest);
        let from = s.len() - t.len();
        assert(t =~= s.subrange(from, s.len() as int));
        assert forall|i: int| 0 <= i < from implies is_white(#[trigger] s[i]) by {
            if i > 0 {
                assert(rest[i - 1] == s[i]);
            }
        }
    } else {
        assert(s =~= s.subrange(0, s.len() as int));
    }
}

proof fn lemma_trim_end(s: Seq<char>)
    ensures
        ({
            let t = trim_end(s);
            &&& t.len() <= s.len()
            &&& t == s.subrange(0, t.len() as int)
            &&& forall|i: int| t.len() <= i < s.len() ==> is_white(#[trigger] s[i])
            &&& t.len() > 0 ==> !is_white(t.last())
        }),
    decreases s.len(),
{
    if s.len() > 0 && is_white(s.last()) {
        let rest = s.drop_last();
        lemma_trim_end(rest);
        let t = trim_end(rest);
        assert(t =~= s.subrange(0, t.len() as int));
        assert forall|i: int| t.len() <= i < s.len() implies is_white(#[trigger] s[i]) by {
            if i < rest.len() {
                assert(rest[i] == s[i]);
            }
        }
    } else {
        assert(s =~= s.subrange(0, s.len() as int));
    }
}

/// Blanks, tabs and line ends are white space; letters, digits and signs are not.
pub proof fn white_space_is_white(c: char)
    ensures
        c == ' ' || c == '\t' || c == '\n' || c == '\r' ==> is_white(c) && is_ascii_white(c),
        33 <= c as u32 <= 126 ==> !is_white(c) && !is_ascii_white(c),
{
}

/// A part stands where the text has its characters, one for one.
pub proof fn a_part_stands_where_its_characters_are(s: Seq<char>, part: Seq<char>, i: int)
    requires
        0 <= i,
        i + part.len() <= s.len(),
    ensures
        stands_at(s, part, i) <==> forall|k: int| 0 <= k < part.len() ==> s[i + k] == #[trigger] part[k],
        stands_at(s, part, i) ==> holds(s, part),
{
    if stands_at(s, part, i) {
        assert forall|k: int| 0 <= k < part.len() implies s[i + k] == #[trigger] part[k] by {
            assert(s.subrange(i, i + part.len())[k] == s[i + k]);
        }
    }
    if forall|k: int| 0 <= k < part.len() ==> s[i + k] == #[trigger] part[k] {
        assert(s.subrange(i, i + part.len()) =~= part);
    }
}

} // verus!
