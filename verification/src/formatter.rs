//! The log formatter.
//!
//! A log record becomes a structured entry — level name, message, optional
//! timestamp, source location and module path, and a metadata map — and the
//! entry is rendered in one of the three output formats. The message may
//! carry `key=value` words; they are lifted out of the message text into
//! the metadata, with values classified as integers, numbers, booleans or
//! strings.

use vstd::prelude::*;
use std::fmt::Write;
use crate::logging::{Level, OutputFormat};
use crate::strutil::{dec_digits, dec_int, i64_to_dec, push_char, str_eq, u64_to_dec};

verus! {

/// The display name of a level.
pub open spec fn level_name(l: Level) -> Seq<char> {
    match l {
        Level::Error => "ERROR"@,
        Level::Warn => "WARN"@,
        Level::Info => "INFO"@,
        Level::Debug => "DEBUG"@,
        Level::Trace => "TRACE"@,
    }
}

/// The display name of a level.
pub fn level_string(l: Level) -> (r: String)
    ensures
        r@ == level_name(l),
{
    match l {
        Level::Error => "ERROR".to_owned(),
        Level::Warn => "WARN".to_owned(),
        Level::Info => "INFO".to_owned(),
        Level::Debug => "DEBUG".to_owned(),
        Level::Trace => "TRACE".to_owned(),
    }
}

/// One log call, as plain values: what the logging facade hands the logger.
#[derive(Debug)]
pub struct LogRecord {
    pub level: Level,
    pub message: String,
    pub file: Option<String>,
    pub line: Option<u32>,
    pub module: Option<String>,
}

/// A metadata value: a string, an integer, some other number (kept as its
/// decimal rendering), or a boolean.
#[derive(Debug)]
pub enum LogValue {
    Str(String),
    Int(i64),
    NumToken(String),
    Bool(bool),
}

impl Clone for LogValue {
    fn clone(&self) -> (res: Self)
        ensures
            res == *self,
    {
        match self {
            LogValue::Str(s) => LogValue::Str(s.clone()),
            LogValue::Int(n) => LogValue::Int(*n),
            LogValue::NumToken(t) => LogValue::NumToken(t.clone()),
            LogValue::Bool(b) => LogValue::Bool(*b),
        }
    }
}

/// The mathematical shape of a [`LogValue`].
pub ghost enum LogValueModel {
    Str(Seq<char>),
    Int(int),
    NumToken(Seq<char>),
    Bool(bool),
}

/// What a metadata value is, mathematically.
pub open spec fn model_of(v: LogValue) -> LogValueModel {
    match v {
        LogValue::Str(s) => LogValueModel::Str(s@),
        LogValue::Int(n) => LogValueModel::Int(n as int),
        LogValue::NumToken(t) => LogValueModel::NumToken(t@),
        LogValue::Bool(b) => LogValueModel::Bool(b),
    }
}

/// The models of a metadata list.
pub open spec fn meta_models(entries: Seq<(String, LogValue)>) -> Seq<(Seq<char>, LogValueModel)> {
    entries.map_values(|p: (String, LogValue)| (p.0@, model_of(p.1)))
}

/// The index of the first occurrence of `c` in `s`, or -1.
pub open spec fn find_char(s: Seq<char>, c: char) -> int
    decreases s.len(),
{
    if s.len() == 0 {
        -1
    } else if s[0] == c {
        0
    } else {
        let r = find_char(s.drop_first(), c);
        if r < 0 {
            -1
        } else {
            r + 1
        }
    }
}

proof fn lemma_find_char_at(s: Seq<char>, c: char, i: int)
    requires
        0 <= i <= s.len(),
        forall|j: int| 0 <= j < i ==> s[j] != c,
        i < s.len() ==> s[i] == c,
    ensures
        i < s.len() ==> find_char(s, c) == i,
        i == s.len() ==> find_char(s, c) == -1,
    decreases i,
{
    if s.len() == 0 {
    } else if i == 0 {
    } else {
        assert(forall|j: int| 0 <= j < i - 1 ==> s.drop_first()[j] == s[j + 1]);
        assert(i - 1 < s.drop_first().len() ==> s.drop_first()[i - 1] == s[i]);
        lemma_find_char_at(s.drop_first(), c, i - 1);
    }
}

/// The first occurrence of `c` in `s`, if any.
pub fn find_char_index(s: &str, c: char) -> (r: Option<usize>)
    ensures
        match r {
            Some(i) => i < s@.len() && find_char(s@, c) == i,
            None => find_char(s@, c) == -1,
        },
{
    let len = s.unicode_len();
    let mut i: usize = 0;
    while i < len
        invariant
            i <= len,
            len == s@.len(),
            forall|j: int| 0 <= j < i ==> s@[j] != c,
        decreases len - i,
    {
        if s.get_char(i) == c {
            proof {
                lemma_find_char_at(s@, c, i as int);
            }
            return Some(i);
        }
        i = i + 1;
    }
    proof {
        lemma_find_char_at(s@, c, len as int);
    }
    None
}

/// `s` split on single spaces, empty pieces kept.
pub open spec fn split_spaces(s: Seq<char>) -> Seq<Seq<char>>
    decreases s.len(),
{
    let f = find_char(s, ' ');
    if f < 0 || f >= s.len() {
        seq![s]
    } else {
        seq![s.take(f)] + split_spaces(s.skip(f + 1))
    }
}

/// The pieces joined with single spaces.
pub open spec fn join_spaces(parts: Seq<Seq<char>>) -> Seq<char>
    decreases parts.len(),
{
    if parts.len() == 0 {
        Seq::empty()
    } else if parts.len() == 1 {
        parts[0]
    } else {
        join_spaces(parts.drop_last()) + seq![' '] + parts.last()
    }
}

/// The views of a list of strings.
pub open spec fn string_views(v: Seq<String>) -> Seq<Seq<char>> {
    v.map_values(|x: String| x@)
}

/// Split `s` on single spaces, keeping empty words.
pub fn split_tokens(s: &str) -> (r: Vec<String>)
    ensures
        string_views(r@) == split_spaces(s@),
    decreases s@.len(),
{
    let len = s.unicode_len();
    match find_char_index(s, ' ') {
        None => {
            let mut r: Vec<String> = Vec::new();
            r.push(s.to_owned());
            proof {
                assert(string_views(r@) =~= split_spaces(s@));
            }
            r
        }
        Some(i) => {
            let head = s.substring_char(0, i).to_owned();
            let tail = s.substring_char(i + 1, len);
            proof {
                assert(tail@ =~= s@.skip(i + 1 as int));
            }
            let mut r = split_tokens(tail);
            r.insert(0, head);
            proof {
                assert(head@ =~= s@.take(i as int));
                assert(string_views(r@) =~= seq![s@.take(i as int)] + split_spaces(
                    s@.skip(i + 1 as int)));
            }
            r
        }
    }
}

pub open spec fn is_ascii_digit(c: char) -> bool {
    '0' <= c && c <= '9'
}

pub open spec fn digit_of(c: char) -> int {
    c as int - '0' as int
}

pub open spec fn all_digits(s: Seq<char>) -> bool {
    forall|i: int| 0 <= i < s.len() ==> is_ascii_digit(s[i])
}

/// The value of a digit string, most significant digit first.
pub open spec fn digits_val(s: Seq<char>) -> int
    decreases s.len(),
{
    if s.len() == 0 {
        0
    } else {
        digits_val(s.drop_last()) * 10 + digit_of(s.last())
    }
}

/// The digits of an optionally signed decimal literal.
pub open spec fn dec_literal_body(s: Seq<char>) -> Seq<char> {
    if s.len() > 0 && (s[0] == '+' || s[0] == '-') {
        s.drop_first()
    } else {
        s
    }
}

pub open spec fn dec_literal_sign(s: Seq<char>) -> int {
    if s.len() > 0 && s[0] == '-' {
        -1
    } else {
        1
    }
}

/// Whether `s` is a decimal integer literal whose value fits in `i64`: an
/// optional sign, then one or more ASCII digits.
pub open spec fn is_i64_literal(s: Seq<char>) -> bool {
    &&& dec_literal_body(s).len() > 0
    &&& all_digits(dec_literal_body(s))
    &&& i64::MIN <= dec_literal_sign(s) * digits_val(dec_literal_body(s)) <= i64::MAX
}

pub open spec fn i64_literal_value(s: Seq<char>) -> int {
    dec_literal_sign(s) * digits_val(dec_literal_body(s))
}

proof fn lemma_digits_val_nonneg(t: Seq<char>)
    requires
        all_digits(t),
    ensures
        digits_val(t) >= 0,
    decreases t.len(),
{
    if t.len() > 0 {
        assert(forall|i: int| 0 <= i < t.drop_last().len() ==> t.drop_last()[i] == t[i]);
        lemma_digits_val_nonneg(t.drop_last());
        assert(is_ascii_digit(t.last()));
    }
}

proof fn lemma_digits_val_monotone(t: Seq<char>, j: int)
    requires
        all_digits(t),
        0 <= j <= t.len(),
    ensures
        digits_val(t) >= digits_val(t.take(j)),
    decreases t.len() - j,
{
    if j < t.len() {
        assert(t.take(j + 1).drop_last() =~= t.take(j));
        assert(t.take(j + 1).last() == t[j]);
        assert(forall|i: int| 0 <= i < t.take(j).len() ==> t.take(j)[i] == t[i]);
        lemma_digits_val_nonneg(t.take(j));
        assert(is_ascii_digit(t[j]));
        assert(digits_val(t.take(j + 1)) >= digits_val(t.take(j)));
        lemma_digits_val_monotone(t, j + 1);
    } else {
        assert(t.take(j) =~= t);
    }
}

/// Read a token as a decimal integer, exactly as the value grammar has it:
/// an optional sign, then digits, the value in `i64` range. The magnitude
/// accumulates negatively so that the most negative value needs no special
/// case.
fn parse_i64_token(s: &str) -> (r: Option<i64>)
    ensures
        r == if is_i64_literal(s@) {
            Some(i64_literal_value(s@) as i64)
        } else {
            None::<i64>
        },
{
    let len = s.unicode_len();
    if len == 0 {
        return None;
    }
    let first = s.get_char(0);
    let negative = first == '-';
    let start: usize = if first == '-' || first == '+' {
        1
    } else {
        0
    };
    let ghost body = dec_literal_body(s@);
    proof {
        assert(body =~= s@.skip(start as int));
    }
    if start == len {
        return None;
    }
    let mut acc: i64 = 0;
    let mut i: usize = start;
    proof {
        assert(body.take(0) =~= Seq::<char>::empty());
    }
    while i < len
        invariant
            start <= i <= len,
            len == s@.len(),
            start <= 1,
            body == dec_literal_body(s@),
            body == s@.skip(start as int),
            body.len() == len - start,
            all_digits(body.take(i - start)),
            acc <= 0,
            acc as int == -digits_val(body.take(i - start)),
        decreases len - i,
    {
        let c = s.get_char(i);
        let cv = c as u32;
        proof {
            assert(body[i - start] == s@[i as int]);
            assert(body.take(i + 1 - start).drop_last() =~= body.take(i - start));
            assert(body.take(i + 1 - start).last() == body[i - start]);
        }
        if cv < 48 || cv > 57 {
            proof {
                assert(!is_ascii_digit(body[i - start]));
                assert(!all_digits(body));
            }
            return None;
        }
        let d = (cv - 48) as i64;
        proof {
            assert(is_ascii_digit(body[i - start]));
            assert(d as int == digit_of(body[i - start]));
        }
        let ghost grown = digits_val(body.take(i + 1 - start));
        let stepped = match acc.checked_mul(10) {
            Some(x) => x.checked_sub(d),
            None => None,
        };
        match stepped {
            Some(next) => {
                acc = next;
            }
            None => {
                proof {
                    assert(grown > i64::MAX as int + 1);
                    if all_digits(body) {
                        lemma_digits_val_monotone(body, i + 1 - start);
                        assert(digits_val(body) > i64::MAX as int + 1);
                        assert(!is_i64_literal(s@));
                    } else {
                        assert(!is_i64_literal(s@));
                    }
                }
                return None;
            }
        }
        i = i + 1;
    }
    proof {
        assert(body.take(len - start) =~= body);
    }
    if negative {
        proof {
            assert(i64_literal_value(s@) == acc as int);
            assert(is_i64_literal(s@));
        }
        Some(acc)
    } else if acc == i64::MIN {
        proof {
            assert(digits_val(body) == i64::MAX as int + 1);
            assert(!is_i64_literal(s@));
        }
        None
    } else {
        proof {
            assert(i64_literal_value(s@) == -(acc as int));
            assert(is_i64_literal(s@));
        }
        Some(-acc)
    }
}

/// The decimal rendering a token gets when it reads as a (finite) floating
/// number, `None` when it does not; a function of the token alone.
pub uninterp spec fn float_token_of(s: Seq<char>) -> Option<Seq<char>>;

/// Relies on `str::parse` reading the token as a double-precision number,
/// `serde_json::Number::from_f64` keeping only finite ones, and the
/// number's `to_string` rendering it; the result depends on the token
/// alone.
#[verifier::external_body]
fn float_token(s: &str) -> (r: Option<String>)
    ensures
        (match float_token_of(s@) {
            Some(tv) => r matches Some(t) && t@ == tv,
            None => r is None,
        }),
{
    match s.parse() {
        Ok(f) => match serde_json::Number::from_f64(f) {
            Some(n) => Some(n.to_string()),
            None => None,
        },
        Err(_) => None,
    }
}

/// How a `key=value` word's value reads: an integer first, else a floating
/// number, else a boolean, else the bare string.
pub open spec fn classify(v: Seq<char>) -> LogValueModel {
    if is_i64_literal(v) {
        LogValueModel::Int(i64_literal_value(v))
    } else if float_token_of(v) is Some {
        LogValueModel::NumToken(match float_token_of(v) {
            Some(t) => t,
            None => Seq::empty(),
        })
    } else if v == "true"@ {
        LogValueModel::Bool(true)
    } else if v == "false"@ {
        LogValueModel::Bool(false)
    } else {
        LogValueModel::Str(v)
    }
}

/// Read one `key=value` value.
fn classify_value(v: &str) -> (r: LogValue)
    ensures
        model_of(r) == classify(v@),
{
    match parse_i64_token(v) {
        Some(n) => LogValue::Int(n),
        None => match float_token(v) {
            Some(t) => LogValue::NumToken(t),
            None => if str_eq(v, "true") {
                LogValue::Bool(true)
            } else if str_eq(v, "false") {
                LogValue::Bool(false)
            } else {
                LogValue::Str(v.to_owned())
            },
        },
    }
}

/// The key of a `key=value` word: what stands before its first `=`.
pub open spec fn token_key(t: Seq<char>) -> Seq<char> {
    t.take(find_char(t, '='))
}

/// The value of a `key=value` word: what stands after its first `=`.
pub open spec fn token_value(t: Seq<char>) -> Seq<char> {
    t.skip(find_char(t, '=') + 1)
}

/// The metadata pairs the words contribute, in order: each word with a `=`
/// becomes a classified pair.
pub open spec fn token_pairs(tokens: Seq<Seq<char>>) -> Seq<(Seq<char>, LogValueModel)>
    decreases tokens.len(),
{
    if tokens.len() == 0 {
        Seq::empty()
    } else {
        token_pairs(tokens.drop_last()) + (if find_char(tokens.last(), '=') >= 0 {
            seq![(token_key(tokens.last()), classify(token_value(tokens.last())))]
        } else {
            Seq::empty()
        })
    }
}

/// The words that stay in the message text: those without a `=`.
pub open spec fn message_words(tokens: Seq<Seq<char>>) -> Seq<Seq<char>>
    decreases tokens.len(),
{
    if tokens.len() == 0 {
        Seq::empty()
    } else {
        message_words(tokens.drop_last()) + (if find_char(tokens.last(), '=') >= 0 {
            Seq::empty()
        } else {
            seq![tokens.last()]
        })
    }
}

/// The message text after extraction. A message that is a single word is
/// left alone, `=` or not.
pub open spec fn extracted_message(m: Seq<char>) -> Seq<char> {
    if split_spaces(m).len() <= 1 {
        m
    } else {
        join_spaces(message_words(split_spaces(m)))
    }
}

/// The metadata pairs extracted from a message.
pub open spec fn extracted_pairs(m: Seq<char>) -> Seq<(Seq<char>, LogValueModel)> {
    if split_spaces(m).len() <= 1 {
        Seq::empty()
    } else {
        token_pairs(split_spaces(m))
    }
}

/// Lift `key=value` words out of a message: the remaining message text and
/// the extracted, classified pairs.
pub fn extract_key_values(message: &str) -> (r: (String, Vec<(String, LogValue)>))
    ensures
        r.0@ == extracted_message(message@),
        meta_models(r.1@) == extracted_pairs(message@),
{
    let tokens = split_tokens(message);
    let n = tokens.len();
    if n <= 1 {
        let r: Vec<(String, LogValue)> = Vec::new();
        proof {
            assert(meta_models(r@) =~= extracted_pairs(message@));
        }
        return (message.to_owned(), r);
    }
    let ghost toks = string_views(tokens@);
    let mut kv: Vec<(String, LogValue)> = Vec::new();
    let mut words: Vec<String> = Vec::new();
    let mut i: usize = 0;
    proof {
        assert(toks.take(0) =~= Seq::<Seq<char>>::empty());
        assert(meta_models(kv@) =~= token_pairs(toks.take(0)));
        assert(string_views(words@) =~= message_words(toks.take(0)));
    }
    while i < n
        invariant
            i <= n,
            n == tokens@.len(),
            toks == string_views(tokens@),
            meta_models(kv@) == token_pairs(toks.take(i as int)),
            string_views(words@) == message_words(toks.take(i as int)),
        decreases n - i,
    {
        proof {
            assert(toks.take(i + 1 as int).drop_last() =~= toks.take(i as int));
            assert(toks.take(i + 1 as int).last() == toks[i as int]);
            assert(toks[i as int] == tokens@[i as int]@);
        }
        let token = &tokens[i];
        let tlen = token.as_str().unicode_len();
        match find_char_index(token.as_str(), '=') {
            Some(e) => {
                let key = token.as_str().substring_char(0, e).to_owned();
                let value = token.as_str().substring_char(e + 1, tlen);
                proof {
                    assert(key@ =~= token_key(toks[i as int]));
                    assert(value@ =~= token_value(toks[i as int]));
                }
                let lv = classify_value(value);
                kv.push((key, lv));
                proof {
                    assert(meta_models(kv@) =~= token_pairs(toks.take(i + 1 as int)));
                }
            }
            None => {
                words.push(token.clone());
                proof {
                    assert(string_views(words@) =~= message_words(toks.take(i + 1 as int)));
                }
            }
        }
        i = i + 1;
    }
    proof {
        assert(toks.take(n as int) =~= toks);
    }
    let out = join_tokens(&words);
    (out, kv)
}

/// The lowercase hexadecimal digit for `d`.
pub open spec fn hex_digit(d: int) -> char {
    if d < 10 {
        crate::strutil::dec_digit(d)
    } else if d == 10 {
        'a'
    } else if d == 11 {
        'b'
    } else if d == 12 {
        'c'
    } else if d == 13 {
        'd'
    } else if d == 14 {
        'e'
    } else {
        'f'
    }
}

fn hex_digit_char(d: u32) -> (c: char)
    requires
        d < 16,
    ensures
        c == hex_digit(d as int),
{
    match d {
        0 => '0',
        1 => '1',
        2 => '2',
        3 => '3',
        4 => '4',
        5 => '5',
        6 => '6',
        7 => '7',
        8 => '8',
        9 => '9',
        10 => 'a',
        11 => 'b',
        12 => 'c',
        13 => 'd',
        14 => 'e',
        _ => 'f',
    }
}

/// How one character reads inside a JSON string: quote and backslash get a
/// backslash, the named control characters their short escapes, the other
/// control characters a `\u00..` escape, everything else stands as itself.
pub open spec fn json_escape_char(c: char) -> Seq<char> {
    if c == '"' {
        seq!['\\', '"']
    } else if c == '\\' {
        seq!['\\', '\\']
    } else if c == '\u{8}' {
        seq!['\\', 'b']
    } else if c == '\t' {
        seq!['\\', 't']
    } else if c == '\n' {
        seq!['\\', 'n']
    } else if c == '\u{c}' {
        seq!['\\', 'f']
    } else if c == '\r' {
        seq!['\\', 'r']
    } else if (c as int) < 32 {
        seq!['\\', 'u', '0', '0', hex_digit((c as int) / 16), hex_digit((c as int) % 16)]
    } else {
        seq![c]
    }
}

/// A whole string, escaped for JSON.
pub open spec fn json_escaped(s: Seq<char>) -> Seq<char>
    decreases s.len(),
{
    if s.len() == 0 {
        Seq::empty()
    } else {
        json_escaped(s.drop_last()) + json_escape_char(s.last())
    }
}

/// Append `s`, escaped for JSON, to `out`.
fn append_json_escaped(out: &mut String, s: &str)
    ensures
        final(out)@ == old(out)@ + json_escaped(s@),
{
    let len = s.unicode_len();
    let mut i: usize = 0;
    proof {
        assert(old(out)@ + json_escaped(s@.take(0)) =~= old(out)@);
    }
    while i < len
        invariant
            i <= len,
            len == s@.len(),
            out@ == old(out)@ + json_escaped(s@.take(i as int)),
        decreases len - i,
    {
        proof {
            assert(s@.take(i + 1 as int).drop_last() =~= s@.take(i as int));
            assert(s@.take(i + 1 as int).last() == s@[i as int]);
        }
        let c = s.get_char(i);
        if c == '"' {
            out.append("\\\"");
            proof {
                reveal_strlit("\\\"");
                assert(out@ =~= old(out)@ + json_escaped(s@.take(i + 1 as int)));
            }
        } else if c == '\\' {
            out.append("\\\\");
            proof {
                reveal_strlit("\\\\");
                assert(out@ =~= old(out)@ + json_escaped(s@.take(i + 1 as int)));
            }
        } else if c == '\u{8}' {
            out.append("\\b");
            proof {
                reveal_strlit("\\b");
                assert(out@ =~= old(out)@ + json_escaped(s@.take(i + 1 as int)));
            }
        } else if c == '\t' {
            out.append("\\t");
            proof {
                reveal_strlit("\\t");
                assert(out@ =~= old(out)@ + json_escaped(s@.take(i + 1 as int)));
            }
        } else if c == '\n' {
            out.append("\\n");
            proof {
                reveal_strlit("\\n");
                assert(out@ =~= old(out)@ + json_escaped(s@.take(i + 1 as int)));
            }
        } else if c == '\u{c}' {
            out.append("\\f");
            proof {
                reveal_strlit("\\f");
                assert(out@ =~= old(out)@ + json_escaped(s@.take(i + 1 as int)));
            }
        } else if c == '\r' {
            out.append("\\r");
            proof {
                reveal_strlit("\\r");
                assert(out@ =~= old(out)@ + json_escaped(s@.take(i + 1 as int)));
            }
        } else if (c as u32) < 32 {
            out.append("\\u00");
            push_char(out, hex_digit_char((c as u32) / 16));
            push_char(out, hex_digit_char((c as u32) % 16));
            proof {
                reveal_strlit("\\u00");
                assert(out@ =~= old(out)@ + json_escaped(s@.take(i + 1 as int)));
            }
        } else {
            push_char(out, c);
            proof {
                assert(out@ =~= old(out)@ + json_escaped(s@.take(i + 1 as int)));
            }
        }
        i = i + 1;
    }
    proof {
        assert(s@.take(len as int) =~= s@);
    }
}

/// How a metadata value is rendered, in the compact and JSON outputs: a
/// string quoted and escaped, numbers and booleans bare.
pub open spec fn render_value(m: LogValueModel) -> Seq<char> {
    match m {
        LogValueModel::Str(s) => seq!['"'] + json_escaped(s) + seq!['"'],
        LogValueModel::Int(n) => dec_int(n),
        LogValueModel::NumToken(t) => t,
        LogValueModel::Bool(b) => if b {
            "true"@
        } else {
            "false"@
        },
    }
}

/// Append a metadata value's rendering to `out`.
fn append_value(out: &mut String, v: &LogValue)
    ensures
        final(out)@ == old(out)@ + render_value(model_of(*v)),
{
    match v {
        LogValue::Str(s) => {
            push_char(out, '"');
            append_json_escaped(out, s.as_str());
            push_char(out, '"');
            proof {
                assert(out@ =~= old(out)@ + render_value(model_of(*v)));
            }
        }
        LogValue::Int(n) => {
            let d = i64_to_dec(*n);
            out.append(d.as_str());
        }
        LogValue::NumToken(t) => {
            out.append(t.as_str());
        }
        LogValue::Bool(b) => {
            if *b {
                out.append("true");
            } else {
                out.append("false");
            }
        }
    }
}

/// Insert into a metadata list: an existing key keeps its place and gets
/// the new value; a new key goes to the end.
pub open spec fn put_model(
    s: Seq<(Seq<char>, LogValueModel)>,
    k: Seq<char>,
    v: LogValueModel,
) -> Seq<(Seq<char>, LogValueModel)>
    decreases s.len(),
{
    if s.len() == 0 {
        seq![(k, v)]
    } else if s[0].0 == k {
        seq![(s[0].0, v)] + s.drop_first()
    } else {
        seq![s[0]] + put_model(s.drop_first(), k, v)
    }
}

proof fn lemma_put_model_at(s: Seq<(Seq<char>, LogValueModel)>, k: Seq<char>, v: LogValueModel, j: int)
    requires
        0 <= j < s.len(),
        s[j].0 == k,
        forall|l: int| 0 <= l < j ==> s[l].0 != k,
    ensures
        put_model(s, k, v) == s.update(j, (k, v)),
    decreases j,
{
    if j == 0 {
        assert(put_model(s, k, v) =~= s.update(0, (k, v)));
    } else {
        assert(forall|l: int| 0 <= l < j - 1 ==> s.drop_first()[l] == s[l + 1]);
        lemma_put_model_at(s.drop_first(), k, v, j - 1);
        assert(seq![s[0]] + s.drop_first().update(j - 1, (k, v)) =~= s.update(j, (k, v)));
    }
}

proof fn lemma_put_model_missing(s: Seq<(Seq<char>, LogValueModel)>, k: Seq<char>, v: LogValueModel)
    requires
        forall|l: int| 0 <= l < s.len() ==> s[l].0 != k,
    ensures
        put_model(s, k, v) == s + seq![(k, v)],
    decreases s.len(),
{
    if s.len() == 0 {
        assert(put_model(s, k, v) =~= s + seq![(k, v)]);
    } else {
        assert(forall|l: int| 0 <= l < s.drop_first().len() ==> s.drop_first()[l] == s[l + 1]);
        lemma_put_model_missing(s.drop_first(), k, v);
        assert(seq![s[0]] + (s.drop_first() + seq![(k, v)]) =~= s + seq![(k, v)]);
    }
}

/// Insert one pair into a metadata list, as [`put_model`] says.
fn put_meta(entries: &mut Vec<(String, LogValue)>, key: String, value: LogValue)
    ensures
        meta_models(final(entries)@) == put_model(meta_models(old(entries)@), key@, model_of(value)),
{
    let len = entries.len();
    let mut i: usize = 0;
    while i < len
        invariant
            i <= len,
            len == entries@.len(),
            entries@ == old(entries)@,
            forall|j: int| 0 <= j < i ==> entries@[j].0@ != key@,
        decreases len - i,
    {
        if str_eq(entries[i].0.as_str(), key.as_str()) {
            entries.set(i, (key, value));
            proof {
                lemma_put_model_at(meta_models(old(entries)@), key@, model_of(value), i as int);
                assert(meta_models(entries@) =~= meta_models(old(entries)@).update(
                    i as int,
                    (key@, model_of(value)),
                ));
            }
            return;
        }
        i = i + 1;
    }
    entries.push((key, value));
    proof {
        lemma_put_model_missing(meta_models(old(entries)@), key@, model_of(value));
        assert(meta_models(entries@) =~= meta_models(old(entries)@) + seq![
            (key@, model_of(value)),
        ]);
    }
}

/// A metadata list after the global entries were put in, front to back.
pub open spec fn put_all_strings(
    base: Seq<(Seq<char>, LogValueModel)>,
    globals: Seq<(String, String)>,
) -> Seq<(Seq<char>, LogValueModel)>
    decreases globals.len(),
{
    if globals.len() == 0 {
        base
    } else {
        put_all_strings(
            put_model(base, globals[0].0@, LogValueModel::Str(globals[0].1@)),
            globals.drop_first(),
        )
    }
}

/// A metadata list after the extracted pairs were put in, front to back.
pub open spec fn put_all_pairs(
    base: Seq<(Seq<char>, LogValueModel)>,
    pairs: Seq<(Seq<char>, LogValueModel)>,
) -> Seq<(Seq<char>, LogValueModel)>
    decreases pairs.len(),
{
    if pairs.len() == 0 {
        base
    } else {
        put_all_pairs(put_model(base, pairs[0].0, pairs[0].1), pairs.drop_first())
    }
}

proof fn lemma_put_all_strings_push(
    base: Seq<(Seq<char>, LogValueModel)>,
    globals: Seq<(String, String)>,
    x: (String, String),
)
    ensures
        put_all_strings(base, globals.push(x)) == put_model(
            put_all_strings(base, globals),
            x.0@,
            LogValueModel::Str(x.1@),
        ),
    decreases globals.len(),
{
    if globals.len() == 0 {
        assert(globals.push(x).drop_first() =~= Seq::<(String, String)>::empty());
        assert(globals.push(x)[0] == x);
        assert(put_all_strings(base, globals.push(x)) == put_all_strings(
            put_model(base, x.0@, LogValueModel::Str(x.1@)),
            globals.push(x).drop_first(),
        ));
        assert(put_all_strings(put_model(base, x.0@, LogValueModel::Str(x.1@)),
            globals.push(x).drop_first()) == put_model(base, x.0@, LogValueModel::Str(x.1@)));
        assert(put_all_strings(base, globals) == base);
    } else {
        assert(globals.push(x)[0] == globals[0]);
        assert(globals.push(x).drop_first() =~= globals.drop_first().push(x));
        let stepped = put_model(base, globals[0].0@, LogValueModel::Str(globals[0].1@));
        assert(put_all_strings(base, globals.push(x)) == put_all_strings(
            stepped,
            globals.drop_first().push(x),
        ));
        lemma_put_all_strings_push(stepped, globals.drop_first(), x);
        assert(put_all_strings(base, globals) == put_all_strings(stepped, globals.drop_first()));
    }
}

proof fn lemma_put_all_pairs_push(
    base: Seq<(Seq<char>, LogValueModel)>,
    pairs: Seq<(Seq<char>, LogValueModel)>,
    x: (Seq<char>, LogValueModel),
)
    ensures
        put_all_pairs(base, pairs.push(x)) == put_model(put_all_pairs(base, pairs), x.0, x.1),
    decreases pairs.len(),
{
    if pairs.len() == 0 {
        assert(pairs.push(x).drop_first() =~= Seq::<(Seq<char>, LogValueModel)>::empty());
        assert(pairs.push(x)[0] == x);
        assert(put_all_pairs(base, pairs.push(x)) == put_all_pairs(
            put_model(base, x.0, x.1),
            pairs.push(x).drop_first(),
        ));
        assert(put_all_pairs(put_model(base, x.0, x.1), pairs.push(x).drop_first())
            == put_model(base, x.0, x.1));
        assert(put_all_pairs(base, pairs) == base);
    } else {
        assert(pairs.push(x)[0] == pairs[0]);
        assert(pairs.push(x).drop_first() =~= pairs.drop_first().push(x));
        let stepped = put_model(base, pairs[0].0, pairs[0].1);
        assert(put_all_pairs(base, pairs.push(x)) == put_all_pairs(
            stepped,
            pairs.drop_first().push(x),
        ));
        lemma_put_all_pairs_push(stepped, pairs.drop_first(), x);
        assert(put_all_pairs(base, pairs) == put_all_pairs(stepped, pairs.drop_first()));
    }
}

/// A structured log entry, ready for rendering.
#[derive(Debug)]
pub struct LogEntry {
    /// The moment of the entry, already rendered; absent when timestamps
    /// are off.
    pub timestamp: Option<String>,
    /// The level's display name.
    pub level: String,
    /// The message text, after `key=value` extraction.
    pub message: String,
    /// `file:line`, when known and wanted.
    pub location: Option<String>,
    /// The module the record came from, when known and wanted.
    pub module: Option<String>,
    /// Global metadata first, then the pairs extracted from the message.
    pub metadata: Vec<(String, LogValue)>,
}

/// Formatter for log entries.
#[derive(Debug)]
pub struct LogFormatter {
    pub include_file_info: bool,
    pub include_module_path: bool,
    pub include_timestamp: bool,
    pub timestamp_format: Option<String>,
    pub global_metadata: Vec<(String, String)>,
    pub format: OutputFormat,
}

/// Relies on chrono's `Utc::now` and `to_rfc3339`; the moment it reads
/// decides the result, so nothing is promised of it.
#[verifier::external_body]
fn now_rfc3339() -> (r: String) {
    chrono::Utc::now().to_rfc3339()
}

/// Relies on chrono's `Local::now` and its `format` with the given
/// pattern. A pattern chrono cannot format falls back to RFC 3339 rather
/// than fail; the moment read decides the result either way.
#[verifier::external_body]
fn now_formatted(fmt: &str) -> (r: String) {
    let now = chrono::Local::now();
    let mut out = String::new();
    match write!(out, "{}", now.format(fmt)) {
        Ok(()) => out,
        Err(_) => now.to_rfc3339(),
    }
}

/// How a [`LogEntry`] built from `record` by formatter `f` reads: every
/// field but the timestamp's text is determined.
pub open spec fn entry_wf(f: LogFormatter, record: LogRecord, e: LogEntry) -> bool {
    &&& (e.timestamp is Some <==> f.include_timestamp)
    &&& e.level@ == level_name(record.level)
    &&& e.message@ == extracted_message(record.message@)
    &&& (if f.include_file_info && record.file is Some && record.line is Some {
        record.file matches Some(file) && record.line matches Some(line)
            && e.location matches Some(l) && l@ == file@ + seq![':'] + dec_digits(line as int)
    } else {
        e.location is None
    })
    &&& (if f.include_module_path && record.module is Some {
        record.module matches Some(m) && e.module matches Some(em) && em@ == m@
    } else {
        e.module is None
    })
    &&& meta_models(e.metadata@) == put_all_pairs(
        put_all_strings(Seq::empty(), f.global_metadata@),
        extracted_pairs(record.message@),
    )
}

/// The `k=v` metadata words of the compact line, joined with commas.
pub open spec fn compact_meta(models: Seq<(Seq<char>, LogValueModel)>) -> Seq<char>
    decreases models.len(),
{
    if models.len() == 0 {
        Seq::empty()
    } else if models.len() == 1 {
        models[0].0 + seq!['='] + render_value(models[0].1)
    } else {
        compact_meta(models.drop_last()) + seq![','] + models.last().0 + seq!['=']
            + render_value(models.last().1)
    }
}

/// The compact rendering of an entry: timestamp (when present), then
/// `[LEVEL] message`, then the metadata, the parts joined with spaces.
pub open spec fn compact_line_of(e: LogEntry) -> Seq<char> {
    let head = seq!['['] + e.level@ + seq![']', ' '] + e.message@;
    let with_ts = match e.timestamp {
        Some(t) => t@ + seq![' '] + head,
        None => head,
    };
    if e.metadata@.len() == 0 {
        with_ts
    } else {
        with_ts + seq![' '] + compact_meta(meta_models(e.metadata@))
    }
}

/// A JSON string literal.
pub open spec fn json_string(s: Seq<char>) -> Seq<char> {
    seq!['"'] + json_escaped(s) + seq!['"']
}

/// The metadata members of the JSON object, each preceded by a comma (the
/// level and message members always stand before them).
pub open spec fn json_meta(models: Seq<(Seq<char>, LogValueModel)>) -> Seq<char>
    decreases models.len(),
{
    if models.len() == 0 {
        Seq::empty()
    } else {
        json_meta(models.drop_last()) + seq![','] + json_string(models.last().0) + seq![':']
            + render_value(models.last().1)
    }
}

/// The JSON rendering of an entry: one object holding the present fields
/// in order, then the metadata pairs.
pub open spec fn json_line_of(e: LogEntry) -> Seq<char> {
    seq!['{'] + (match e.timestamp {
        Some(t) => json_string("timestamp"@) + seq![':'] + json_string(t@) + seq![','],
        None => Seq::empty(),
    }) + json_string("level"@) + seq![':'] + json_string(e.level@) + seq![','] + json_string(
        "message"@,
    ) + seq![':'] + json_string(e.message@) + (match e.location {
        Some(l) => seq![','] + json_string("location"@) + seq![':'] + json_string(l@),
        None => Seq::empty(),
    }) + (match &e.module {
        Some(m) => seq![','] + json_string("module"@) + seq![':'] + json_string(m@),
        None => Seq::empty(),
    }) + json_meta(meta_models(e.metadata@)) + seq!['}']
}

/// Append a quoted, escaped JSON string to `out`.
fn append_json_string(out: &mut String, s: &str)
    ensures
        final(out)@ == old(out)@ + json_string(s@),
{
    push_char(out, '"');
    append_json_escaped(out, s);
    push_char(out, '"');
    proof {
        assert(out@ =~= old(out)@ + json_string(s@));
    }
}

impl LogFormatter {
    /// Create a new formatter.
    pub fn new(
        include_file_info: bool,
        include_module_path: bool,
        include_timestamp: bool,
        timestamp_format: Option<String>,
        global_metadata: Vec<(String, String)>,
        format: OutputFormat,
    ) -> (r: Self)
        ensures
            r.include_file_info == include_file_info,
            r.include_module_path == include_module_path,
            r.include_timestamp == include_timestamp,
            r.timestamp_format == timestamp_format,
            r.global_metadata == global_metadata,
            r.format == format,
    {
        LogFormatter {
            include_file_info,
            include_module_path,
            include_timestamp,
            timestamp_format,
            global_metadata,
            format,
        }
    }

    fn format_timestamp(&self) -> String {
        match &self.timestamp_format {
            Some(f) => now_formatted(f.as_str()),
            None => now_rfc3339(),
        }
    }

    /// Build the structured entry for one record: level name, extracted
    /// message, the optional fields as configured, and the metadata —
    /// global pairs first, then the pairs lifted from the message.
    pub fn create_log_entry(&self, record: &LogRecord) -> (e: LogEntry)
        ensures
            entry_wf(*self, *record, e),
    {
        let timestamp = if self.include_timestamp {
            Some(self.format_timestamp())
        } else {
            None
        };
        let location = if self.include_file_info {
            match (&record.file, &record.line) {
                (Some(file), Some(line)) => {
                    let mut l = file.clone();
                    push_char(&mut l, ':');
                    let digits = u64_to_dec(*line as u64);
                    l.append(digits.as_str());
                    proof {
                        assert(l@ =~= record.file->Some_0@ + seq![':'] + dec_digits(
                            record.line->Some_0 as int));
                    }
                    Some(l)
                }
                _ => None,
            }
        } else {
            None
        };
        let module = if self.include_module_path {
            match &record.module {
                Some(m) => Some(m.clone()),
                None => None,
            }
        } else {
            None
        };

        let mut metadata: Vec<(String, LogValue)> = Vec::new();
        let glen = self.global_metadata.len();
        let mut i: usize = 0;
        proof {
            assert(self.global_metadata@.take(0) =~= Seq::<(String, String)>::empty());
            assert(meta_models(metadata@) =~= Seq::<(Seq<char>, LogValueModel)>::empty());
        }
        while i < glen
            invariant
                i <= glen,
                glen == self.global_metadata@.len(),
                meta_models(metadata@) == put_all_strings(
                    Seq::empty(),
                    self.global_metadata@.take(i as int),
                ),
            decreases glen - i,
        {
            proof {
                assert(self.global_metadata@.take(i + 1 as int) =~= self.global_metadata@.take(
                    i as int).push(self.global_metadata@[i as int]));
                lemma_put_all_strings_push(
                    Seq::empty(),
                    self.global_metadata@.take(i as int),
                    self.global_metadata@[i as int],
                );
            }
            let key = self.global_metadata[i].0.clone();
            let value = self.global_metadata[i].1.clone();
            put_meta(&mut metadata, key, LogValue::Str(value));
            i = i + 1;
        }
        proof {
            assert(self.global_metadata@.take(glen as int) =~= self.global_metadata@);
        }

        let extracted = extract_key_values(record.message.as_str());
        let message = extracted.0;
        let pairs = extracted.1;
        let ghost base = meta_models(metadata@);
        let plen = pairs.len();
        let mut j: usize = 0;
        proof {
            assert(meta_models(pairs@).take(0) =~= Seq::<(Seq<char>, LogValueModel)>::empty());
            assert(put_all_pairs(base, meta_models(pairs@).take(0)) == base);
        }
        while j < plen
            invariant
                j <= plen,
                plen == pairs@.len(),
                meta_models(metadata@) == put_all_pairs(base, meta_models(pairs@).take(j as int)),
            decreases plen - j,
        {
            proof {
                assert(meta_models(pairs@).take(j + 1 as int) =~= meta_models(pairs@).take(
                    j as int).push(meta_models(pairs@)[j as int]));
                lemma_put_all_pairs_push(
                    base,
                    meta_models(pairs@).take(j as int),
                    meta_models(pairs@)[j as int],
                );
            }
            let key = pairs[j].0.clone();
            let value = pairs[j].1.clone();
            put_meta(&mut metadata, key, value);
            j = j + 1;
        }
        proof {
            assert(meta_models(pairs@).take(plen as int) =~= meta_models(pairs@));
        }

        LogEntry {
            timestamp,
            level: level_string(record.level),
            message,
            location,
            module,
            metadata,
        }
    }
}

/// Render an entry as a compact single line.
pub fn compact_line(e: &LogEntry) -> (r: String)
    ensures
        r@ == compact_line_of(*e),
{
    let mut out = String::new();
    match &e.timestamp {
        Some(t) => {
            out.append(t.as_str());
            push_char(&mut out, ' ');
        }
        None => {}
    }
    push_char(&mut out, '[');
    out.append(e.level.as_str());
    out.append("] ");
    out.append(e.message.as_str());
    let ghost with_ts = (match &e.timestamp {
        Some(t) => t@ + seq![' '],
        None => Seq::<char>::empty(),
    }) + seq!['['] + e.level@ + seq![']', ' '] + e.message@;
    proof {
        reveal_strlit("] ");
        assert("] "@ =~= seq![']', ' ']);
        assert(out@ =~= with_ts);
    }
    let mlen = e.metadata.len();
    if mlen > 0 {
        push_char(&mut out, ' ');
        let mut i: usize = 0;
        while i < mlen
            invariant
                i <= mlen,
                mlen == e.metadata@.len(),
                mlen > 0,
                out@ == with_ts + seq![' '] + compact_meta(meta_models(e.metadata@).take(i as int)),
            decreases mlen - i,
        {
            proof {
                assert(meta_models(e.metadata@).take(i + 1 as int).drop_last() =~= meta_models(
                    e.metadata@).take(i as int));
                assert(meta_models(e.metadata@).take(i + 1 as int).last() == meta_models(
                    e.metadata@)[i as int]);
                assert(meta_models(e.metadata@).take(0)
                    =~= Seq::<(Seq<char>, LogValueModel)>::empty());
            }
            if i > 0 {
                push_char(&mut out, ',');
            }
            out.append(e.metadata[i].0.as_str());
            push_char(&mut out, '=');
            append_value(&mut out, &e.metadata[i].1);
            proof {
                if i == 0 {
                    assert(out@ =~= with_ts + seq![' '] + compact_meta(meta_models(
                        e.metadata@).take(1)));
                } else {
                    assert(out@ =~= with_ts + seq![' '] + compact_meta(meta_models(
                        e.metadata@).take(i + 1 as int)));
                }
            }
            i = i + 1;
        }
        proof {
            assert(meta_models(e.metadata@).take(mlen as int) =~= meta_models(e.metadata@));
            assert(out@ =~= compact_line_of(*e));
        }
    } else {
        proof {
            assert(out@ =~= compact_line_of(*e));
        }
    }
    out
}

/// Render an entry as one JSON object.
pub fn json_line(e: &LogEntry) -> (r: String)
    ensures
        r@ == json_line_of(*e),
{
    let mut out = String::new();
    push_char(&mut out, '{');
    match &e.timestamp {
        Some(t) => {
            append_json_string(&mut out, "timestamp");
            push_char(&mut out, ':');
            append_json_string(&mut out, t.as_str());
            push_char(&mut out, ',');
        }
        None => {}
    }
    let ghost p_ts = seq!['{'] + (match &e.timestamp {
        Some(t) => json_string("timestamp"@) + seq![':'] + json_string(t@) + seq![','],
        None => Seq::<char>::empty(),
    });
    proof {
        assert(out@ =~= p_ts);
    }
    append_json_string(&mut out, "level");
    push_char(&mut out, ':');
    append_json_string(&mut out, e.level.as_str());
    push_char(&mut out, ',');
    append_json_string(&mut out, "message");
    push_char(&mut out, ':');
    append_json_string(&mut out, e.message.as_str());
    let ghost p_msg = p_ts + json_string("level"@) + seq![':'] + json_string(e.level@) + seq![
        ','
    ] + json_string("message"@) + seq![':'] + json_string(e.message@);
    proof {
        assert(out@ =~= p_msg);
    }
    match &e.location {
        Some(l) => {
            push_char(&mut out, ',');
            append_json_string(&mut out, "location");
            push_char(&mut out, ':');
            append_json_string(&mut out, l.as_str());
        }
        None => {}
    }
    match &e.module {
        Some(m) => {
            push_char(&mut out, ',');
            append_json_string(&mut out, "module");
            push_char(&mut out, ':');
            append_json_string(&mut out, m.as_str());
        }
        None => {}
    }
    let ghost p_opt = p_msg + (match &e.location {
        Some(l) => seq![','] + json_string("location"@) + seq![':'] + json_string(l@),
        None => Seq::<char>::empty(),
    }) + (match &e.module {
        Some(m) => seq![','] + json_string("module"@) + seq![':'] + json_string(m@),
        None => Seq::<char>::empty(),
    });
    proof {
        assert(out@ =~= p_opt);
    }
    let mlen = e.metadata.len();
    let mut i: usize = 0;
    proof {
        assert(meta_models(e.metadata@).take(0) =~= Seq::<(Seq<char>, LogValueModel)>::empty());
    }
    while i < mlen
        invariant
            i <= mlen,
            mlen == e.metadata@.len(),
            out@ == p_opt + json_meta(meta_models(e.metadata@).take(i as int)),
        decreases mlen - i,
    {
        proof {
            assert(meta_models(e.metadata@).take(i + 1 as int).drop_last() =~= meta_models(
                e.metadata@).take(i as int));
            assert(meta_models(e.metadata@).take(i + 1 as int).last() == meta_models(
                e.metadata@)[i as int]);
        }
        push_char(&mut out, ',');
        append_json_string(&mut out, e.metadata[i].0.as_str());
        push_char(&mut out, ':');
        append_value(&mut out, &e.metadata[i].1);
        proof {
            assert(out@ =~= p_opt + json_meta(meta_models(e.metadata@).take(i + 1 as int)));
        }
        i = i + 1;
    }
    push_char(&mut out, '}');
    proof {
        assert(meta_models(e.metadata@).take(mlen as int) =~= meta_models(e.metadata@));
        assert(out@ =~= json_line_of(*e));
    }
    out
}

/// Relies on colored's `Colorize`: `color` with the level's color, then
/// `bold`. What it wraps around the text depends on the terminal and the
/// environment, so nothing is promised of the result.
#[verifier::external_body]
fn paint_level(text: &str, level: Level) -> (r: String) {
    let color = match level {
        Level::Error => colored::Color::Red,
        Level::Warn => colored::Color::Yellow,
        Level::Info => colored::Color::Green,
        Level::Debug => colored::Color::Blue,
        Level::Trace => colored::Color::Magenta,
    };
    colored::Colorize::bold(colored::Colorize::color(text, color)).to_string()
}

/// Relies on colored's `dimmed`; terminal- and environment-dependent.
#[verifier::external_body]
fn paint_dimmed(text: &str) -> (r: String) {
    colored::Colorize::dimmed(text).to_string()
}

/// Relies on colored's `cyan`; terminal- and environment-dependent.
#[verifier::external_body]
fn paint_cyan(text: &str) -> (r: String) {
    colored::Colorize::cyan(text).to_string()
}

/// Relies on colored's `yellow`; terminal- and environment-dependent.
#[verifier::external_body]
fn paint_yellow(text: &str) -> (r: String) {
    colored::Colorize::yellow(text).to_string()
}

impl LogFormatter {
    /// Format a log record in the configured output format. Formatting
    /// itself cannot fail; the error type exists for the logger's callers.
    pub fn format(&self, record: &LogRecord) -> (r: Result<String, crate::logging::LoggerError>)
        ensures
            r is Ok,
            self.format == OutputFormat::Json ==> (r matches Ok(out) && (exists|e: LogEntry|
                entry_wf(*self, *record, e) && out@ == json_line_of(e))),
            self.format == OutputFormat::Compact ==> (r matches Ok(out) && (exists|e: LogEntry|
                entry_wf(*self, *record, e) && out@ == compact_line_of(e))),
    {
        match self.format {
            OutputFormat::Json => self.format_json(record),
            OutputFormat::Pretty => self.format_pretty(record),
            OutputFormat::Compact => self.format_compact(record),
        }
    }

    /// Render as JSON.
    fn format_json(&self, record: &LogRecord) -> (r: Result<String, crate::logging::LoggerError>)
        ensures
            r matches Ok(out) && (exists|e: LogEntry| entry_wf(*self, *record, e) && out@
                == json_line_of(e)),
    {
        let entry = self.create_log_entry(record);
        let out = json_line(&entry);
        proof {
            assert(entry_wf(*self, *record, entry) && out@ == json_line_of(entry));
        }
        Ok(out)
    }

    /// Render as a compact line.
    fn format_compact(&self, record: &LogRecord) -> (r: Result<
        String,
        crate::logging::LoggerError,
    >)
        ensures
            r matches Ok(out) && (exists|e: LogEntry| entry_wf(*self, *record, e) && out@
                == compact_line_of(e)),
    {
        let entry = self.create_log_entry(record);
        let out = compact_line(&entry);
        proof {
            assert(entry_wf(*self, *record, entry) && out@ == compact_line_of(entry));
        }
        Ok(out)
    }

    /// Render for human readability, colored in a terminal. The coloring
    /// depends on the terminal and environment, so only success is
    /// promised.
    fn format_pretty(&self, record: &LogRecord) -> (r: Result<
        String,
        crate::logging::LoggerError,
    >)
        ensures
            r is Ok,
    {
        let entry = self.create_log_entry(record);
        let mut bracketed = String::new();
        push_char(&mut bracketed, '[');
        bracketed.append(entry.level.as_str());
        push_char(&mut bracketed, ']');
        let level_str = paint_level(bracketed.as_str(), record.level);

        let mut output = String::new();
        match &entry.timestamp {
            Some(ts) => {
                let painted = paint_dimmed(ts.as_str());
                output.append(painted.as_str());
                push_char(&mut output, ' ');
            }
            None => {}
        }
        output.append(level_str.as_str());
        push_char(&mut output, ' ');
        output.append(entry.message.as_str());
        match &entry.location {
            Some(l) => {
                push_char(&mut output, ' ');
                let painted = paint_dimmed(l.as_str());
                output.append(painted.as_str());
            }
            None => {}
        }
        match &entry.module {
            Some(m) => {
                push_char(&mut output, ' ');
                push_char(&mut output, '[');
                let painted = paint_dimmed(m.as_str());
                output.append(painted.as_str());
                push_char(&mut output, ']');
            }
            None => {}
        }
        let mlen = entry.metadata.len();
        if mlen > 0 {
            output.append(" {");
            let mut i: usize = 0;
            while i < mlen
                invariant
                    i <= mlen,
                    mlen == entry.metadata@.len(),
                decreases mlen - i,
            {
                if i > 0 {
                    output.append(", ");
                }
                let painted_key = paint_cyan(entry.metadata[i].0.as_str());
                output.append(painted_key.as_str());
                push_char(&mut output, '=');
                let mut rendered = String::new();
                append_value(&mut rendered, &entry.metadata[i].1);
                let painted_value = paint_yellow(rendered.as_str());
                output.append(painted_value.as_str());
                i = i + 1;
            }
            push_char(&mut output, '}');
        }
        Ok(output)
    }
}

/// Join words with single spaces.
pub fn join_tokens(parts: &Vec<String>) -> (r: String)
    ensures
        r@ == join_spaces(string_views(parts@)),
{
    let len = parts.len();
    let mut r = String::new();
    let mut i: usize = 0;
    while i < len
        invariant
            i <= len,
            len == parts@.len(),
            r@ == join_spaces(string_views(parts@.take(i as int))),
        decreases len - i,
    {
        proof {
            assert(string_views(parts@.take(i + 1 as int)).drop_last() =~= string_views(
                parts@.take(i as int)));
            assert(string_views(parts@.take(i + 1 as int)).last() == parts@[i as int]@);
        }
        if i > 0 {
            push_char(&mut r, ' ');
        }
        r.append(parts[i].as_str());
        proof {
            if i == 0 {
                assert(r@ =~= join_spaces(string_views(parts@.take(1))));
            }
        }
        i = i + 1;
    }
    proof {
        assert(parts@.take(len as int) =~= parts@);
    }
    r
}

} // verus!
