//! Character-level text helpers: the building blocks of every SQL string and
//! status line the library produces, each with a mathematical model over
//! `Seq<char>`.
use vstd::prelude::*;

verus! {

// ---------------------------------------------------------------------------
// Models
// ---------------------------------------------------------------------------

/// Unicode `White_Space`, the set `char::is_whitespace` and `str::trim` use.
pub open spec fn is_ws(c: char) -> bool {
    ||| ('\u{9}' <= c && c <= '\u{d}')
    ||| c == ' '
    ||| c == '\u{85}'
    ||| c == '\u{a0}'
    ||| c == '\u{1680}'
    ||| ('\u{2000}' <= c && c <= '\u{200a}')
    ||| c == '\u{2028}'
    ||| c == '\u{2029}'
    ||| c == '\u{202f}'
    ||| c == '\u{205f}'
    ||| c == '\u{3000}'
}

pub open spec fn trim_start(s: Seq<char>) -> Seq<char>
    decreases s.len(),
{
    if s.len() > 0 && is_ws(s[0]) {
        trim_start(s.drop_first())
    } else {
        s
    }
}

pub open spec fn trim_end(s: Seq<char>) -> Seq<char>
    decreases s.len(),
{
    if s.len() > 0 && is_ws(s.last()) {
        trim_end(s.drop_last())
    } else {
        s
    }
}

/// What `str::trim` gives back.
pub open spec fn trim(s: Seq<char>) -> Seq<char> {
    trim_end(trim_start(s))
}

pub open spec fn is_upper_ascii(c: char) -> bool {
    'A' <= c && c <= 'Z'
}

pub open spec fn lower_char(c: char) -> char {
    if is_upper_ascii(c) {
        ((c as u32) + 32) as char
    } else {
        c
    }
}

/// `to_ascii_lowercase`: only `A..=Z` change.
pub open spec fn lower_ascii(s: Seq<char>) -> Seq<char> {
    s.map_values(|c: char| lower_char(c))
}

pub open spec fn is_digit(c: char) -> bool {
    '0' <= c && c <= '9'
}

pub open spec fn is_alnum_ascii(c: char) -> bool {
    ||| is_digit(c)
    ||| ('a' <= c && c <= 'z')
    ||| ('A' <= c && c <= 'Z')
}

/// `sub` occurs in `s` at position `i`.
pub open spec fn occurs_at(s: Seq<char>, sub: Seq<char>, i: int) -> bool {
    0 <= i && i + sub.len() <= s.len() && s.subrange(i, i + sub.len()) == sub
}

pub open spec fn contains(s: Seq<char>, sub: Seq<char>) -> bool {
    exists|i: int| occurs_at(s, sub, i)
}

pub open spec fn starts_with(s: Seq<char>, pre: Seq<char>) -> bool {
    pre.len() <= s.len() && s.subrange(0, pre.len() as int) == pre
}

pub open spec fn ends_with(s: Seq<char>, suf: Seq<char>) -> bool {
    suf.len() <= s.len() && s.subrange(s.len() - suf.len(), s.len() as int) == suf
}

/// The text that stands for `x` where every `c` is replaced by `rep`.
pub open spec fn replace_piece(x: char, c: char, rep: Seq<char>) -> Seq<char> {
    if x == c {
        rep
    } else {
        seq![x]
    }
}

/// Every `c` replaced by `rep`, as `str::replace(c, rep)` does.
pub open spec fn replace_char(s: Seq<char>, c: char, rep: Seq<char>) -> Seq<char>
    decreases s.len(),
{
    if s.len() == 0 {
        Seq::empty()
    } else {
        replace_char(s.drop_last(), c, rep) + replace_piece(s.last(), c, rep)
    }
}

/// The parts with `sep` between each two of them, as `[..].join(sep)` does.
pub open spec fn join(parts: Seq<Seq<char>>, sep: Seq<char>) -> Seq<char>
    decreases parts.len(),
{
    if parts.len() == 0 {
        Seq::empty()
    } else if parts.len() == 1 {
        parts[0]
    } else {
        join(parts.drop_last(), sep) + sep + parts.last()
    }
}

pub open spec fn digit_char(d: nat) -> char {
    ((48 + d) as u8) as char
}

/// Decimal text of a natural number, as `Display` writes it.
pub open spec fn decimal(n: nat) -> Seq<char>
    decreases n,
{
    if n < 10 {
        seq![digit_char(n)]
    } else {
        decimal(n / 10).push(digit_char(n % 10))
    }
}

pub open spec fn digit_value(c: char) -> nat {
    ((c as u32) - 48) as nat
}

pub open spec fn all_digits(s: Seq<char>) -> bool {
    forall|i: int| 0 <= i < s.len() ==> is_digit(#[trigger] s[i])
}

pub open spec fn digits_value(s: Seq<char>) -> nat
    decreases s.len(),
{
    if s.len() == 0 {
        0
    } else {
        digits_value(s.drop_last()) * 10 + digit_value(s.last())
    }
}

/// The digits that `u64::from_str` reads: one optional leading `+`.
pub open spec fn unsigned_body(s: Seq<char>) -> Seq<char> {
    if s.len() > 0 && s[0] == '+' {
        s.drop_first()
    } else {
        s
    }
}

/// What `str::parse::<u64>` gives back: `None` for an empty text, a
/// character that is not a digit, or a value above `u64::MAX`.
pub open spec fn parse_u64(s: Seq<char>) -> Option<u64> {
    let b = unsigned_body(s);
    if b.len() > 0 && all_digits(b) && digits_value(b) <= u64::MAX {
        Some(digits_value(b) as u64)
    } else {
        None
    }
}

/// `c` wrapped in `q` with each `q` inside doubled: SQL's quoting rule.
pub open spec fn quoted_with(s: Seq<char>, q: char) -> Seq<char> {
    seq![q] + replace_char(s, q, seq![q, q]) + seq![q]
}

/// A double-quoted SQL identifier.
pub open spec fn quote_ident_spec(name: Seq<char>) -> Seq<char> {
    quoted_with(name, '"')
}

/// A single-quoted SQL string literal.
pub open spec fn sql_string_spec(s: Seq<char>) -> Seq<char> {
    quoted_with(s, '\'')
}

/// Reads back the text inside a quoted literal: a doubled `q` gives one `q`.
/// `None` where a lone `q` stands inside.
pub open spec fn unquote_body(s: Seq<char>, q: char) -> Option<Seq<char>>
    decreases s.len(),
{
    if s.len() == 0 {
        Some(Seq::empty())
    } else if s[0] == q {
        if s.len() >= 2 && s[1] == q {
            match unquote_body(s.subrange(2, s.len() as int), q) {
                Some(r) => Some(seq![q] + r),
                None => None,
            }
        } else {
            None
        }
    } else {
        match unquote_body(s.drop_first(), q) {
            Some(r) => Some(seq![s[0]] + r),
            None => None,
        }
    }
}

/// Reads a quoted literal back into the text it stands for.
pub open spec fn unquote(s: Seq<char>, q: char) -> Option<Seq<char>> {
    if s.len() >= 2 && s[0] == q && s.last() == q {
        unquote_body(s.subrange(1, s.len() - 1), q)
    } else {
        None
    }
}

// ---------------------------------------------------------------------------
// Lemmas
// ---------------------------------------------------------------------------

pub proof fn lemma_replace_concat(a: Seq<char>, b: Seq<char>, c: char, rep: Seq<char>)
    ensures
        replace_char(a + b, c, rep) == replace_char(a, c, rep) + replace_char(b, c, rep),
    decreases b.len(),
{
    if b.len() == 0 {
        assert(a + b =~= a);
        assert(replace_char(a, c, rep) + replace_char(b, c, rep) =~= replace_char(a, c, rep));
    } else {
        lemma_replace_concat(a, b.drop_last(), c, rep);
        assert((a + b).drop_last() =~= a + b.drop_last());
        assert((a + b).last() == b.last());
        assert(replace_char(a, c, rep) + replace_char(b.drop_last(), c, rep) + replace_piece(
            b.last(),
            c,
            rep,
        ) =~= replace_char(a, c, rep) + (replace_char(b.drop_last(), c, rep) + replace_piece(
            b.last(),
            c,
            rep,
        )));
    }
}

pub proof fn lemma_replace_first(a: Seq<char>, c: char, rep: Seq<char>)
    requires
        a.len() > 0,
    ensures
        replace_char(a, c, rep) == replace_piece(a[0], c, rep) + replace_char(a.drop_first(), c, rep),
{
    let one = seq![a[0]];
    lemma_replace_concat(one, a.drop_first(), c, rep);
    assert(one + a.drop_first() =~= a);
    assert(one.drop_last() =~= Seq::<char>::empty());
    assert(replace_char(one.drop_last(), c, rep) =~= Seq::<char>::empty());
    assert(replace_char(one, c, rep) =~= replace_piece(a[0], c, rep));
}

/// Reading back a quoted body gives back the text that was quoted.
pub proof fn lemma_unquote_body_replace(s: Seq<char>, q: char)
    ensures
        unquote_body(replace_char(s, q, seq![q, q]), q) == Some(s),
    decreases s.len(),
{
    if s.len() == 0 {
        assert(replace_char(s, q, seq![q, q]) =~= Seq::<char>::empty());
    } else {
        lemma_replace_first(s, q, seq![q, q]);
        lemma_unquote_body_replace(s.drop_first(), q);
        let rest = replace_char(s.drop_first(), q, seq![q, q]);
        let whole = replace_char(s, q, seq![q, q]);
        if s[0] == q {
            assert(whole =~= seq![q, q] + rest);
            assert(whole.subrange(2, whole.len() as int) =~= rest);
            assert(seq![q] + s.drop_first() =~= s);
        } else {
            assert(whole =~= seq![s[0]] + rest);
            assert(whole.drop_first() =~= rest);
            assert(seq![s[0]] + s.drop_first() =~= s);
        }
    }
}

pub proof fn lemma_unquote_quoted(s: Seq<char>, q: char)
    ensures
        unquote(quoted_with(s, q), q) == Some(s),
{
    let body = replace_char(s, q, seq![q, q]);
    let w = quoted_with(s, q);
    assert(w.subrange(1, w.len() - 1) =~= body);
    lemma_unquote_body_replace(s, q);
}

pub proof fn lemma_digits_value_prefix(s: Seq<char>, i: int)
    requires
        0 <= i <= s.len(),
    ensures
        digits_value(s.take(i)) <= digits_value(s),
    decreases s.len() - i,
{
    if i < s.len() {
        lemma_digits_value_prefix(s, i + 1);
        assert(s.take(i + 1).drop_last() =~= s.take(i));
    } else {
        assert(s.take(i) =~= s);
    }
}

pub proof fn lemma_trim_start_skip(s: Seq<char>, i: int)
    requires
        0 <= i <= s.len(),
        forall|k: int| 0 <= k < i ==> is_ws(#[trigger] s[k]),
    ensures
        trim_start(s) == trim_start(s.skip(i)),
    decreases i,
{
    if i > 0 {
        assert(s.drop_first().skip(i - 1) =~= s.skip(i));
        lemma_trim_start_skip(s.drop_first(), i - 1);
    } else {
        assert(s.skip(0) =~= s);
    }
}

pub proof fn lemma_trim_end_take(s: Seq<char>, j: int)
    requires
        0 <= j <= s.len(),
        forall|k: int| j <= k < s.len() ==> is_ws(#[trigger] s[k]),
    ensures
        trim_end(s) == trim_end(s.take(j)),
    decreases s.len() - j,
{
    if j < s.len() {
        assert(s.drop_last().take(j) =~= s.take(j));
        lemma_trim_end_take(s.drop_last(), j);
    } else {
        assert(s.take(j) =~= s);
    }
}

// ---------------------------------------------------------------------------
// Executable helpers
// ---------------------------------------------------------------------------

/// `String::push`: appends one character.
#[verifier::external_body]
pub(crate) fn push_char(s: &mut String, c: char)
    ensures
        final(s)@ == old(s)@.push(c),
{
    s.push(c);
}

/// The characters of a text, in order.
pub fn chars_of(s: &str) -> (v: Vec<char>)
    ensures
        v@ == s@,
{
    let mut v: Vec<char> = Vec::new();
    for c in it: s.chars()
        invariant
            v@ == it.seq().take(it.index() as int),
    {
        v.push(c);
    }
    v
}

/// A text made of the given characters.
pub fn string_of(v: &Vec<char>) -> (s: String)
    ensures
        s@ == v@,
{
    let mut s = String::new();
    let mut i: usize = 0;
    while i < v.len()
        invariant
            i <= v.len(),
            s@ == v@.take(i as int),
        decreases v.len() - i,
    {
        push_char(&mut s, v[i]);
        i += 1;
        assert(v@.take(i as int) =~= v@.take(i - 1).push(v@[i - 1]));
    }
    assert(v@.take(v.len() as int) =~= v@);
    s
}

/// A copy of a text.
pub fn to_owned_string(s: &str) -> (r: String)
    ensures
        r@ == s@,
{
    let v = chars_of(s);
    string_of(&v)
}

pub fn is_ws_char(c: char) -> (b: bool)
    ensures
        b == is_ws(c),
{
    ('\u{9}' <= c && c <= '\u{d}') || c == ' ' || c == '\u{85}' || c == '\u{a0}' || c
        == '\u{1680}' || ('\u{2000}' <= c && c <= '\u{200a}') || c == '\u{2028}' || c
        == '\u{2029}' || c == '\u{202f}' || c == '\u{205f}' || c == '\u{3000}'
}

/// `str::trim`.
pub fn trim_str(s: &str) -> (r: String)
    ensures
        r@ == trim(s@),
{
    let v = chars_of(s);
    let n = v.len();
    let mut i: usize = 0;
    while i < n && is_ws_char(v[i])
        invariant
            i <= n,
            n == v@.len(),
            forall|k: int| 0 <= k < i ==> is_ws(#[trigger] v@[k]),
        decreases n - i,
    {
        i += 1;
    }
    proof {
        lemma_trim_start_skip(v@, i as int);
    }
    let ghost rest = v@.skip(i as int);
    assert(i == n || !is_ws(rest[0]));
    assert(trim_start(rest) == rest);
    let mut j: usize = n;
    while j > i && is_ws_char(v[j - 1])
        invariant
            i <= j <= n,
            n == v@.len(),
            forall|k: int| j <= k < n ==> is_ws(#[trigger] v@[k]),
        decreases j,
    {
        j -= 1;
    }
    let mut out = String::new();
    let mut k: usize = i;
    while k < j
        invariant
            i <= k <= j <= n,
            n == v@.len(),
            out@ == v@.subrange(i as int, k as int),
        decreases j - k,
    {
        push_char(&mut out, v[k]);
        k += 1;
        assert(v@.subrange(i as int, k as int) =~= v@.subrange(i as int, k - 1).push(v@[k - 1]));
    }
    proof {
        let len_rest = rest.len() as int;
        assert forall|m: int| (j - i) <= m < len_rest implies is_ws(#[trigger] rest[m]) by {
            assert(rest[m] == v@[i + m]);
        }
        lemma_trim_end_take(rest, j - i);
        assert(rest.take(j - i) =~= v@.subrange(i as int, j as int));
        let t = rest.take(j - i);
        if j > i {
            assert(t.last() == v@[j - 1]);
        }
    }
    out
}

pub fn lower_char_exec(c: char) -> (r: char)
    ensures
        r == lower_char(c),
{
    if 'A' <= c && c <= 'Z' {
        let x: u32 = (c as u32) + 32;
        (x as u8) as char
    } else {
        c
    }
}

/// `to_ascii_lowercase`.
pub fn lower_ascii_str(s: &str) -> (r: String)
    ensures
        r@ == lower_ascii(s@),
{
    let v = chars_of(s);
    let mut out = String::new();
    let mut i: usize = 0;
    while i < v.len()
        invariant
            i <= v.len(),
            out@ == lower_ascii(v@.take(i as int)),
        decreases v.len() - i,
    {
        push_char(&mut out, lower_char_exec(v[i]));
        i += 1;
        assert(lower_ascii(v@.take(i as int)) =~= lower_ascii(v@.take(i - 1)).push(
            lower_char(v@[i - 1]),
        ));
    }
    assert(v@.take(v.len() as int) =~= v@);
    out
}

pub fn is_digit_char(c: char) -> (b: bool)
    ensures
        b == is_digit(c),
{
    '0' <= c && c <= '9'
}

pub fn is_alnum_ascii_char(c: char) -> (b: bool)
    ensures
        b == is_alnum_ascii(c),
{
    ('0' <= c && c <= '9') || ('a' <= c && c <= 'z') || ('A' <= c && c <= 'Z')
}

fn occurs_at_exec(s: &Vec<char>, sub: &Vec<char>, i: usize) -> (b: bool)
    requires
        i + sub@.len() <= s@.len(),
    ensures
        b == occurs_at(s@, sub@, i as int),
{
    let n = s.len();
    let mut k: usize = 0;
    while k < sub.len()
        invariant
            k <= sub@.len(),
            n == s@.len(),
            i + sub@.len() <= n,
            forall|m: int| 0 <= m < k ==> s@[i + m] == sub@[m],
        decreases sub.len() - k,
    {
        if s[i + k] != sub[k] {
            assert(s@.subrange(i as int, i + sub@.len())[k as int] != sub@[k as int]);
            return false;
        }
        k += 1;
    }
    assert(s@.subrange(i as int, i + sub@.len()) =~= sub@);
    true
}

/// Whether `sub` occurs in `s`.
pub fn contains_str(s: &str, sub: &str) -> (b: bool)
    ensures
        b == contains(s@, sub@),
{
    let v = chars_of(s);
    let w = chars_of(sub);
    if w.len() > v.len() {
        assert forall|m: int| !occurs_at(s@, sub@, m) by {}
        return false;
    }
    if w.len() == 0 {
        assert(s@.subrange(0, 0) =~= sub@);
        assert(occurs_at(s@, sub@, 0));
        return true;
    }
    let n = v.len();
    let last = n - w.len();
    let mut i: usize = 0;
    while i <= last
        invariant
            n == v@.len(),
            last == v@.len() - w@.len(),
            w@.len() <= v@.len(),
            w@.len() > 0,
            v@ == s@,
            w@ == sub@,
            forall|m: int| 0 <= m < i ==> !occurs_at(v@, w@, m),
        decreases last + 1 - i,
    {
        if occurs_at_exec(&v, &w, i) {
            assert(occurs_at(s@, sub@, i as int));
            return true;
        }
        i += 1;
    }
    assert forall|m: int| !occurs_at(s@, sub@, m) by {
        if 0 <= m < i {
        }
    }
    false
}

/// Whether `s` begins with `pre`.
pub fn starts_with_str(s: &str, pre: &str) -> (b: bool)
    ensures
        b == starts_with(s@, pre@),
{
    let v = chars_of(s);
    let w = chars_of(pre);
    if w.len() > v.len() {
        return false;
    }
    let r = occurs_at_exec(&v, &w, 0);
    r
}

/// Whether `s` ends with `suf`.
pub fn ends_with_str(s: &str, suf: &str) -> (b: bool)
    ensures
        b == ends_with(s@, suf@),
{
    let v = chars_of(s);
    let w = chars_of(suf);
    if w.len() > v.len() {
        return false;
    }
    let r = occurs_at_exec(&v, &w, v.len() - w.len());
    r
}

/// Text equality.
pub fn str_eq(a: &str, b: &str) -> (r: bool)
    ensures
        r == (a@ == b@),
{
    let v = chars_of(a);
    let w = chars_of(b);
    if v.len() != w.len() {
        return false;
    }
    let r = occurs_at_exec(&v, &w, 0);
    assert(v@.subrange(0, w@.len() as int) =~= v@);
    r
}

/// Appends `s` with every `c` replaced by `rep`.
pub fn push_replaced(out: &mut String, s: &str, c: char, rep: &str)
    ensures
        final(out)@ == old(out)@ + replace_char(s@, c, rep@),
{
    let v = chars_of(s);
    let ghost start = out@;
    let mut i: usize = 0;
    while i < v.len()
        invariant
            i <= v.len(),
            out@ == start + replace_char(v@.take(i as int), c, rep@),
        decreases v.len() - i,
    {
        if v[i] == c {
            out.append(rep);
        } else {
            push_char(out, v[i]);
        }
        proof {
            let t = v@.take(i + 1);
            assert(t.drop_last() =~= v@.take(i as int));
            assert(t.last() == v@[i as int]);
            assert(out@ =~= start + replace_char(t, c, rep@));
        }
        i += 1;
    }
    assert(v@.take(v.len() as int) =~= v@);
}

/// `"name"` with every `"` inside doubled.
pub fn quote_ident(name: &str) -> (r: String)
    ensures
        r@ == quote_ident_spec(name@),
{
    let mut out = String::new();
    push_char(&mut out, '"');
    push_replaced(&mut out, name, '"', "\"\"");
    push_char(&mut out, '"');
    proof {
        reveal_strlit("\"\"");
        assert("\"\""@ =~= seq!['"', '"']);
    }
    out
}

/// `'text'` with every `'` inside doubled.
pub fn sql_string(s: &str) -> (r: String)
    ensures
        r@ == sql_string_spec(s@),
{
    let mut out = String::new();
    push_char(&mut out, '\'');
    push_replaced(&mut out, s, '\'', "''");
    push_char(&mut out, '\'');
    proof {
        reveal_strlit("''");
        assert("''"@ =~= seq!['\'', '\'']);
    }
    out
}

pub fn digit_char_exec(d: u8) -> (c: char)
    requires
        d < 10,
    ensures
        c == digit_char(d as nat),
{
    (48u8 + d) as char
}

/// Appends the decimal text of `n`.
pub fn push_decimal(out: &mut String, n: u128)
    ensures
        final(out)@ == old(out)@ + decimal(n as nat),
    decreases n,
{
    if n >= 10 {
        push_decimal(out, n / 10);
    }
    let d: u8 = (n % 10) as u8;
    push_char(out, digit_char_exec(d));
    proof {
        if n < 10 {
            assert(decimal(n as nat) =~= seq![digit_char(n as nat)]);
        }
    }
}

/// The decimal text of `n`.
pub fn decimal_string(n: u128) -> (r: String)
    ensures
        r@ == decimal(n as nat),
{
    let mut out = String::new();
    push_decimal(&mut out, n);
    out
}

/// `str::parse::<u64>`.
pub fn parse_u64_str(s: &str) -> (r: Option<u64>)
    ensures
        r == parse_u64(s@),
{
    let v = chars_of(s);
    let mut i: usize = 0;
    if v.len() > 0 && v[0] == '+' {
        i = 1;
    }
    let ghost body = unsigned_body(v@);
    assert(body =~= v@.skip(i as int));
    if i >= v.len() {
        return None;
    }
    let mut acc: u64 = 0;
    let mut k: usize = i;
    while k < v.len()
        invariant
            i <= k <= v@.len(),
            v@ == s@,
            body == unsigned_body(s@),
            body == v@.skip(i as int),
            acc == digits_value(body.take(k - i)),
            all_digits(body.take(k - i)),
        decreases v.len() - k,
    {
        let c = v[k];
        assert(body[k - i] == c);
        if !is_digit_char(c) {
            assert(!all_digits(body));
            return None;
        }
        let d: u64 = ((c as u32) - 48) as u64;
        assert(body.take(k + 1 - i).drop_last() =~= body.take(k - i));
        if acc > 1844674407370955161 || (acc == 1844674407370955161 && d > 5) {
            proof {
                lemma_digits_value_prefix(body, k + 1 - i);
            }
            assert(digits_value(body.take(k + 1 - i)) > u64::MAX);
            proof {
                if all_digits(body) {
                }
            }
            return None;
        }
        acc = acc * 10 + d;
        k += 1;
        assert forall|m: int| 0 <= m < body.take(k - i).len() implies is_digit(
            #[trigger] body.take(k - i)[m],
        ) by {
            if m < k - 1 - i {
                assert(body.take(k - i)[m] == body.take(k - 1 - i)[m]);
            }
        }
    }
    assert(body.take(k - i) =~= body);
    Some(acc)
}

/// The parts joined with `sep` between them.
pub fn join_strings(parts: &Vec<String>, sep: &str) -> (r: String)
    ensures
        r@ == join(parts@.map_values(|p: String| p@), sep@),
{
    let ghost views = parts@.map_values(|p: String| p@);
    let mut out = String::new();
    let mut i: usize = 0;
    while i < parts.len()
        invariant
            i <= parts.len(),
            views == parts@.map_values(|p: String| p@),
            out@ == join(views.take(i as int), sep@),
        decreases parts.len() - i,
    {
        if i > 0 {
            out.append(sep);
        }
        out.append(parts[i].as_str());
        proof {
            let t = views.take(i + 1);
            assert(t.drop_last() =~= views.take(i as int));
            assert(t.last() == parts@[i as int]@);
            if i == 0 {
                assert(views.take(0) =~= Seq::<Seq<char>>::empty());
                assert(out@ =~= t[0]);
            }
        }
        i += 1;
    }
    assert(views.take(parts.len() as int) =~= views);
    out
}

// ---------------------------------------------------------------------------
// Laws
// ---------------------------------------------------------------------------

/// A quoted identifier reads back as the name it quotes, whatever quotes the
/// name holds.
pub proof fn lemma_quote_ident_roundtrip(name: Seq<char>)
    ensures
        unquote(quote_ident_spec(name), '"') == Some(name),
{
    lemma_unquote_quoted(name, '"');
}

/// A quoted string literal reads back as the text it quotes.
pub proof fn lemma_sql_string_roundtrip(s: Seq<char>)
    ensures
        unquote(sql_string_spec(s), '\'') == Some(s),
{
    lemma_unquote_quoted(s, '\'');
}

proof fn lemma_digit_roundtrip(k: nat)
    requires
        k < 10,
    ensures
        digit_value(digit_char(k)) == k,
        is_digit(digit_char(k)),
{
    let v: u8 = (48 + k) as u8;
    assert(v == 48 + k);
    assert((v as char) as u32 == v as u32);
}

proof fn lemma_decimal_digits(n: nat)
    ensures
        decimal(n).len() > 0,
        all_digits(decimal(n)),
        digits_value(decimal(n)) == n,
    decreases n,
{
    if n >= 10 {
        lemma_decimal_digits(n / 10);
        lemma_digit_roundtrip(n % 10);
        assert(n == (n / 10) * 10 + n % 10) by (nonlinear_arith);
        let d = decimal(n / 10).push(digit_char(n % 10));
        assert(d.drop_last() =~= decimal(n / 10));
        assert(d.last() == digit_char(n % 10));
        assert(digits_value(d) == digits_value(d.drop_last()) * 10 + digit_value(d.last()));
        assert(decimal(n) == d);
        assert forall|i: int| 0 <= i < d.len() implies is_digit(#[trigger] d[i]) by {
            if i < d.len() - 1 {
                assert(d[i] == decimal(n / 10)[i]);
            }
        }
    } else {
        lemma_digit_roundtrip(n);
        assert(decimal(n) =~= seq![digit_char(n)]);
        let d = seq![digit_char(n)];
        assert(d.drop_last() =~= Seq::<char>::empty());
        assert(digits_value(d.drop_last()) == 0);
        assert(digits_value(d) == digits_value(d.drop_last()) * 10 + digit_value(d.last()));
    }
}

/// The decimal text of a number reads back as that number.
pub proof fn lemma_decimal_parses(n: u64)
    ensures
        parse_u64(decimal(n as nat)) == Some(n),
{
    lemma_decimal_digits(n as nat);
    let d = decimal(n as nat);
    assert(d[0] != '+');
    assert(unsigned_body(d) == d);
}

} // verus!
