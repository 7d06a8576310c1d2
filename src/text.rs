//! Character classes, scanning helpers and conversions between strings and
//! character vectors that the parsers and renderers share.
use vstd::prelude::*;

verus! {

/// Unicode white space, as `char::is_whitespace` defines it.
pub open spec fn space_char(c: char) -> bool {
    ||| c == '\t'
    ||| c == '\n'
    ||| c == '\x0B'
    ||| c == '\x0C'
    ||| c == '\r'
    ||| c == ' '
    ||| c == '\u{85}'
    ||| c == '\u{A0}'
    ||| c == '\u{1680}'
    ||| ('\u{2000}' <= c && c <= '\u{200A}')
    ||| c == '\u{2028}'
    ||| c == '\u{2029}'
    ||| c == '\u{202F}'
    ||| c == '\u{205F}'
    ||| c == '\u{3000}'
}

/// An ASCII decimal digit.
pub open spec fn digit_char(c: char) -> bool {
    '0' <= c && c <= '9'
}

/// An identifier character: ASCII letter, digit or underscore.
pub open spec fn word_char(c: char) -> bool {
    ||| ('a' <= c && c <= 'z')
    ||| ('A' <= c && c <= 'Z')
    ||| digit_char(c)
    ||| c == '_'
}

/// The classes of characters that the output grammars scan runs of.
#[derive(Debug, Clone, Copy, PartialEq, Eq, Structural)]
pub enum CharClass {
    Digit,
    Word,
    Space,
    /// Anything but a colon or white space.
    PathChar,
    /// Anything but a line feed.
    LineChar,
}

pub open spec fn in_class(k: CharClass, c: char) -> bool {
    match k {
        CharClass::Digit => digit_char(c),
        CharClass::Word => word_char(c),
        CharClass::Space => space_char(c),
        CharClass::PathChar => c != ':' && !space_char(c),
        CharClass::LineChar => c != '\n',
    }
}

pub fn is_space(c: char) -> (r: bool)
    ensures
        r == space_char(c),
{
    c == '\t' || c == '\n' || c == '\x0B' || c == '\x0C' || c == '\r' || c == ' ' || c == '\u{85}'
        || c == '\u{A0}' || c == '\u{1680}' || ('\u{2000}' <= c && c <= '\u{200A}') || c == '\u{2028}'
        || c == '\u{2029}' || c == '\u{202F}' || c == '\u{205F}' || c == '\u{3000}'
}

pub fn is_digit(c: char) -> (r: bool)
    ensures
        r == digit_char(c),
{
    '0' <= c && c <= '9'
}

pub fn is_word(c: char) -> (r: bool)
    ensures
        r == word_char(c),
{
    ('a' <= c && c <= 'z') || ('A' <= c && c <= 'Z') || ('0' <= c && c <= '9') || c == '_'
}

pub fn char_in_class(k: CharClass, c: char) -> (r: bool)
    ensures
        r == in_class(k, c),
{
    match k {
        CharClass::Digit => is_digit(c),
        CharClass::Word => is_word(c),
        CharClass::Space => is_space(c),
        CharClass::PathChar => c != ':' && !is_space(c),
        CharClass::LineChar => c != '\n',
    }
}

/// End of the maximal run of class `k` that starts at `i`.
pub open spec fn run_end(s: Seq<char>, i: int, k: CharClass) -> int
    decreases s.len() - i,
{
    if 0 <= i < s.len() && in_class(k, s[i]) {
        run_end(s, i + 1, k)
    } else {
        i
    }
}

pub proof fn lemma_run_end(s: Seq<char>, i: int, k: CharClass)
    requires
        0 <= i <= s.len(),
    ensures
        i <= run_end(s, i, k) <= s.len(),
        forall|j: int| i <= j < run_end(s, i, k) ==> in_class(k, #[trigger] s[j]),
        run_end(s, i, k) < s.len() ==> !in_class(k, s[run_end(s, i, k)]),
    decreases s.len() - i,
{
    if i < s.len() && in_class(k, s[i]) {
        lemma_run_end(s, i + 1, k);
    }
}

/// Scans the run of class `k` that starts at `i` and returns where it ends.
pub fn scan_run(s: &Vec<char>, i: usize, k: CharClass) -> (j: usize)
    requires
        i <= s.len(),
    ensures
        j == run_end(s@, i as int, k),
        i <= j <= s.len(),
{
    let mut j: usize = i;
    while j < s.len() && char_in_class(k, s[j])
        invariant
            i <= j <= s.len(),
            run_end(s@, j as int, k) == run_end(s@, i as int, k),
        decreases s.len() - j,
    {
        j = j + 1;
    }
    j
}

/// Start of the run of class `k` that ends at `e`, not before `lo`.
pub open spec fn run_start(s: Seq<char>, lo: int, e: int, k: CharClass) -> int
    decreases e - lo,
{
    if lo < e && in_class(k, s[e - 1]) {
        run_start(s, lo, e - 1, k)
    } else {
        e
    }
}

/// Scans backwards the run of class `k` that ends at `e`, not before `lo`.
pub fn scan_run_back(s: &Vec<char>, lo: usize, e: usize, k: CharClass) -> (j: usize)
    requires
        lo <= e <= s.len(),
    ensures
        j == run_start(s@, lo as int, e as int, k),
        lo <= j <= e,
{
    let mut j: usize = e;
    while lo < j && char_in_class(k, s[j - 1])
        invariant
            lo <= j <= e <= s.len(),
            run_start(s@, lo as int, j as int, k) == run_start(s@, lo as int, e as int, k),
        decreases j,
    {
        j = j - 1;
    }
    j
}

/// `s` without leading and trailing white space.
pub open spec fn trimmed(s: Seq<char>) -> Seq<char> {
    let a = run_end(s, 0, CharClass::Space);
    s.subrange(a, run_start(s, a, s.len() as int, CharClass::Space))
}

/// Where the trimmed text of `s` starts and ends.
pub fn trim_bounds(s: &Vec<char>) -> (r: (usize, usize))
    ensures
        r.0 <= r.1 <= s.len(),
        s@.subrange(r.0 as int, r.1 as int) == trimmed(s@),
{
    let a = scan_run(s, 0, CharClass::Space);
    let b = scan_run_back(s, a, s.len(), CharClass::Space);
    (a, b)
}

/// Value of a sequence of ASCII digits.
pub open spec fn digits_value(s: Seq<char>) -> nat
    decreases s.len(),
{
    if s.len() == 0 {
        0
    } else {
        digits_value(s.drop_last()) * 10 + ((s.last() as u32 - '0' as u32) as nat)
    }
}

/// A decimal number read into a `u32`, or 0 where it does not fit.
pub open spec fn u32_or_zero(s: Seq<char>) -> u32 {
    if digits_value(s) <= u32::MAX {
        digits_value(s) as u32
    } else {
        0
    }
}

/// Reads the digits `s[from..to]` as a `u32`, giving 0 where the value does
/// not fit.
pub fn read_u32(s: &Vec<char>, from: usize, to: usize) -> (r: u32)
    requires
        from <= to <= s.len(),
        forall|j: int| from <= j < to ==> digit_char(#[trigger] s@[j]),
    ensures
        r == u32_or_zero(s@.subrange(from as int, to as int)),
{
    let mut acc: u64 = 0;
    let mut over = false;
    let mut i: usize = from;
    while i < to
        invariant
            from <= i <= to <= s.len(),
            forall|j: int| from <= j < to ==> digit_char(#[trigger] s@[j]),
            over ==> digits_value(s@.subrange(from as int, i as int)) > u32::MAX,
            !over ==> acc == digits_value(s@.subrange(from as int, i as int)),
            !over ==> acc <= u32::MAX,
        decreases to - i,
    {
        let ghost p = s@.subrange(from as int, i as int);
        let ghost q = s@.subrange(from as int, i + 1);
        assert(q.drop_last() == p);
        let d = (s[i] as u32 - '0' as u32) as u64;
        assert(digit_char(s@[i as int]));
        if !over {
            acc = acc * 10 + d;
            if acc > 4294967295 {
                over = true;
            }
        } else {
            assert(digits_value(q) >= digits_value(p)) by (nonlinear_arith)
                requires
                    digits_value(q) == digits_value(p) * 10 + ((q.last() as u32 - '0' as u32) as nat),
            ;
        }
        i = i + 1;
    }
    if over {
        0
    } else {
        acc as u32
    }
}

/// The ASCII digit for `d`, where `d < 10`.
pub open spec fn digit_of(d: nat) -> char {
    ((48 + d) as u8) as char
}

/// Decimal notation of a natural number.
pub open spec fn decimal(n: nat) -> Seq<char>
    decreases n,
{
    if n < 10 {
        seq![digit_of(n)]
    } else {
        decimal(n / 10).push(digit_of(n % 10))
    }
}

/// Appends the decimal notation of `n` to `out`.
pub fn push_decimal(n: u64, out: &mut Vec<char>)
    ensures
        final(out)@ == old(out)@ + decimal(n as nat),
    decreases n,
{
    if n >= 10 {
        push_decimal(n / 10, out);
    }
    let d = (n % 10) as u8;
    out.push((48u8 + d) as char);
}

/// The characters of `s`, in order.
pub fn chars_of(s: &str) -> (r: Vec<char>)
    ensures
        r@ == s@,
{
    let mut r: Vec<char> = Vec::new();
    for c in it: s.chars()
        invariant
            r@ == it.seq().subrange(0, it.index() as int),
    {
        r.push(c);
    }
    r
}

/// Relies on `String: FromIterator<char>`: a string of exactly the
/// characters `v[from..to]`.
#[verifier::external_body]
pub fn string_of(v: &Vec<char>, from: usize, to: usize) -> (r: String)
    requires
        from <= to <= v.len(),
    ensures
        r@ == v@.subrange(from as int, to as int),
{
    v[from..to].iter().collect()
}

/// A copy of `v[from..to]`.
pub fn sub_vec(v: &Vec<char>, from: usize, to: usize) -> (r: Vec<char>)
    requires
        from <= to <= v.len(),
    ensures
        r@ == v@.subrange(from as int, to as int),
{
    let mut r: Vec<char> = Vec::new();
    let mut i: usize = from;
    while i < to
        invariant
            from <= i <= to <= v.len(),
            r@ == v@.subrange(from as int, i as int),
        decreases to - i,
    {
        r.push(v[i]);
        i = i + 1;
    }
    r
}

/// Whether `v[from..to]` holds exactly the characters of `s`.
pub fn sub_eq(v: &Vec<char>, from: usize, to: usize, s: &str) -> (r: bool)
    requires
        from <= to <= v.len(),
    ensures
        r == (v@.subrange(from as int, to as int) == s@),
{
    let w = chars_of(s);
    if to - from != w.len() {
        return false;
    }
    let mut i: usize = 0;
    while i < w.len()
        invariant
            from <= to <= v.len(),
            to - from == w.len(),
            w@ == s@,
            i <= w.len(),
            forall|j: int| 0 <= j < i ==> v@[from + j] == w@[j],
        decreases w.len() - i,
    {
        if v[from + i] != w[i] {
            assert(v@.subrange(from as int, to as int)[i as int] != s@[i as int]);
            return false;
        }
        i = i + 1;
    }
    assert(v@.subrange(from as int, to as int) =~= s@);
    true
}

/// Appends the characters of `s` to `out`.
pub fn push_str(out: &mut Vec<char>, s: &str)
    ensures
        final(out)@ == old(out)@ + s@,
{
    let mut cs = chars_of(s);
    out.append(&mut cs);
}


/// The characters that `String::from_utf8_lossy` decodes from a byte
/// sequence.
pub uninterp spec fn utf8_lossy(b: Seq<u8>) -> Seq<char>;

/// Relies on `String::from_utf8_lossy`: the text of the bytes, with each
/// invalid sequence replaced; no bytes give no characters.
#[verifier::external_body]
pub fn decode_lossy(b: &Vec<u8>) -> (r: String)
    ensures
        r@ == utf8_lossy(b@),
        b@.len() == 0 ==> r@.len() == 0,
{
    String::from_utf8_lossy(b).into_owned()
}


/// Lexicographic order on texts, by character: a proper prefix comes first.
pub open spec fn lex_le(a: Seq<char>, b: Seq<char>) -> bool
    decreases a.len(),
{
    if a.len() == 0 {
        true
    } else if b.len() == 0 {
        false
    } else if (a[0] as u32) != (b[0] as u32) {
        (a[0] as u32) < (b[0] as u32)
    } else {
        lex_le(a.drop_first(), b.drop_first())
    }
}

/// Of two texts, one comes no later than the other.
pub proof fn lemma_lex_total(a: Seq<char>, b: Seq<char>)
    ensures
        lex_le(a, b) || lex_le(b, a),
    decreases a.len(),
{
    if a.len() > 0 && b.len() > 0 && (a[0] as u32) == (b[0] as u32) {
        lemma_lex_total(a.drop_first(), b.drop_first());
    }
}

/// Each text comes no later than the next.
pub open spec fn sorted(s: Seq<Seq<char>>) -> bool {
    forall|i: int| 0 <= i < s.len() - 1 ==> lex_le(#[trigger] s[i], s[i + 1])
}

/// Whether `a` comes no later than `b` in lexicographic order.
pub fn text_le(a: &str, b: &str) -> (r: bool)
    ensures
        r == lex_le(a@, b@),
{
    let x = chars_of(a);
    let y = chars_of(b);
    let mut i: usize = 0;
    assert(x@.subrange(0, x@.len() as int) =~= x@);
    assert(y@.subrange(0, y@.len() as int) =~= y@);
    while i < x.len() && i < y.len() && (x[i] as u32) == (y[i] as u32)
        invariant
            i <= x@.len(),
            i <= y@.len(),
            x@ == a@,
            y@ == b@,
            lex_le(a@, b@) == lex_le(
                x@.subrange(i as int, x@.len() as int),
                y@.subrange(i as int, y@.len() as int),
            ),
        decreases x.len() - i,
    {
        let ghost xs = x@.subrange(i as int, x@.len() as int);
        let ghost ys = y@.subrange(i as int, y@.len() as int);
        assert(xs.drop_first() =~= x@.subrange(i + 1, x@.len() as int));
        assert(ys.drop_first() =~= y@.subrange(i + 1, y@.len() as int));
        i = i + 1;
    }
    let ghost xs = x@.subrange(i as int, x@.len() as int);
    let ghost ys = y@.subrange(i as int, y@.len() as int);
    if i == x.len() {
        assert(xs.len() == 0);
        true
    } else if i == y.len() {
        false
    } else {
        assert(xs[0] == x@[i as int] && ys[0] == y@[i as int]);
        (x[i] as u32) < (y[i] as u32)
    }
}

/// The texts in lexicographic order.
pub fn sort_texts(v: Vec<String>) -> (r: Vec<String>)
    ensures
        texts(r@).to_multiset() == texts(v@).to_multiset(),
        sorted(texts(r@)),
{
    broadcast use vstd::seq_lib::to_multiset_insert;

    let ghost all = v@;
    let mut rest = v;
    let mut out: Vec<String> = Vec::new();
    let mut taken: usize = 0;
    assert(all.len() == rest.len());
    assert(texts(out@) =~= texts(all.subrange(0, 0)));
    while rest.len() > 0
        invariant
            all.len() <= usize::MAX,
            taken + rest@.len() == all.len(),
            rest@ == all.subrange(taken as int, all.len() as int),
            texts(out@).to_multiset() == texts(all.subrange(0, taken as int)).to_multiset(),
            sorted(texts(out@)),
        decreases rest@.len(),
    {
        let x = rest.remove(0);
        proof {
            assert(x == all[taken as int]);
            assert(rest@ =~= all.subrange(taken + 1, all.len() as int));
        }
        let mut p: usize = 0;
        while p < out.len() && text_le(out[p].as_str(), x.as_str())
            invariant
                p <= out@.len(),
                forall|i: int| 0 <= i < p ==> lex_le(#[trigger] out@[i]@, x@),
            decreases out.len() - p,
        {
            p = p + 1;
        }
        let ghost before = texts(out@);
        proof {
            if p < out@.len() {
                lemma_lex_total(out@[p as int]@, x@);
            }
        }
        out.insert(p, x);
        proof {
            let now = texts(out@);
            assert(now =~= before.insert(p as int, x@));
            assert(texts(all.subrange(0, taken + 1)) =~= texts(all.subrange(0, taken as int)).push(x@));
            let pre = texts(all.subrange(0, taken as int));
            assert(pre.push(x@) =~= pre.insert(taken as int, x@));
            vstd::seq_lib::to_multiset_insert(pre, taken as int, x@);
            vstd::seq_lib::to_multiset_insert(before, p as int, x@);
            assert(now.to_multiset() == before.to_multiset().insert(x@));
            assert(texts(all.subrange(0, taken + 1)).to_multiset() == pre.to_multiset().insert(x@));
            assert forall|i: int| 0 <= i < now.len() - 1 implies lex_le(#[trigger] now[i], now[i + 1]) by {
                if i < p - 1 {
                    assert(now[i] == before[i] && now[i + 1] == before[i + 1]);
                } else if i == p - 1 {
                    assert(now[i] == before[i] && now[i + 1] == x@);
                } else if i == p {
                    assert(now[i] == x@ && now[i + 1] == before[i]);
                } else {
                    assert(now[i] == before[i - 1] && now[i + 1] == before[i]);
                }
            }
        }
        taken = taken + 1;
    }
    assert(all.subrange(0, taken as int) =~= all);
    out
}

/// The texts of a sequence of strings.
pub open spec fn texts(v: Seq<String>) -> Seq<Seq<char>> {
    v.map_values(|s: String| s@)
}

} // verus!
