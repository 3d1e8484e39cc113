//! Character-level text utilities over `Vec<char>`, each tied to a spec
//! function over `Seq<char>`.
use vstd::prelude::*;
use vstd::std_specs::iter::IteratorSpec;

verus! {

/// Unicode `White_Space`, the property `char::is_whitespace` tests.
pub open spec fn is_space(c: char) -> bool {
    let u = c as u32;
    (9 <= u && u <= 13) || u == 32 || u == 0x85 || u == 0xa0 || u == 0x1680 || (0x2000 <= u
        && u <= 0x200a) || u == 0x2028 || u == 0x2029 || u == 0x202f || u == 0x205f || u == 0x3000
}

pub fn is_space_char(c: char) -> (r: bool)
    ensures
        r == is_space(c),
{
    let u = c as u32;
    (9 <= u && u <= 13) || u == 32 || u == 0x85 || u == 0xa0 || u == 0x1680 || (0x2000 <= u && u
        <= 0x200a) || u == 0x2028 || u == 0x2029 || u == 0x202f || u == 0x205f || u == 0x3000
}

pub open spec fn is_digit(c: char) -> bool {
    '0' <= c && c <= '9'
}

pub open spec fn digit_value(c: char) -> nat {
    (c as u32 - '0' as u32) as nat
}

pub open spec fn digit_char(d: nat) -> char {
    ((d + 48) as u8) as char
}

pub open spec fn all_digits(s: Seq<char>) -> bool {
    forall|i: int| 0 <= i < s.len() ==> is_digit(#[trigger] s[i])
}

/// The number that a string of decimal digits denotes.
pub open spec fn digits_value(s: Seq<char>) -> nat
    decreases s.len(),
{
    if s.len() == 0 {
        0
    } else {
        digits_value(s.drop_last()) * 10 + digit_value(s.last())
    }
}

/// What `u32::from_str` gives: an optional `+`, then one or more digits,
/// with a value that fits.
pub open spec fn parse_u32(s: Seq<char>) -> Option<u32> {
    let d = if s.len() > 0 && s[0] == '+' {
        s.drop_first()
    } else {
        s
    };
    if d.len() > 0 && all_digits(d) && digits_value(d) <= u32::MAX {
        Some(digits_value(d) as u32)
    } else {
        None
    }
}

/// Decimal notation of `n`, without leading zeros.
pub open spec fn dec(n: nat) -> Seq<char>
    decreases n,
{
    if n < 10 {
        seq![digit_char(n)]
    } else {
        dec(n / 10).push(digit_char(n % 10))
    }
}

/// Decimal notation of `n`, padded with a zero to at least two digits.
pub open spec fn pad2(n: nat) -> Seq<char> {
    if n < 10 {
        seq!['0'] + dec(n)
    } else {
        dec(n)
    }
}

pub open spec fn trim_start(s: Seq<char>) -> Seq<char>
    decreases s.len(),
{
    if s.len() > 0 && is_space(s[0]) {
        trim_start(s.drop_first())
    } else {
        s
    }
}

pub open spec fn trim_end(s: Seq<char>) -> Seq<char>
    decreases s.len(),
{
    if s.len() > 0 && is_space(s.last()) {
        trim_end(s.drop_last())
    } else {
        s
    }
}

pub open spec fn trim(s: Seq<char>) -> Seq<char> {
    trim_end(trim_start(s))
}

pub open spec fn starts_with(s: Seq<char>, p: Seq<char>) -> bool {
    p.len() <= s.len() && s.take(p.len() as int) == p
}

pub open spec fn ends_with(s: Seq<char>, p: Seq<char>) -> bool {
    p.len() <= s.len() && s.skip(s.len() - p.len()) == p
}

pub open spec fn match_at(s: Seq<char>, p: Seq<char>, i: int) -> bool {
    0 <= i && i + p.len() <= s.len() && s.subrange(i, i + p.len()) == p
}

/// The first position at or after `i` where `p` occurs in `s`.
pub open spec fn find_from(s: Seq<char>, p: Seq<char>, i: int) -> Option<int>
    decreases s.len() + 1 - i,
{
    if i < 0 || i + p.len() > s.len() {
        None
    } else if match_at(s, p, i) {
        Some(i)
    } else {
        find_from(s, p, i + 1)
    }
}

/// `s` split around the first occurrence of `p`.
pub open spec fn split_once(s: Seq<char>, p: Seq<char>) -> Option<(Seq<char>, Seq<char>)> {
    match find_from(s, p, 0) {
        Some(i) => Some((s.take(i), s.skip(i + p.len()))),
        None => None,
    }
}

/// `s` from position `i` on, with each occurrence of `p` (nonempty), found
/// left to right without overlap, replaced by `q`.
pub open spec fn replace_from(s: Seq<char>, p: Seq<char>, q: Seq<char>, i: int) -> Seq<char>
    decreases s.len() - i,
{
    if i < 0 || i >= s.len() {
        Seq::empty()
    } else if p.len() > 0 && match_at(s, p, i) {
        q + replace_from(s, p, q, i + p.len())
    } else {
        seq![s[i]] + replace_from(s, p, q, i + 1)
    }
}

pub open spec fn replace(s: Seq<char>, p: Seq<char>, q: Seq<char>) -> Seq<char> {
    replace_from(s, p, q, 0)
}

/// `s` with every leading copy of `p` (nonempty) removed.
pub open spec fn strip_all(s: Seq<char>, p: Seq<char>) -> Seq<char>
    decreases s.len(),
{
    if p.len() > 0 && starts_with(s, p) {
        strip_all(s.skip(p.len() as int), p)
    } else {
        s
    }
}

/// Scan state of whitespace splitting: the words closed so far and the
/// word being read.
pub open spec fn words_scan(s: Seq<char>) -> (Seq<Seq<char>>, Seq<char>)
    decreases s.len(),
{
    if s.len() == 0 {
        (Seq::empty(), Seq::empty())
    } else {
        let (ws, cur) = words_scan(s.drop_last());
        if is_space(s.last()) {
            if cur.len() > 0 {
                (ws.push(cur), Seq::empty())
            } else {
                (ws, Seq::empty())
            }
        } else {
            (ws, cur.push(s.last()))
        }
    }
}

/// The maximal runs of non-whitespace characters of `s`, in order.
pub open spec fn words(s: Seq<char>) -> Seq<Seq<char>> {
    let (ws, cur) = words_scan(s);
    if cur.len() > 0 {
        ws.push(cur)
    } else {
        ws
    }
}

/// The pieces of `ws` with `sep` between each two.
pub open spec fn join(ws: Seq<Seq<char>>, sep: Seq<char>) -> Seq<char>
    decreases ws.len(),
{
    if ws.len() == 0 {
        Seq::empty()
    } else if ws.len() == 1 {
        ws[0]
    } else {
        join(ws.drop_last(), sep) + sep + ws.last()
    }
}

/// The digits of `s`, in order.
pub open spec fn filter_digits(s: Seq<char>) -> Seq<char>
    decreases s.len(),
{
    if s.len() == 0 {
        Seq::empty()
    } else if is_digit(s.last()) {
        filter_digits(s.drop_last()).push(s.last())
    } else {
        filter_digits(s.drop_last())
    }
}

/// `s` without its whitespace characters.
pub open spec fn remove_spaces(s: Seq<char>) -> Seq<char>
    decreases s.len(),
{
    if s.len() == 0 {
        Seq::empty()
    } else if is_space(s.last()) {
        remove_spaces(s.drop_last())
    } else {
        remove_spaces(s.drop_last()).push(s.last())
    }
}

/// What `str::to_lowercase` returns for a text.
pub uninterp spec fn lower_of(s: Seq<char>) -> Seq<char>;

/// The views of a list of texts.
pub open spec fn views(ws: Seq<Vec<char>>) -> Seq<Seq<char>> {
    ws.map_values(|w: Vec<char>| w@)
}

/// Whitespace runs collapsed to one space, and none at either end.
pub open spec fn collapse_spaces(s: Seq<char>) -> Seq<char> {
    join(words(s), seq![' '])
}


/// Whether `lit` occurs in `s` at position `i`.
pub fn lit_at(s: &Vec<char>, i: usize, lit: &str) -> (r: bool)
    ensures
        r == match_at(s@, lit@, i as int),
{
    let n = lit.unicode_len();
    if i > s.len() || n > s.len() - i {
        return false;
    }
    let mut k: usize = 0;
    while k < n
        invariant
            n == lit@.len(),
            i + n <= s.len(),
            k <= n,
            forall|j: int| 0 <= j < k ==> s@[i + j] == lit@[j],
        decreases n - k,
    {
        if s[i + k] != lit.get_char(k) {
            assert(s@.subrange(i as int, i + n)[k as int] != lit@[k as int]);
            return false;
        }
        k = k + 1;
    }
    assert(s@.subrange(i as int, i + n) =~= lit@);
    true
}

pub fn starts_with_lit(s: &Vec<char>, lit: &str) -> (r: bool)
    ensures
        r == starts_with(s@, lit@),
{
    let r = lit_at(s, 0, lit);
    proof {
        if lit@.len() <= s@.len() {
            assert(s@.take(lit@.len() as int) =~= s@.subrange(0, lit@.len() as int));
        }
    }
    r
}

pub fn ends_with_lit(s: &Vec<char>, lit: &str) -> (r: bool)
    ensures
        r == ends_with(s@, lit@),
{
    let n = lit.unicode_len();
    if n > s.len() {
        return false;
    }
    let r = lit_at(s, s.len() - n, lit);
    proof {
        assert(s@.skip(s@.len() - n) =~= s@.subrange(s@.len() - n, s@.len() as int));
    }
    r
}

pub fn eq_lit(s: &Vec<char>, lit: &str) -> (r: bool)
    ensures
        r == (s@ == lit@),
{
    let r = s.len() == lit.unicode_len() && lit_at(s, 0, lit);
    proof {
        if s@.len() == lit@.len() {
            assert(s@.subrange(0, s@.len() as int) =~= s@);
        }
    }
    r
}

/// Characters `i..j` of `s`.
pub fn slice_of(s: &Vec<char>, i: usize, j: usize) -> (r: Vec<char>)
    requires
        i <= j <= s@.len(),
    ensures
        r@ == s@.subrange(i as int, j as int),
{
    let mut r: Vec<char> = Vec::new();
    let mut k = i;
    while k < j
        invariant
            i <= k <= j <= s@.len(),
            r@ == s@.subrange(i as int, k as int),
        decreases j - k,
    {
        r.push(s[k]);
        k = k + 1;
        assert(r@ =~= s@.subrange(i as int, k as int));
    }
    r
}

pub fn skip_of(s: &Vec<char>, i: usize) -> (r: Vec<char>)
    requires
        i <= s@.len(),
    ensures
        r@ == s@.skip(i as int),
{
    let r = slice_of(s, i, s.len());
    assert(r@ =~= s@.skip(i as int));
    r
}

pub fn trim_chars(s: &Vec<char>) -> (r: Vec<char>)
    ensures
        r@ == trim(s@),
{
    let n = s.len();
    let mut i: usize = 0;
    assert(s@.subrange(0, n as int) =~= s@);
    while i < n && is_space_char(s[i])
        invariant
            i <= n == s@.len(),
            trim_start(s@) == trim_start(s@.subrange(i as int, n as int)),
        decreases n - i,
    {
        assert(s@.subrange(i as int, n as int).drop_first() =~= s@.subrange(i + 1, n as int));
        i = i + 1;
    }
    assert(trim_start(s@.subrange(i as int, n as int)) == s@.subrange(i as int, n as int));
    let mut j: usize = n;
    while j > i && is_space_char(s[j - 1])
        invariant
            i <= j <= n == s@.len(),
            trim(s@) == trim_end(s@.subrange(i as int, j as int)),
        decreases j,
    {
        assert(s@.subrange(i as int, j as int).drop_last() =~= s@.subrange(i as int, j - 1));
        j = j - 1;
    }
    slice_of(s, i, j)
}

/// The first position of `lit` in `s`.
pub fn find_lit(s: &Vec<char>, lit: &str) -> (r: Option<usize>)
    ensures
        r matches Some(i) ==> find_from(s@, lit@, 0) == Some(i as int) && match_at(
            s@,
            lit@,
            i as int,
        ),
        r is None ==> find_from(s@, lit@, 0) is None,
{
    let n = lit.unicode_len();
    if n > s.len() {
        return None;
    }
    if n == 0 {
        assert(s@.subrange(0, 0) =~= lit@);
        return Some(0);
    }
    let mut i: usize = 0;
    while i <= s.len() - n
        invariant
            0 < n == lit@.len() <= s@.len(),
            s@.len() <= usize::MAX,
            i <= s@.len() - n + 1,
            find_from(s@, lit@, 0) == find_from(s@, lit@, i as int),
        decreases s@.len() + 1 - i,
    {
        if lit_at(s, i, lit) {
            return Some(i);
        }
        i = i + 1;
    }
    None
}

pub fn split_once_lit(s: &Vec<char>, lit: &str) -> (r: Option<(Vec<char>, Vec<char>)>)
    ensures
        r matches Some(p) ==> split_once(s@, lit@) == Some((p.0@, p.1@)),
        r is None ==> split_once(s@, lit@) is None,
{
    match find_lit(s, lit) {
        Some(i) => {
            let n = lit.unicode_len();
            assert(match_at(s@, lit@, i as int));
            let len = s.len();
            let a = slice_of(s, 0, i);
            let b = skip_of(s, i + n);
            assert(a@ =~= s@.take(i as int));
            Some((a, b))
        },
        None => None,
    }
}

pub fn replace_lit(s: &Vec<char>, p: &str, q: &str) -> (r: Vec<char>)
    requires
        p@.len() > 0,
    ensures
        r@ == replace(s@, p@, q@),
{
    let n = p.unicode_len();
    let mut out: Vec<char> = Vec::new();
    let mut i: usize = 0;
    while i < s.len()
        invariant
            n == p@.len() > 0,
            i <= s@.len(),
            out@ + replace_from(s@, p@, q@, i as int) == replace(s@, p@, q@),
        decreases s@.len() - i,
    {
        if lit_at(s, i, p) {
            let ghost before = out@;
            push_lit(&mut out, q);
            assert(before + replace_from(s@, p@, q@, i as int) == before + (q@ + replace_from(
                s@,
                p@,
                q@,
                i + n,
            )));
            assert(before + (q@ + replace_from(s@, p@, q@, i + n)) =~= out@ + replace_from(
                s@,
                p@,
                q@,
                i + n,
            ));
            i = i + n;
        } else {
            let ghost before = out@;
            out.push(s[i]);
            assert(before + (seq![s@[i as int]] + replace_from(s@, p@, q@, i + 1))
                =~= out@ + replace_from(s@, p@, q@, i + 1));
            i = i + 1;
        }
    }
    assert(out@ =~= out@ + replace_from(s@, p@, q@, i as int));
    out
}

pub fn strip_all_lit(s: &Vec<char>, p: &str) -> (r: Vec<char>)
    requires
        p@.len() > 0,
    ensures
        r@ == strip_all(s@, p@),
{
    let n = p.unicode_len();
    let mut i: usize = 0;
    let len = s.len();
    assert(s@.skip(0) =~= s@);
    let mut more = lit_at(s, 0, p);
    while more
        invariant
            n == p@.len() > 0,
            len == s@.len(),
            i <= s@.len(),
            more == match_at(s@, p@, i as int),
            strip_all(s@, p@) == strip_all(s@.skip(i as int), p@),
        decreases s@.len() - i,
    {
        assert(match_at(s@, p@, i as int));
        proof {
            assert(s@.skip(i as int).take(n as int) =~= s@.subrange(i as int, i + n));
            assert(s@.skip(i as int).skip(n as int) =~= s@.skip(i + n));
        }
        i = i + n;
        more = lit_at(s, i, p);
    }
    proof {
        if starts_with(s@.skip(i as int), p@) {
            assert(s@.skip(i as int).take(n as int) =~= s@.subrange(i as int, i + n));
        }
    }
    skip_of(s, i)
}

pub fn split_words(s: &Vec<char>) -> (r: Vec<Vec<char>>)
    ensures
        views(r@) == words(s@),
{
    let mut ws: Vec<Vec<char>> = Vec::new();
    let mut cur: Vec<char> = Vec::new();
    let mut i: usize = 0;
    while i < s.len()
        invariant
            i <= s@.len(),
            (views(ws@), cur@) == words_scan(s@.take(i as int)),
        decreases s@.len() - i,
    {
        assert(s@.take(i + 1).drop_last() =~= s@.take(i as int));
        let c = s[i];
        if is_space_char(c) {
            if cur.len() > 0 {
                let ghost old_ws = views(ws@);
                let w = cur;
                ws.push(w);
                assert(views(ws@) =~= old_ws.push(w@));
                cur = Vec::new();
            } else {
                cur = Vec::new();
            }
        } else {
            cur.push(c);
        }
        i = i + 1;
    }
    assert(s@.take(i as int) =~= s@);
    if cur.len() > 0 {
        let ghost old_ws = views(ws@);
        let w = cur;
        ws.push(w);
        assert(views(ws@) =~= old_ws.push(w@));
    }
    ws
}

pub fn join_with(ws: &Vec<Vec<char>>, sep: &str) -> (r: Vec<char>)
    ensures
        r@ == join(views(ws@), sep@),
{
    let mut out: Vec<char> = Vec::new();
    let mut i: usize = 0;
    while i < ws.len()
        invariant
            i <= ws@.len(),
            out@ == join(views(ws@).take(i as int), sep@),
        decreases ws@.len() - i,
    {
        let ghost dv = views(ws@);
        assert(dv.take(i + 1).drop_last() =~= dv.take(i as int));
        if i > 0 {
            push_lit(&mut out, sep);
        }
        push_all(&mut out, &ws[i]);
        i = i + 1;
        proof {
            if i == 1 {
                assert(out@ =~= dv.take(1)[0]);
            }
        }
    }
    assert(views(ws@).take(i as int) =~= views(ws@));
    out
}

pub fn push_lit(v: &mut Vec<char>, lit: &str)
    ensures
        final(v)@ == old(v)@ + lit@,
{
    let n = lit.unicode_len();
    let mut k: usize = 0;
    while k < n
        invariant
            n == lit@.len(),
            k <= n,
            v@ == old(v)@ + lit@.take(k as int),
        decreases n - k,
    {
        v.push(lit.get_char(k));
        k = k + 1;
        assert(v@ =~= old(v)@ + lit@.take(k as int));
    }
    assert(lit@.take(n as int) =~= lit@);
}

pub fn push_all(v: &mut Vec<char>, w: &Vec<char>)
    ensures
        final(v)@ == old(v)@ + w@,
{
    let mut k: usize = 0;
    while k < w.len()
        invariant
            k <= w@.len(),
            v@ == old(v)@ + w@.take(k as int),
        decreases w@.len() - k,
    {
        v.push(w[k]);
        k = k + 1;
        assert(v@ =~= old(v)@ + w@.take(k as int));
    }
    assert(w@.take(k as int) =~= w@);
}

pub fn digit_to_char(d: u32) -> (c: char)
    requires
        d < 10,
    ensures
        c == digit_char(d as nat),
{
    ((d as u8) + 48u8) as char
}

/// Appends the decimal notation of `n`.
pub fn push_decimal(v: &mut Vec<char>, n: u32)
    ensures
        final(v)@ == old(v)@ + dec(n as nat),
    decreases n,
{
    if n >= 10 {
        push_decimal(v, n / 10);
    }
    v.push(digit_to_char(n % 10));
    assert(v@ =~= old(v)@ + dec(n as nat));
}

/// Appends `n` in decimal, padded with a zero to at least two digits.
pub fn push_pad2(v: &mut Vec<char>, n: u32)
    ensures
        final(v)@ == old(v)@ + pad2(n as nat),
{
    if n < 10 {
        v.push('0');
    }
    push_decimal(v, n);
    assert(v@ =~= old(v)@ + pad2(n as nat));
}


pub fn is_digit_char(c: char) -> (r: bool)
    ensures
        r == is_digit(c),
{
    '0' <= c && c <= '9'
}

pub fn filter_digit_chars(s: &Vec<char>) -> (r: Vec<char>)
    ensures
        r@ == filter_digits(s@),
{
    let mut r: Vec<char> = Vec::new();
    let mut k: usize = 0;
    while k < s.len()
        invariant
            k <= s@.len(),
            r@ == filter_digits(s@.take(k as int)),
        decreases s@.len() - k,
    {
        assert(s@.take(k + 1).drop_last() =~= s@.take(k as int));
        if is_digit_char(s[k]) {
            r.push(s[k]);
        }
        k = k + 1;
    }
    assert(s@.take(k as int) =~= s@);
    r
}

pub fn remove_space_chars(s: &Vec<char>) -> (r: Vec<char>)
    ensures
        r@ == remove_spaces(s@),
{
    let mut r: Vec<char> = Vec::new();
    let mut k: usize = 0;
    while k < s.len()
        invariant
            k <= s@.len(),
            r@ == remove_spaces(s@.take(k as int)),
        decreases s@.len() - k,
    {
        assert(s@.take(k + 1).drop_last() =~= s@.take(k as int));
        if !is_space_char(s[k]) {
            r.push(s[k]);
        }
        k = k + 1;
    }
    assert(s@.take(k as int) =~= s@);
    r
}

/// Reads an unsigned 32-bit number as `u32::from_str` does.
pub fn parse_u32_chars(s: &Vec<char>) -> (r: Option<u32>)
    ensures
        r == parse_u32(s@),
{
    let start: usize = if s.len() > 0 && s[0] == '+' {
        1
    } else {
        0
    };
    let d = skip_of(s, start);
    assert(start == 0 ==> d@ =~= s@);
    assert(start == 1 ==> d@ =~= s@.drop_first());
    let ghost dd = if s@.len() > 0 && s@[0] == '+' {
        s@.drop_first()
    } else {
        s@
    };
    assert(dd == d@);
    if d.len() == 0 {
        return None;
    }
    let cap: u64 = 0x1_0000_0000;
    let mut v: u64 = 0;
    let mut k: usize = 0;
    while k < d.len()
        invariant
            k <= d@.len(),
            cap == u32::MAX + 1,
            parse_u32(s@) == (if d@.len() > 0 && all_digits(d@) && digits_value(d@) <= u32::MAX {
                Some(digits_value(d@) as u32)
            } else {
                None
            }),
            all_digits(d@.take(k as int)),
            v == if digits_value(d@.take(k as int)) < cap {
                digits_value(d@.take(k as int))
            } else {
                cap as nat
            },
        decreases d@.len() - k,
    {
        let c = d[k];
        if !is_digit_char(c) {
            assert(!is_digit(d@[k as int]));
            assert(!all_digits(d@));
            return None;
        }
        let dv = (c as u32 - 48) as u64;
        let ghost prev = digits_value(d@.take(k as int));
        assert(d@.take(k + 1).drop_last() =~= d@.take(k as int));
        assert(digits_value(d@.take(k + 1)) == prev * 10 + dv);
        if v < cap {
            let w = v * 10 + dv;
            v = if w < cap {
                w
            } else {
                cap
            };
        } else {
            assert(prev * 10 + dv >= cap) by (nonlinear_arith)
                requires
                    prev >= cap,
                    dv >= 0,
            ;
        }
        k = k + 1;
        assert(all_digits(d@.take(k as int)));
    }
    assert(d@.take(k as int) =~= d@);
    if v < cap {
        Some(v as u32)
    } else {
        None
    }
}

/// Relies on `str::to_lowercase`: the result depends on the characters alone.
#[verifier::external_body]
pub(crate) fn lowercase(s: &str) -> (r: String)
    ensures
        r@ == lower_of(s@),
{
    s.to_lowercase()
}

/// Relies on `String`'s `FromIterator<&char>`: the characters, in order.
#[verifier::external_body]
pub(crate) fn text_of(v: &Vec<char>) -> (r: String)
    ensures
        r@ == v@,
{
    String::from_iter(v.iter())
}

/// The characters of `s`, in order.
pub fn chars_of(s: &str) -> (r: Vec<char>)
    ensures
        r@ == s@,
{
    broadcast use vstd::string::group_string_axioms;

    let mut it = s.chars();
    let mut v: Vec<char> = Vec::new();
    loop
        invariant
            it.obeys_prophetic_iter_laws(),
            it.decrease() is Some,
            v@ + it.remaining() == s@,
        decreases it.decrease()->0,
    {
        match it.next() {
            Some(c) => {
                v.push(c);
                assert(v@ + it.remaining() =~= s@);
            },
            None => {
                assert(v@ =~= s@);
                return v;
            },
        }
    }
}

} // verus!
