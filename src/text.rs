//! Text helpers over `Seq<char>`: splitting on a separator, and hexadecimal
//! and decimal renderings of numbers.
use vstd::prelude::*;

verus! {

/// The pieces of `s` between occurrences of `sep`, as `str::split` yields
/// them: never empty, and one more piece than `s` has separators.
pub open spec fn split_on(s: Seq<char>, sep: char) -> Seq<Seq<char>>
    decreases s.len(),
{
    if s.len() == 0 {
        seq![Seq::<char>::empty()]
    } else {
        let rest = split_on(s.drop_last(), sep);
        if s.last() == sep {
            rest.push(Seq::<char>::empty())
        } else {
            rest.update(rest.len() - 1, rest.last().push(s.last()))
        }
    }
}

pub proof fn lemma_split_nonempty(s: Seq<char>, sep: char)
    ensures
        split_on(s, sep).len() >= 1,
    decreases s.len(),
{
    if s.len() > 0 {
        lemma_split_nonempty(s.drop_last(), sep);
    }
}

/// Splitting a text without the separator gives the text itself.
pub proof fn lemma_split_no_sep(s: Seq<char>, sep: char)
    requires
        !s.contains(sep),
    ensures
        split_on(s, sep) == seq![s],
    decreases s.len(),
{
    if s.len() > 0 {
        assert(!s.drop_last().contains(sep)) by {
            if s.drop_last().contains(sep) {
                let k = choose|k: int| 0 <= k < s.drop_last().len() && s.drop_last()[k] == sep;
                assert(s[k] == sep);
            }
        }
        lemma_split_no_sep(s.drop_last(), sep);
        assert(s.last() != sep) by {
            assert(s[s.len() - 1] == s.last());
        }
        assert(s.drop_last().push(s.last()) =~= s);
        assert(seq![s.drop_last()].update(0, s.drop_last().push(s.last())) =~= seq![s]);
    } else {
        assert(s =~= Seq::<char>::empty());
    }
}

/// Splitting `a`, a separator, then `b` gives the pieces of `a` followed by
/// those of `b`.
pub proof fn lemma_split_concat(a: Seq<char>, b: Seq<char>, sep: char)
    ensures
        split_on(a + seq![sep] + b, sep) == split_on(a, sep) + split_on(b, sep),
    decreases b.len(),
{
    lemma_split_nonempty(a, sep);
    let whole = a + seq![sep] + b;
    if b.len() == 0 {
        assert(whole.drop_last() =~= a);
        assert(whole.last() == sep);
        assert(split_on(b, sep) == seq![Seq::<char>::empty()]);
        assert(split_on(a, sep).push(Seq::<char>::empty()) =~= split_on(a, sep) + split_on(b, sep));
    } else {
        let bl = b.drop_last();
        lemma_split_concat(a, bl, sep);
        lemma_split_nonempty(bl, sep);
        assert(whole.drop_last() =~= a + seq![sep] + bl);
        assert(whole.last() == b.last());
        let sa = split_on(a, sep);
        let sb = split_on(bl, sep);
        if b.last() == sep {
            assert((sa + sb).push(Seq::<char>::empty()) =~= sa + sb.push(Seq::<char>::empty()));
        } else {
            let joined = sa + sb;
            assert(joined.update(joined.len() - 1, joined.last().push(b.last())) =~= sa + sb.update(
                sb.len() - 1,
                sb.last().push(b.last()),
            ));
        }
    }
}

/// Appending a separator and a separator-free piece adds that piece.
pub proof fn lemma_split_append(a: Seq<char>, b: Seq<char>, sep: char)
    requires
        !b.contains(sep),
    ensures
        split_on(a + seq![sep] + b, sep) == split_on(a, sep).push(b),
{
    lemma_split_concat(a, b, sep);
    lemma_split_no_sep(b, sep);
    assert(split_on(a, sep) + seq![b] =~= split_on(a, sep).push(b));
}

/// A text with a separator splits into at least two pieces.
pub proof fn lemma_split_with_sep(s: Seq<char>, sep: char)
    requires
        s.contains(sep),
    ensures
        split_on(s, sep).len() >= 2,
{
    let k = choose|k: int| 0 <= k < s.len() && s[k] == sep;
    let x = s.subrange(0, k);
    let y = s.subrange(k + 1, s.len() as int);
    assert(x + seq![sep] + y =~= s);
    lemma_split_concat(x, y, sep);
    lemma_split_nonempty(x, sep);
    lemma_split_nonempty(y, sep);
}

/// Splits `s` on every occurrence of `sep`.
pub fn split_text(s: &str, sep: char) -> (r: Vec<String>)
    ensures
        r@.map_values(|p: String| p@) == split_on(s@, sep),
{
    let n = s.unicode_len();
    let mut parts: Vec<String> = Vec::new();
    let mut start: usize = 0;
    let mut i: usize = 0;
    assert(s@.subrange(0, 0) =~= Seq::<char>::empty());
    assert(parts@.map_values(|p: String| p@).push(s@.subrange(0, 0)) =~= seq![
        Seq::<char>::empty(),
    ]);
    while i < n
        invariant
            n == s@.len(),
            start <= i <= n,
            parts@.map_values(|p: String| p@).push(s@.subrange(start as int, i as int))
                == split_on(s@.subrange(0, i as int), sep),
        decreases n - i,
    {
        let c = s.get_char(i);
        let ghost before = parts@.map_values(|p: String| p@);
        let ghost t = s@.subrange(0, i + 1);
        assert(t.drop_last() =~= s@.subrange(0, i as int));
        assert(t.last() == c);
        if c == sep {
            let ghost seg = s@.subrange(start as int, i as int);
            let piece = s.substring_char(start, i).to_string();
            parts.push(piece);
            start = i + 1;
            assert(parts@.map_values(|p: String| p@) =~= before.push(seg));
            assert(s@.subrange(start as int, i + 1) =~= Seq::<char>::empty());
        } else {
            let ghost seg = s@.subrange(start as int, i as int);
            assert(s@.subrange(start as int, i + 1) =~= seg.push(c));
            assert(before.push(seg).update(before.len() as int, seg.push(c)) =~= before.push(
                seg.push(c),
            ));
        }
        i += 1;
    }
    let last = s.substring_char(start, n).to_string();
    parts.push(last);
    assert(s@.subrange(0, n as int) =~= s@);
    parts
}

/// The lower-case hexadecimal digit for `d`, for `d < 16`.
pub open spec fn hex_char(d: nat) -> char {
    if d == 0 { '0' } else if d == 1 { '1' } else if d == 2 { '2' } else if d == 3 { '3' }
    else if d == 4 { '4' } else if d == 5 { '5' } else if d == 6 { '6' } else if d == 7 { '7' }
    else if d == 8 { '8' } else if d == 9 { '9' } else if d == 10 { 'a' } else if d == 11 { 'b' }
    else if d == 12 { 'c' } else if d == 13 { 'd' } else if d == 14 { 'e' } else { 'f' }
}

/// `n` in lower-case hexadecimal, without leading zeros, as `{:x}` writes it.
pub open spec fn hex_of(n: nat) -> Seq<char>
    decreases n,
{
    if n < 16 {
        seq![hex_char(n)]
    } else {
        hex_of(n / 16).push(hex_char(n % 16))
    }
}

/// The decimal digit for `d`, for `d < 10`.
pub open spec fn dec_char(d: nat) -> char {
    if d == 0 { '0' } else if d == 1 { '1' } else if d == 2 { '2' } else if d == 3 { '3' }
    else if d == 4 { '4' } else if d == 5 { '5' } else if d == 6 { '6' } else if d == 7 { '7' }
    else if d == 8 { '8' } else { '9' }
}

/// `n` in decimal, without leading zeros.
pub open spec fn dec_of(n: nat) -> Seq<char>
    decreases n,
{
    if n < 10 {
        seq![dec_char(n)]
    } else {
        dec_of(n / 10).push(dec_char(n % 10))
    }
}

/// The value of a hexadecimal digit of either case.
pub open spec fn hex_digit_value(c: char) -> Option<nat> {
    if '0' <= c && c <= '9' {
        Some((c as nat - '0' as nat) as nat)
    } else if 'a' <= c && c <= 'f' {
        Some((c as nat - 'a' as nat + 10) as nat)
    } else if 'A' <= c && c <= 'F' {
        Some((c as nat - 'A' as nat + 10) as nat)
    } else {
        None
    }
}

pub open spec fn all_hex(s: Seq<char>) -> bool {
    forall|i: int| 0 <= i < s.len() ==> (#[trigger] hex_digit_value(s[i])) is Some
}

/// The number that the hexadecimal digits `s` write.
pub open spec fn hex_value(s: Seq<char>) -> nat
    decreases s.len(),
{
    if s.len() == 0 {
        0
    } else {
        16 * hex_value(s.drop_last()) + hex_digit_value(s.last()).unwrap_or(0)
    }
}

/// What `u64::from_str_radix(s, 16)` accepts: an optional `+`, then one or
/// more hexadecimal digits whose value fits in 64 bits.
pub open spec fn parse_hex_spec(s: Seq<char>) -> Option<u64> {
    let body = if s.len() > 0 && s[0] == '+' { s.drop_first() } else { s };
    if body.len() > 0 && all_hex(body) && hex_value(body) <= u64::MAX {
        Some(hex_value(body) as u64)
    } else {
        None
    }
}


/// The text of one hexadecimal digit.
fn hex_digit_text(d: u64) -> (r: &'static str)
    requires
        d < 16,
    ensures
        r@ == seq![hex_char(d as nat)],
{
    proof {
        reveal_strlit("0"); reveal_strlit("1"); reveal_strlit("2"); reveal_strlit("3");
        reveal_strlit("4"); reveal_strlit("5"); reveal_strlit("6"); reveal_strlit("7");
        reveal_strlit("8"); reveal_strlit("9"); reveal_strlit("a"); reveal_strlit("b");
        reveal_strlit("c"); reveal_strlit("d"); reveal_strlit("e"); reveal_strlit("f");
    }
    let r = if d == 0 { "0" } else if d == 1 { "1" } else if d == 2 { "2" } else if d == 3 { "3" }
    else if d == 4 { "4" } else if d == 5 { "5" } else if d == 6 { "6" } else if d == 7 { "7" }
    else if d == 8 { "8" } else if d == 9 { "9" } else if d == 10 { "a" } else if d == 11 { "b" }
    else if d == 12 { "c" } else if d == 13 { "d" } else if d == 14 { "e" } else { "f" };
    assert(r@ =~= seq![hex_char(d as nat)]);
    r
}

/// `n` in lower-case hexadecimal.
pub fn to_hex(n: u64) -> (r: String)
    ensures
        r@ == hex_of(n as nat),
{
    let mut m: u64 = n;
    let mut r = String::new();
    while m >= 16
        invariant
            hex_of(n as nat) == hex_of(m as nat) + r@,
        decreases m,
    {
        let ghost old_r = r@;
        let d = hex_digit_text(m % 16);
        r = String::from_str(d).concat(r.as_str());
        assert(hex_of(m as nat) == hex_of((m / 16) as nat).push(hex_char((m % 16) as nat)));
        assert(hex_of(m as nat) + old_r =~= hex_of((m / 16) as nat) + r@);
        m = m / 16;
    }
    let d = hex_digit_text(m);
    r = String::from_str(d).concat(r.as_str());
    assert(hex_of(m as nat) == seq![hex_char(m as nat)]);
    r
}

pub proof fn lemma_hex_of_digits(n: nat)
    ensures
        hex_of(n).len() >= 1,
        all_hex(hex_of(n)),
        hex_value(hex_of(n)) == n,
        !hex_of(n).contains('.'),
        hex_of(n)[0] != '+',
    decreases n,
{
    let h = hex_of(n);
    if n < 16 {
        assert(hex_digit_value(hex_char(n)) == Some(n));
        assert(h.drop_last() =~= Seq::<char>::empty());
        assert(hex_value(h) == 16 * hex_value(h.drop_last()) + hex_digit_value(h.last()).unwrap_or(0));
    } else {
        lemma_hex_of_digits(n / 16);
        let p = hex_of(n / 16);
        assert(h.drop_last() =~= p);
        assert(hex_digit_value(hex_char(n % 16)) == Some(n % 16));
        assert(all_hex(h)) by {
            assert forall|i: int| 0 <= i < h.len() implies (#[trigger] hex_digit_value(h[i])) is Some by {
                if i < p.len() {
                    assert(h[i] == p[i]);
                }
            }
        }
        assert(h[0] == p[0]);
        assert(!h.contains('.')) by {
            if h.contains('.') {
                let k = choose|k: int| 0 <= k < h.len() && h[k] == '.';
                if k < p.len() {
                    assert(p[k] == '.');
                }
            }
        }
    }
}

proof fn lemma_hex_value_prefix(s: Seq<char>, k: int)
    requires
        0 <= k <= s.len(),
    ensures
        hex_value(s.subrange(0, k)) <= hex_value(s),
    decreases s.len(),
{
    if k < s.len() {
        lemma_hex_value_prefix(s.drop_last(), k);
        assert(s.drop_last().subrange(0, k) =~= s.subrange(0, k));
    } else {
        assert(s.subrange(0, k) =~= s);
    }
}

/// Reads hexadecimal text as `u64::from_str_radix(s, 16)` does.
pub fn parse_hex(s: &str) -> (r: Option<u64>)
    ensures
        r == parse_hex_spec(s@),
{
    let n = s.unicode_len();
    let mut i: usize = 0;
    if n > 0 && s.get_char(0) == '+' {
        i = 1;
    }
    let ghost body = if s@.len() > 0 && s@[0] == '+' { s@.drop_first() } else { s@ };
    let start = i;
    if start == n {
        return None;
    }
    let mut acc: u64 = 0;
    assert(body =~= s@.subrange(start as int, n as int));
    assert(body.subrange(0, 0) =~= Seq::<char>::empty());
    while i < n
        invariant
            start <= i <= n,
            n == s@.len(),
            body == s@.subrange(start as int, n as int),
            body == (if s@.len() > 0 && s@[0] == '+' { s@.drop_first() } else { s@ }),
            acc == hex_value(body.subrange(0, i - start)),
            all_hex(body.subrange(0, i - start)),
        decreases n - i,
    {
        let c = s.get_char(i);
        let ghost pre = body.subrange(0, i - start);
        let ghost next = body.subrange(0, i + 1 - start);
        assert(next.drop_last() =~= pre);
        assert(next.last() == c);
        let d: u64 = if '0' <= c && c <= '9' {
            (c as u32 - '0' as u32) as u64
        } else if 'a' <= c && c <= 'f' {
            (c as u32 - 'a' as u32 + 10) as u64
        } else if 'A' <= c && c <= 'F' {
            (c as u32 - 'A' as u32 + 10) as u64
        } else {
            assert(body[i - start] == c);
            assert(hex_digit_value(body[i - start]) is None);
            assert(!all_hex(body));
            assert(parse_hex_spec(s@) is None);
            return None;
        };
        assert(hex_digit_value(c) == Some(d as nat));
        if acc > (u64::MAX - d) / 16 {
            proof {
                lemma_hex_value_prefix(body, i + 1 - start);
                assert(hex_value(next) == 16 * acc + d);
                let q = (u64::MAX - d) / 16;
                assert(16 * acc + d > u64::MAX) by (nonlinear_arith)
                    requires
                        acc > q,
                        q == (u64::MAX - d) / 16,
                        d < 16,
                ;
                assert(parse_hex_spec(s@) is None);
            }
            return None;
        }
        acc = acc * 16 + d;
        assert(all_hex(next)) by {
            assert forall|j: int| 0 <= j < next.len() implies (#[trigger] hex_digit_value(next[j])) is Some by {
                if j < pre.len() {
                    assert(next[j] == pre[j]);
                }
            }
        }
        i += 1;
    }
    assert(body.subrange(0, n - start) =~= body);
    Some(acc)
}


/// Whether two texts are equal.
pub fn text_eq(a: &str, b: &str) -> (r: bool)
    ensures
        r == (a@ == b@),
{
    String::from_str(a) == String::from_str(b)
}


} // verus!
