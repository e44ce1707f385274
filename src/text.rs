use vstd::prelude::*;

verus! {

/// The character views of a sequence of strings.
pub open spec fn views(v: Seq<String>) -> Seq<Seq<char>> {
    v.map_values(|x: String| x@)
}

/// `s` cut at every `sep`: `n` separators give `n + 1` pieces, some of them possibly empty.
pub open spec fn split_on(s: Seq<char>, sep: char) -> Seq<Seq<char>>
    decreases s.len(),
{
    if s.len() == 0 {
        seq![Seq::<char>::empty()]
    } else {
        let pre = split_on(s.drop_last(), sep);
        if s.last() == sep {
            pre.push(Seq::<char>::empty())
        } else {
            pre.update(pre.len() - 1, pre.last().push(s.last()))
        }
    }
}

/// Splitting always gives at least one piece.
pub proof fn lemma_split_on_nonempty(s: Seq<char>, sep: char)
    ensures
        split_on(s, sep).len() >= 1,
    decreases s.len(),
{
    if s.len() > 0 {
        lemma_split_on_nonempty(s.drop_last(), sep);
    }
}

/// Cuts `s` at every occurrence of `sep`.
pub fn split_on_char(s: &String, sep: char) -> (r: Vec<String>)
    ensures
        views(r@) == split_on(s@, sep),
{
    let n = s.as_str().unicode_len();
    let mut done: Vec<String> = Vec::new();
    let mut cur = String::new();
    let mut i: usize = 0;
    proof {
        assert(s@.subrange(0, 0) =~= Seq::<char>::empty());
        assert(views(done@).push(cur@) =~= seq![Seq::<char>::empty()]);
    }
    while i < n
        invariant
            n == s@.len(),
            i <= n,
            views(done@).push(cur@) == split_on(s@.subrange(0, i as int), sep),
        decreases n - i,
    {
        let c = s.as_str().get_char(i);
        let ghost pre = s@.subrange(0, i as int);
        let ghost next = s@.subrange(0, i as int + 1);
        proof {
            assert(next.drop_last() =~= pre);
            assert(next.last() == c);
            lemma_split_on_nonempty(pre, sep);
        }
        if c == sep {
            let ghost old_done = done@;
            done.push(cur);
            cur = String::new();
            proof {
                assert(views(done@) =~= views(old_done).push(views(done@).last()));
                assert(views(done@).push(cur@) =~= split_on(next, sep));
            }
        } else {
            let ghost old_cur = cur@;
            let piece = s.as_str().substring_char(i, i + 1);
            cur.append(piece);
            proof {
                assert(piece@ =~= seq![c]);
                assert(cur@ =~= old_cur.push(c));
                assert(views(done@).push(cur@) =~= split_on(next, sep));
            }
        }
        i = i + 1;
    }
    proof {
        assert(s@.subrange(0, n as int) =~= s@);
    }
    let ghost old_done = done@;
    done.push(cur);
    proof {
        assert(views(done@) =~= views(old_done).push(views(done@).last()));
    }
    done
}

/// `s` with every dash turned into a space (stat names are written with dashes inside formulas).
pub open spec fn dashes_to_spaces(s: Seq<char>) -> Seq<char> {
    s.map_values(|c: char| if c == '-' { ' ' } else { c })
}

/// Turns every dash of `s` into a space.
pub fn replace_dashes(s: &String) -> (r: String)
    ensures
        r@ == dashes_to_spaces(s@),
{
    let n = s.as_str().unicode_len();
    let mut r = String::new();
    let mut i: usize = 0;
    while i < n
        invariant
            n == s@.len(),
            i <= n,
            r@ == dashes_to_spaces(s@.subrange(0, i as int)),
        decreases n - i,
    {
        let c = s.as_str().get_char(i);
        let ghost old_r = r@;
        if c == '-' {
            r.append(" ");
            proof {
                reveal_strlit(" ");
            }
        } else {
            let piece = s.as_str().substring_char(i, i + 1);
            r.append(piece);
            proof {
                assert(piece@ =~= seq![c]);
            }
        }
        i = i + 1;
        assert(r@ =~= dashes_to_spaces(s@.subrange(0, i as int)));
    }
    assert(s@.subrange(0, n as int) =~= s@);
    r
}

pub open spec fn is_digit(c: char) -> bool {
    '0' <= c <= '9'
}

pub open spec fn digit_value(c: char) -> int {
    c as int - '0' as int
}

/// The number written by a sequence of decimal digits, most significant first.
pub open spec fn digits_value(d: Seq<char>) -> int
    decreases d.len(),
{
    if d.len() == 0 {
        0
    } else {
        digits_value(d.drop_last()) * 10 + digit_value(d.last())
    }
}

pub open spec fn all_digits(d: Seq<char>) -> bool {
    d.len() > 0 && forall|i: int| 0 <= i < d.len() ==> is_digit(#[trigger] d[i])
}

pub open spec fn fits_i32(v: int) -> bool {
    i32::MIN <= v <= i32::MAX
}

/// A decimal integer with an optional sign, as Rust reads an `i32`: `None` where the text is
/// not one or the number does not fit.
pub open spec fn parse_i32(t: Seq<char>) -> Option<i32> {
    if t.len() > 0 && (t[0] == '-' || t[0] == '+') {
        let d = t.drop_first();
        let v = if t[0] == '-' {
            -digits_value(d)
        } else {
            digits_value(d)
        };
        if all_digits(d) && fits_i32(v) {
            Some(v as i32)
        } else {
            None
        }
    } else if all_digits(t) && fits_i32(digits_value(t)) {
        Some(digits_value(t) as i32)
    } else {
        None
    }
}

const DIGIT_CAP: i64 = 4294967296;

/// Reads a decimal integer with an optional sign.
pub fn parse_stat(t: &String) -> (r: Option<i32>)
    ensures
        r == parse_i32(t@),
{
    let n = t.as_str().unicode_len();
    if n == 0 {
        return None;
    }
    let first = t.as_str().get_char(0);
    let start: usize = if first == '-' || first == '+' { 1 } else { 0 };
    if start == n {
        proof {
            assert(t@.drop_first().len() == 0);
        }
        return None;
    }
    let ghost d = t@.subrange(start as int, n as int);
    proof {
        if start == 1 {
            assert(d =~= t@.drop_first());
        } else {
            assert(d =~= t@);
        }
    }
    let mut acc: i64 = 0;
    let mut i: usize = start;
    while i < n
        invariant
            n == t@.len(),
            start <= i <= n,
            d == t@.subrange(start as int, n as int),
            first == t@[0],
            start == 1 ==> d == t@.drop_first(),
            start == 0 ==> d == t@,
            (start == 1) == (first == '-' || first == '+'),
            forall|j: int| 0 <= j < i - start ==> is_digit(#[trigger] d[j]),
            0 <= digits_value(d.subrange(0, i - start)),
            acc == if digits_value(d.subrange(0, i - start)) < DIGIT_CAP {
                digits_value(d.subrange(0, i - start))
            } else {
                DIGIT_CAP as int
            },
        decreases n - i,
    {
        let c = t.as_str().get_char(i);
        if !('0' <= c && c <= '9') {
            proof {
                assert(d[i - start] == c);
            }
            return None;
        }
        let ghost k = i - start;
        let ghost v = digits_value(d.subrange(0, k));
        let dv = (c as u32 - '0' as u32) as i64;
        proof {
            assert(d[k] == c);
            assert(d.subrange(0, k + 1).drop_last() =~= d.subrange(0, k));
            assert(digits_value(d.subrange(0, k + 1)) == v * 10 + dv);
            if v >= DIGIT_CAP {
                assert(v * 10 + dv >= DIGIT_CAP) by (nonlinear_arith)
                    requires v >= DIGIT_CAP, dv >= 0;
            }
        }
        let next = acc * 10 + dv;
        acc = if next < DIGIT_CAP { next } else { DIGIT_CAP };
        i = i + 1;
    }
    proof {
        assert(d.subrange(0, n - start) =~= d);
        assert(all_digits(d));
    }
    let v: i64 = if start == 1 && first == '-' { -acc } else { acc };
    if v < i32::MIN as i64 || v > i32::MAX as i64 {
        None
    } else {
        Some(v as i32)
    }
}

} // verus!

verus! {

/// `s` with every occurrence of `pat`, scanned left to right without overlap, replaced by `rep`.
pub open spec fn replace_all(s: Seq<char>, pat: Seq<char>, rep: Seq<char>) -> Seq<char>
    decreases s.len(),
{
    if pat.len() == 0 || s.len() < pat.len() {
        s
    } else if s.subrange(0, pat.len() as int) == pat {
        rep + replace_all(s.subrange(pat.len() as int, s.len() as int), pat, rep)
    } else {
        seq![s[0]] + replace_all(s.drop_first(), pat, rep)
    }
}

/// Replaces every occurrence of `pat` in `s` by `rep`.
pub fn replace_text(s: &str, pat: &str, rep: &str) -> (r: String)
    requires
        pat@.len() > 0,
    ensures
        r@ == replace_all(s@, pat@, rep@),
{
    let n = s.unicode_len();
    let m = pat.unicode_len();
    let pat_s = String::from_str(pat);
    let mut out = String::new();
    let mut i: usize = 0;
    proof {
        assert(s@.subrange(0, n as int) =~= s@);
    }
    while i < n
        invariant
            n == s@.len(),
            m == pat@.len(),
            m > 0,
            pat_s@ == pat@,
            i <= n,
            out@ + replace_all(s@.subrange(i as int, n as int), pat@, rep@) == replace_all(s@, pat@, rep@),
        decreases n - i,
    {
        let ghost t = s@.subrange(i as int, n as int);
        let ghost old_out = out@;
        let mut matched = false;
        if n - i >= m {
            let w = String::from_str(s.substring_char(i, i + m));
            if w == pat_s {
                matched = true;
            }
            proof {
                assert(t.subrange(0, m as int) =~= s@.subrange(i as int, i + m));
            }
        }
        if matched {
            out.append(rep);
            i = i + m;
            proof {
                assert(t.subrange(m as int, t.len() as int) =~= s@.subrange(i as int, n as int));
                assert(out@ + replace_all(s@.subrange(i as int, n as int), pat@, rep@) =~= old_out + (rep@
                    + replace_all(s@.subrange(i as int, n as int), pat@, rep@)));
            }
        } else {
            let piece = s.substring_char(i, i + 1);
            out.append(piece);
            i = i + 1;
            proof {
                assert(piece@ =~= seq![t[0]]);
                assert(t.drop_first() =~= s@.subrange(i as int, n as int));
                assert(out@ + replace_all(s@.subrange(i as int, n as int), pat@, rep@) =~= old_out + (seq![t[0]]
                    + replace_all(s@.subrange(i as int, n as int), pat@, rep@)));
            }
        }
    }
    proof {
        assert(out@ + replace_all(s@.subrange(n as int, n as int), pat@, rep@) =~= out@);
    }
    out
}

/// The pieces of `s` joined by ", ".
pub open spec fn comma_join(s: Seq<Seq<char>>) -> Seq<char>
    decreases s.len(),
{
    if s.len() == 0 {
        Seq::<char>::empty()
    } else if s.len() == 1 {
        s[0]
    } else {
        comma_join(s.drop_last()) + ", "@ + s.last()
    }
}

/// Names as a sentence lists them: "A", "A and B", "A, B, and C".
pub open spec fn name_list(s: Seq<Seq<char>>) -> Seq<char> {
    if s.len() == 0 {
        Seq::<char>::empty()
    } else if s.len() == 1 {
        s[0]
    } else if s.len() == 2 {
        s[0] + " and "@ + s[1]
    } else {
        comma_join(s.drop_last()) + ", and "@ + s.last()
    }
}

/// The first `k` names joined by ", ".
fn join_prefix(names: &Vec<String>, k: usize) -> (r: String)
    requires
        k <= names@.len(),
    ensures
        r@ == comma_join(views(names@).subrange(0, k as int)),
{
    let mut out = String::new();
    if k == 0 {
        proof {
            assert(views(names@).subrange(0, 0).len() == 0);
        }
        return out;
    }
    out.append(names[0].as_str());
    proof {
        assert(views(names@).subrange(0, 1) =~= seq![names@[0]@]);
    }
    let mut i: usize = 1;
    while i < k
        invariant
            1 <= i <= k,
            k <= names@.len(),
            out@ == comma_join(views(names@).subrange(0, i as int)),
        decreases k - i,
    {
        let ghost old_out = out@;
        out.append(", ");
        out.append(names[i].as_str());
        proof {
            reveal_strlit(", ");
            let p = views(names@).subrange(0, i as int + 1);
            assert(p.drop_last() =~= views(names@).subrange(0, i as int));
            assert(out@ =~= old_out + ", "@ + p.last());
        }
        i = i + 1;
    }
    out
}

/// Lists names the way a sentence does.
pub fn list_names(names: &Vec<String>) -> (r: String)
    ensures
        r@ == name_list(views(names@)),
{
    let n = names.len();
    let ghost v = views(names@);
    if n == 0 {
        String::new()
    } else if n == 1 {
        names[0].clone()
    } else if n == 2 {
        let mut out = names[0].clone();
        out.append(" and ");
        out.append(names[1].as_str());
        proof {
            reveal_strlit(" and ");
        }
        out
    } else {
        let mut out = join_prefix(names, n - 1);
        out.append(", and ");
        out.append(names[n - 1].as_str());
        proof {
            reveal_strlit(", and ");
            assert(v.drop_last() =~= v.subrange(0, n - 1));
        }
        out
    }
}

/// The decimal digits of `n`.
pub open spec fn decimal(n: nat) -> Seq<char>
    decreases n,
{
    if n < 10 {
        seq!["0123456789"@[n as int]]
    } else {
        decimal(n / 10).push("0123456789"@[(n % 10) as int])
    }
}

/// `v` in decimal, with a leading minus sign when negative.
pub open spec fn signed_decimal(v: int) -> Seq<char> {
    if v < 0 {
        seq!['-'] + decimal((-v) as nat)
    } else {
        decimal(v as nat)
    }
}

fn decimal_text(n: u64) -> (r: String)
    ensures
        r@ == decimal(n as nat),
    decreases n,
{
    proof {
        reveal_strlit("0123456789");
    }
    let digits = "0123456789";
    if n < 10 {
        let d = digits.substring_char(n as usize, n as usize + 1);
        proof {
            assert(d@ =~= seq!["0123456789"@[n as int]]);
        }
        String::from_str(d)
    } else {
        let mut s = decimal_text(n / 10);
        let d = digits.substring_char((n % 10) as usize, (n % 10) as usize + 1);
        s.append(d);
        proof {
            assert(d@ =~= seq!["0123456789"@[(n % 10) as int]]);
            assert(s@ =~= decimal((n / 10) as nat).push("0123456789"@[(n % 10) as int]));
        }
        s
    }
}

/// Writes `v` in decimal.
pub fn int_text(v: i64) -> (r: String)
    ensures
        r@ == signed_decimal(v as int),
{
    if v < 0 {
        let mag: u64 = if v == i64::MIN { 9223372036854775808u64 } else { (-v) as u64 };
        let mut s = String::from_str("-");
        s.append(decimal_text(mag).as_str());
        proof {
            reveal_strlit("-");
        }
        s
    } else {
        decimal_text(v as u64)
    }
}

} // verus!

verus! {

/// A piece without a separator splits into itself.
pub proof fn lemma_split_on_whole(w: Seq<char>, sep: char)
    requires
        forall|i: int| 0 <= i < w.len() ==> w[i] != sep,
    ensures
        split_on(w, sep) == seq![w],
    decreases w.len(),
{
    if w.len() > 0 {
        lemma_split_on_whole(w.drop_last(), sep);
        assert(w.drop_last().push(w.last()) =~= w);
        assert(seq![w.drop_last()].update(0, w.drop_last().push(w.last())) =~= seq![w]);
    } else {
        assert(w =~= Seq::<char>::empty());
    }
}

/// Splitting at a separator splits the two sides apart.
pub proof fn lemma_split_on_concat(a: Seq<char>, b: Seq<char>, sep: char)
    ensures
        split_on(a + seq![sep] + b, sep) == split_on(a, sep) + split_on(b, sep),
    decreases b.len(),
{
    let s = a + seq![sep] + b;
    if b.len() == 0 {
        assert(s.drop_last() =~= a);
        assert(split_on(a, sep).push(Seq::<char>::empty()) =~= split_on(a, sep) + split_on(b, sep));
    } else {
        let b1 = b.drop_last();
        lemma_split_on_concat(a, b1, sep);
        assert(s.drop_last() =~= a + seq![sep] + b1);
        lemma_split_on_nonempty(b1, sep);
        lemma_split_on_nonempty(a, sep);
        let x = split_on(a, sep);
        let y = split_on(b1, sep);
        if b.last() == sep {
            assert((x + y).push(Seq::<char>::empty()) =~= x + y.push(Seq::<char>::empty()));
        } else {
            assert((x + y).update((x + y).len() - 1, (x + y).last().push(b.last())) =~= x + y.update(
                y.len() - 1,
                y.last().push(b.last()),
            ));
        }
    }
}

} // verus!
