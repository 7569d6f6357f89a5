use vstd::prelude::*;

verus! {

/// The decimal digit for `d` (0 to 9).
pub open spec fn digit(d: int) -> char {
    seq!['0', '1', '2', '3', '4', '5', '6', '7', '8', '9'][d]
}

/// The decimal text of `n`, without leading zeros.
pub open spec fn decimal(n: nat) -> Seq<char>
    decreases n,
{
    if n < 10 {
        seq![digit(n as int)]
    } else {
        decimal(n / 10).push(digit((n % 10) as int))
    }
}

/// The decimal text of `n`, empty for zero: the digits that come before the last one.
pub open spec fn leading_digits(n: nat) -> Seq<char> {
    if n == 0 {
        Seq::empty()
    } else {
        decimal(n)
    }
}

/// `pat` occurs in `s` starting at position `i`.
pub open spec fn matches_at(s: Seq<char>, i: int, pat: Seq<char>) -> bool {
    0 <= i && i + pat.len() <= s.len() && s.subrange(i, i + pat.len()) == pat
}

/// `pat` occurs somewhere in `s`.
pub open spec fn contains(s: Seq<char>, pat: Seq<char>) -> bool {
    exists|i: int| matches_at(s, i, pat)
}

/// `s` from position `i` on, with each occurrence of `pat` replaced by `rep`,
/// occurrences taken from left to right without overlap.
pub open spec fn replace_from(s: Seq<char>, i: int, pat: Seq<char>, rep: Seq<char>) -> Seq<char>
    decreases s.len() - i,
{
    if i >= s.len() || i < 0 {
        Seq::empty()
    } else if pat.len() > 0 && matches_at(s, i, pat) {
        rep + replace_from(s, i + pat.len(), pat, rep)
    } else {
        seq![s[i]] + replace_from(s, i + 1, pat, rep)
    }
}

/// `s` with every occurrence of the non-empty `pat` replaced by `rep`.
pub open spec fn replace_all(s: Seq<char>, pat: Seq<char>, rep: Seq<char>) -> Seq<char> {
    replace_from(s, 0, pat, rep)
}

proof fn lemma_leading_digits_step(m: nat)
    requires
        m > 0,
    ensures
        leading_digits(m) == leading_digits(m / 10).push(digit((m % 10) as int)),
{
    if m < 10 {
        assert(leading_digits(m / 10) =~= Seq::<char>::empty());
        assert(leading_digits(m) =~= leading_digits(m / 10).push(digit((m % 10) as int)));
    }
}

fn digit_char(d: u32) -> (c: char)
    requires
        d < 10,
    ensures
        c == digit(d as int),
{
    let digits: Vec<char> = vec!['0', '1', '2', '3', '4', '5', '6', '7', '8', '9'];
    assert(digits@ =~= seq!['0', '1', '2', '3', '4', '5', '6', '7', '8', '9']);
    digits[d as usize]
}

/// The decimal digits of `n`.
pub fn decimal_chars(n: u64) -> (r: Vec<char>)
    ensures
        r@ == decimal(n as nat),
{
    if n == 0 {
        let r = vec![digit_char(0)];
        assert(r@ =~= decimal(0));
        return r;
    }
    let mut m: u64 = n;
    let mut out: Vec<char> = Vec::new();
    proof {
        assert(leading_digits(n as nat) + out@ =~= decimal(n as nat));
    }
    while m > 0
        invariant
            leading_digits(m as nat) + out@ == decimal(n as nat),
        decreases m,
    {
        proof {
            lemma_leading_digits_step(m as nat);
        }
        let c = digit_char((m % 10) as u32);
        let ghost prev = out@;
        out.insert(0, c);
        let ghost lm = leading_digits(m as nat);
        m = m / 10;
        assert(leading_digits(m as nat) + out@ =~= lm + prev);
    }
    assert(out@ =~= leading_digits(0) + out@);
    out
}

/// The characters of `s`, in order.
pub fn chars_of(s: &str) -> (r: Vec<char>)
    ensures
        r@ == s@,
{
    let n = s.unicode_len();
    let mut out: Vec<char> = Vec::new();
    let mut i: usize = 0;
    while i < n
        invariant
            n == s@.len(),
            i <= n,
            out@ == s@.subrange(0, i as int),
        decreases n - i,
    {
        let c = s.get_char(i);
        out.push(c);
        i = i + 1;
        assert(out@ =~= s@.subrange(0, i as int));
    }
    assert(out@ =~= s@);
    out
}

/// Relies on std's `FromIterator<char>` for `String`: the string holds the characters in order.
#[verifier::external_body]
pub(crate) fn string_of(v: &Vec<char>) -> (r: String)
    ensures
        r@ == v@,
{
    v.iter().collect()
}

/// Whether `pat` occurs in `s` at position `i`.
pub fn matches_at_exec(s: &Vec<char>, i: usize, pat: &Vec<char>) -> (r: bool)
    ensures
        r == matches_at(s@, i as int, pat@),
{
    if pat.len() > s.len() || i > s.len() - pat.len() {
        return false;
    }
    let mut j: usize = 0;
    while j < pat.len()
        invariant
            i + pat@.len() <= s@.len(),
            s@.len() <= usize::MAX,
            j <= pat@.len(),
            forall|k: int| 0 <= k < j ==> s@[i + k] == pat@[k],
        decreases pat@.len() - j,
    {
        if s[i + j] != pat[j] {
            assert(s@.subrange(i as int, i + pat@.len())[j as int] != pat@[j as int]);
            return false;
        }
        j = j + 1;
    }
    assert(s@.subrange(i as int, i + pat@.len()) =~= pat@);
    true
}

/// Whether `pat` occurs anywhere in `s`.
pub fn contains_exec(s: &Vec<char>, pat: &Vec<char>) -> (r: bool)
    ensures
        r == contains(s@, pat@),
{
    let mut i: usize = 0;
    while i < s.len()
        invariant
            i <= s@.len(),
            forall|k: int| 0 <= k < i ==> !matches_at(s@, k, pat@),
        decreases s@.len() - i,
    {
        if matches_at_exec(s, i, pat) {
            return true;
        }
        i = i + 1;
    }
    if matches_at_exec(s, i, pat) {
        return true;
    }
    assert forall|k: int| !matches_at(s@, k, pat@) by {
        if 0 <= k && k <= i {
        }
    }
    false
}

/// `s` with every occurrence of the non-empty `pat` replaced by `rep`.
pub fn replace_chars(s: &Vec<char>, pat: &Vec<char>, rep: &Vec<char>) -> (r: Vec<char>)
    requires
        pat@.len() > 0,
    ensures
        r@ == replace_all(s@, pat@, rep@),
{
    let mut out: Vec<char> = Vec::new();
    let mut i: usize = 0;
    while i < s.len()
        invariant
            pat@.len() > 0,
            i <= s@.len(),
            out@ + replace_from(s@, i as int, pat@, rep@) == replace_all(s@, pat@, rep@),
        decreases s@.len() - i,
    {
        let ghost before = out@;
        if matches_at_exec(s, i, pat) {
            let mut k: usize = 0;
            while k < rep.len()
                invariant
                    k <= rep@.len(),
                    out@ == before + rep@.subrange(0, k as int),
                decreases rep@.len() - k,
            {
                out.push(rep[k]);
                k = k + 1;
                assert(out@ =~= before + rep@.subrange(0, k as int));
            }
            assert(rep@.subrange(0, rep@.len() as int) =~= rep@);
            i = i + pat.len();
            assert(before + replace_from(s@, i - pat@.len(), pat@, rep@) =~= out@
                + replace_from(s@, i as int, pat@, rep@));
        } else {
            out.push(s[i]);
            i = i + 1;
            assert(before + replace_from(s@, i - 1, pat@, rep@) =~= out@ + replace_from(
                s@,
                i as int,
                pat@,
                rep@,
            ));
        }
    }
    assert(out@ =~= out@ + replace_from(s@, i as int, pat@, rep@));
    out
}

/// How many replacements `replace_from` makes from position `i` on.
pub open spec fn match_count(s: Seq<char>, i: int, pat: Seq<char>) -> nat
    decreases s.len() - i,
{
    if i >= s.len() || i < 0 {
        0
    } else if pat.len() > 0 && matches_at(s, i, pat) {
        1 + match_count(s, i + pat.len(), pat)
    } else {
        match_count(s, i + 1, pat)
    }
}

proof fn lemma_replace_len(s: Seq<char>, i: int, pat: Seq<char>, rep: Seq<char>)
    requires
        0 <= i <= s.len(),
        pat.len() > 0,
    ensures
        replace_from(s, i, pat, rep).len() + match_count(s, i, pat) * pat.len() == (s.len() - i)
            + match_count(s, i, pat) * rep.len(),
    decreases s.len() - i,
{
    let n = match_count(s, i, pat);
    let l = replace_from(s, i, pat, rep).len();
    if i == s.len() {
        assert(n == 0);
        assert(l == 0);
        assert(n * pat.len() == 0 && n * rep.len() == 0) by (nonlinear_arith)
            requires
                n == 0,
        ;
    } else if matches_at(s, i, pat) {
        lemma_replace_len(s, i + pat.len(), pat, rep);
        let c = match_count(s, i + pat.len(), pat);
        let lr = replace_from(s, i + pat.len(), pat, rep).len();
        assert(replace_from(s, i, pat, rep) == rep + replace_from(s, i + pat.len(), pat, rep));
        assert(l == rep.len() + lr);
        assert(n == 1 + c);
        assert(n * pat.len() == pat.len() + c * pat.len()) by (nonlinear_arith)
            requires
                n == 1 + c,
        ;
        assert(n * rep.len() == rep.len() + c * rep.len()) by (nonlinear_arith)
            requires
                n == 1 + c,
        ;
    } else {
        lemma_replace_len(s, i + 1, pat, rep);
        assert(replace_from(s, i, pat, rep) == seq![s[i]] + replace_from(s, i + 1, pat, rep));
        assert(n == match_count(s, i + 1, pat));
    }
}

proof fn lemma_occurrence_counted(s: Seq<char>, i: int, k: int, pat: Seq<char>)
    requires
        0 <= i <= k,
        pat.len() > 0,
        matches_at(s, k, pat),
    ensures
        match_count(s, i, pat) >= 1,
    decreases k - i,
{
    if !matches_at(s, i, pat) {
        lemma_occurrence_counted(s, i + 1, k, pat);
    }
}

proof fn lemma_replace_same_len_injective(
    s: Seq<char>,
    i: int,
    pat: Seq<char>,
    r1: Seq<char>,
    r2: Seq<char>,
)
    requires
        0 <= i <= s.len(),
        pat.len() > 0,
        r1.len() == r2.len(),
        match_count(s, i, pat) >= 1,
        replace_from(s, i, pat, r1) == replace_from(s, i, pat, r2),
    ensures
        r1 == r2,
    decreases s.len() - i,
{
    let a = replace_from(s, i, pat, r1);
    let b = replace_from(s, i, pat, r2);
    if matches_at(s, i, pat) {
        assert(a.subrange(0, r1.len() as int) =~= r1);
        assert(b.subrange(0, r2.len() as int) =~= r2);
    } else {
        let ra = replace_from(s, i + 1, pat, r1);
        let rb = replace_from(s, i + 1, pat, r2);
        assert(ra =~= a.subrange(1, a.len() as int));
        assert(rb =~= b.subrange(1, b.len() as int));
        lemma_replace_same_len_injective(s, i + 1, pat, r1, r2);
    }
}

/// Where `pat` occurs in `s`, different replacements give different results.
pub proof fn lemma_replace_injective(s: Seq<char>, pat: Seq<char>, r1: Seq<char>, r2: Seq<char>)
    requires
        pat.len() > 0,
        contains(s, pat),
        replace_all(s, pat, r1) == replace_all(s, pat, r2),
    ensures
        r1 == r2,
{
    let k = choose|k: int| matches_at(s, k, pat);
    lemma_occurrence_counted(s, 0, k, pat);
    lemma_replace_len(s, 0, pat, r1);
    lemma_replace_len(s, 0, pat, r2);
    let c = match_count(s, 0, pat);
    assert(r1.len() == r2.len()) by (nonlinear_arith)
        requires
            c >= 1,
            c * r1.len() == c * r2.len(),
    ;
    lemma_replace_same_len_injective(s, 0, pat, r1, r2);
}

proof fn lemma_digit_injective(x: int, y: int)
    requires
        0 <= x < 10,
        0 <= y < 10,
        digit(x) == digit(y),
    ensures
        x == y,
{
    let d = seq!['0', '1', '2', '3', '4', '5', '6', '7', '8', '9'];
    assert(d[0] == '0' && d[1] == '1' && d[2] == '2' && d[3] == '3' && d[4] == '4');
    assert(d[5] == '5' && d[6] == '6' && d[7] == '7' && d[8] == '8' && d[9] == '9');
    assert(x == 0 || x == 1 || x == 2 || x == 3 || x == 4 || x == 5 || x == 6 || x == 7 || x
        == 8 || x == 9);
    assert(y == 0 || y == 1 || y == 2 || y == 3 || y == 4 || y == 5 || y == 6 || y == 7 || y
        == 8 || y == 9);
}

/// The decimal text of a number holds ASCII digits only.
pub proof fn lemma_decimal_digits(n: nat)
    ensures
        forall|i: int| 0 <= i < decimal(n).len() ==> '0' <= #[trigger] decimal(n)[i] <= '9',
    decreases n,
{
    let d = seq!['0', '1', '2', '3', '4', '5', '6', '7', '8', '9'];
    assert(d[0] == '0' && d[1] == '1' && d[2] == '2' && d[3] == '3' && d[4] == '4');
    assert(d[5] == '5' && d[6] == '6' && d[7] == '7' && d[8] == '8' && d[9] == '9');
    let k = (n % 10) as int;
    assert(k == 0 || k == 1 || k == 2 || k == 3 || k == 4 || k == 5 || k == 6 || k == 7 || k
        == 8 || k == 9);
    assert('0' <= digit(k) <= '9');
    if n >= 10 {
        lemma_decimal_digits(n / 10);
        let p = decimal(n / 10);
        assert forall|i: int| 0 <= i < decimal(n).len() implies '0' <= #[trigger] decimal(n)[i]
            <= '9' by {
            if i < p.len() {
                assert(decimal(n)[i] == p[i]);
            }
        }
    }
}

proof fn lemma_decimal_len(n: nat)
    ensures
        decimal(n).len() >= 1,
        n >= 10 ==> decimal(n).len() >= 2,
    decreases n,
{
    if n >= 10 {
        lemma_decimal_len(n / 10);
    }
}

/// Different numbers have different decimal texts.
pub proof fn lemma_decimal_injective(a: nat, b: nat)
    requires
        decimal(a) == decimal(b),
    ensures
        a == b,
    decreases a,
{
    lemma_decimal_len(a);
    lemma_decimal_len(b);
    if a < 10 && b < 10 {
        assert(decimal(a)[0] == digit(a as int));
        assert(decimal(b)[0] == digit(b as int));
        lemma_digit_injective(a as int, b as int);
    } else if a >= 10 && b >= 10 {
        let da = decimal(a);
        assert(decimal(a / 10) =~= da.subrange(0, da.len() - 1));
        assert(decimal(b / 10) =~= da.subrange(0, da.len() - 1));
        lemma_decimal_injective(a / 10, b / 10);
        assert(da[da.len() - 1] == digit((a % 10) as int));
        assert(decimal(b)[da.len() - 1] == digit((b % 10) as int));
        lemma_digit_injective((a % 10) as int, (b % 10) as int);
    } else {
        lemma_decimal_len(a / 10);
        lemma_decimal_len(b / 10);
    }
}

} // verus!
