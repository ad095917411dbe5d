//! Small string utilities over the `Seq<char>` view of `str` and `String`:
//! equality, substring search, the lexicographic order, and decimal numerals.

use vstd::prelude::*;

verus! {

/// Appends one character to a string.
///
/// Trusted: `String::push` appends the given `char` to the end of the string.
#[verifier::external_body]
pub(crate) fn push_char(s: &mut String, c: char)
    ensures
        final(s)@ == old(s)@.push(c),
{
    s.push(c)
}

/// The characters of `s`, in order.
pub fn to_chars(s: &str) -> (out: Vec<char>)
    ensures
        out@ == s@,
{
    let mut out: Vec<char> = Vec::new();
    for c in it: s.chars()
        invariant
            out@ == it.seq().take(it.index() as int),
    {
        out.push(c);
    }
    out
}

/// The string made of the characters of `chars`, in order.
pub fn from_chars(chars: &Vec<char>) -> (out: String)
    ensures
        out@ == chars@,
{
    let mut out = String::new();
    let mut i: usize = 0;
    while i < chars.len()
        invariant
            i <= chars.len(),
            out@ == chars@.take(i as int),
        decreases chars.len() - i,
    {
        push_char(&mut out, chars[i]);
        i += 1;
    }
    out
}

/// Whether two character vectors hold the same characters.
pub fn chars_eq(a: &Vec<char>, b: &Vec<char>) -> (r: bool)
    ensures
        r == (a@ == b@),
{
    if a.len() != b.len() {
        return false;
    }
    let mut i: usize = 0;
    while i < a.len()
        invariant
            i <= a.len(),
            a.len() == b.len(),
            forall|j: int| 0 <= j < i ==> a@[j] == b@[j],
        decreases a.len() - i,
    {
        if a[i] != b[i] {
            return false;
        }
        i += 1;
    }
    assert(a@ =~= b@);
    true
}

/// Whether two strings hold the same characters.
pub fn str_eq(a: &str, b: &str) -> (r: bool)
    ensures
        r == (a@ == b@),
{
    let x = to_chars(a);
    let y = to_chars(b);
    chars_eq(&x, &y)
}

/// `needle` occurs in `hay` starting at position `i`.
pub open spec fn occurs_at(hay: Seq<char>, needle: Seq<char>, i: int) -> bool {
    &&& 0 <= i
    &&& i + needle.len() <= hay.len()
    &&& forall|k: int| 0 <= k < needle.len() ==> hay[i + k] == #[trigger] needle[k]
}

/// `needle` occurs somewhere in `hay` as a contiguous run of characters.
pub open spec fn contains_text(hay: Seq<char>, needle: Seq<char>) -> bool {
    exists|i: int| occurs_at(hay, needle, i)
}

fn matches_at(hay: &Vec<char>, needle: &Vec<char>, i: usize) -> (r: bool)
    requires
        i + needle.len() <= hay.len(),
    ensures
        r == occurs_at(hay@, needle@, i as int),
{
    let mut k: usize = 0;
    while k < needle.len()
        invariant
            k <= needle.len(),
            i + needle.len() <= hay.len(),
            forall|j: int| 0 <= j < k ==> hay@[i + j] == #[trigger] needle@[j],
        decreases needle.len() - k,
    {
        if hay[i + k] != needle[k] {
            return false;
        }
        k += 1;
    }
    true
}

/// Whether `needle` occurs in `hay`. The empty string occurs in every string.
pub fn contains(hay: &str, needle: &str) -> (r: bool)
    ensures
        r == contains_text(hay@, needle@),
{
    let h = to_chars(hay);
    let n = to_chars(needle);
    if n.len() > h.len() {
        assert(forall|i: int| !occurs_at(h@, n@, i));
        return false;
    }
    let last: usize = h.len() - n.len();
    let mut i: usize = 0;
    while i < last
        invariant
            i <= last,
            last == h.len() - n.len(),
            h@ == hay@,
            n@ == needle@,
            forall|j: int| 0 <= j < i ==> !occurs_at(h@, n@, j),
        decreases last - i,
    {
        if matches_at(&h, &n, i) {
            return true;
        }
        i += 1;
    }
    let r = matches_at(&h, &n, last);
    assert(!r ==> forall|j: int| !occurs_at(h@, n@, j));
    r
}

/// `tail` stands at the end of `text`.
pub open spec fn is_suffix(text: Seq<char>, tail: Seq<char>) -> bool {
    tail.len() <= text.len() && text.subrange(text.len() - tail.len(), text.len() as int) == tail
}

/// Whether `text` ends with `tail`. Every string ends with the empty string.
pub fn ends_with(text: &str, tail: &str) -> (r: bool)
    ensures
        r == is_suffix(text@, tail@),
{
    let t = to_chars(text);
    let e = to_chars(tail);
    if e.len() > t.len() {
        return false;
    }
    let start: usize = t.len() - e.len();
    let r = matches_at(&t, &e, start);
    proof {
        let cut = t@.subrange(start as int, t@.len() as int);
        if r {
            assert(cut =~= e@);
        } else if cut == e@ {
            assert forall|k: int| 0 <= k < e@.len() implies t@[start + k] == #[trigger] e@[k] by {
                assert(cut[k] == t@[start + k]);
            }
        }
    }
    r
}

/// The order of two characters: that of their code points.
pub open spec fn char_below(a: char, b: char) -> bool {
    (a as int) < (b as int)
}

/// `a` sorts before `b`, and `k` is where that is decided: the two agree on
/// their first `k` characters, and there `a` either ends while `b` goes on or
/// holds the smaller character.
pub open spec fn splits_at(a: Seq<char>, b: Seq<char>, k: int) -> bool {
    &&& 0 <= k <= a.len()
    &&& k < b.len()
    &&& forall|i: int| 0 <= i < k ==> a[i] == b[i]
    &&& k < a.len() ==> char_below(a[k], b[k])
}

/// The strict lexicographic order on strings, character by character. This is
/// the order of Rust's `str`.
pub open spec fn lex_lt(a: Seq<char>, b: Seq<char>) -> bool {
    exists|k: int| splits_at(a, b, k)
}

/// No string sorts before itself.
pub proof fn lemma_lex_lt_irreflexive(a: Seq<char>)
    ensures
        !lex_lt(a, a),
{
    assert forall|k: int| !splits_at(a, a, k) by {}
}

/// The lexicographic order is transitive.
pub proof fn lemma_lex_lt_transitive(a: Seq<char>, b: Seq<char>, c: Seq<char>)
    requires
        lex_lt(a, b),
        lex_lt(b, c),
    ensures
        lex_lt(a, c),
{
    let k1 = choose|k: int| splits_at(a, b, k);
    let k2 = choose|k: int| splits_at(b, c, k);
    let k = if k1 <= k2 { k1 } else { k2 };
    assert(splits_at(a, c, k));
}

/// Two strings cannot each sort before the other.
pub proof fn lemma_lex_lt_asymmetric(a: Seq<char>, b: Seq<char>)
    requires
        lex_lt(a, b),
    ensures
        !lex_lt(b, a),
{
    if lex_lt(b, a) {
        lemma_lex_lt_transitive(a, b, a);
        lemma_lex_lt_irreflexive(a);
    }
}

/// Of two different strings, one sorts before the other.
pub proof fn lemma_lex_lt_total(a: Seq<char>, b: Seq<char>)
    ensures
        a == b || lex_lt(a, b) || lex_lt(b, a),
    decreases a.len(),
{
    if a.len() == 0 {
        if b.len() == 0 {
            assert(a =~= b);
        } else {
            assert(splits_at(a, b, 0));
        }
    } else if b.len() == 0 {
        assert(splits_at(b, a, 0));
    } else if a[0] != b[0] {
        if char_below(a[0], b[0]) {
            assert(splits_at(a, b, 0));
        } else {
            assert(splits_at(b, a, 0));
        }
    } else {
        let x = a.drop_first();
        let y = b.drop_first();
        lemma_lex_lt_total(x, y);
        assert(x.len() == a.len() - 1);
        assert(y.len() == b.len() - 1);
        if x == y {
            assert(a.len() == b.len());
            assert forall|i: int| 0 <= i < a.len() implies a[i] == b[i] by {
                if i > 0 {
                    assert(x[i - 1] == y[i - 1]);
                }
            }
            assert(a =~= b);
        } else if lex_lt(x, y) {
            let k = choose|k: int| splits_at(x, y, k);
            assert forall|i: int| 0 <= i < k + 1 implies a[i] == b[i] by {
                if i > 0 {
                    assert(x[i - 1] == y[i - 1]);
                }
            }
            assert(splits_at(a, b, k + 1));
        } else {
            let k = choose|k: int| splits_at(y, x, k);
            assert forall|i: int| 0 <= i < k + 1 implies b[i] == a[i] by {
                if i > 0 {
                    assert(y[i - 1] == x[i - 1]);
                }
            }
            assert(splits_at(b, a, k + 1));
        }
    }
}

/// Whether `a` sorts strictly before `b`.
pub fn chars_lt(a: &Vec<char>, b: &Vec<char>) -> (r: bool)
    ensures
        r == lex_lt(a@, b@),
{
    let mut i: usize = 0;
    while i < a.len() && i < b.len()
        invariant
            i <= a.len(),
            i <= b.len(),
            forall|j: int| 0 <= j < i ==> a@[j] == b@[j],
        decreases a.len() - i,
    {
        if a[i] != b[i] {
            let r = a[i] < b[i];
            proof {
                if r {
                    assert(splits_at(a@, b@, i as int));
                } else {
                    assert forall|k: int| !splits_at(a@, b@, k) by {
                        if splits_at(a@, b@, k) && k > i {
                            assert(a@[i as int] == b@[i as int]);
                        }
                    }
                }
            }
            return r;
        }
        i += 1;
    }
    let r = a.len() < b.len();
    proof {
        if r {
            assert(splits_at(a@, b@, a.len() as int));
        } else {
            assert forall|k: int| !splits_at(a@, b@, k) by {}
        }
    }
    r
}

/// Whether `a` sorts strictly before `b` in the order of Rust's `str`.
pub fn str_lt(a: &str, b: &str) -> (r: bool)
    ensures
        r == lex_lt(a@, b@),
{
    let x = to_chars(a);
    let y = to_chars(b);
    chars_lt(&x, &y)
}

/// The character of a decimal digit.
pub open spec fn digit_char(d: int) -> char {
    if d == 0 {
        '0'
    } else if d == 1 {
        '1'
    } else if d == 2 {
        '2'
    } else if d == 3 {
        '3'
    } else if d == 4 {
        '4'
    } else if d == 5 {
        '5'
    } else if d == 6 {
        '6'
    } else if d == 7 {
        '7'
    } else if d == 8 {
        '8'
    } else {
        '9'
    }
}

/// The decimal numeral of `n`, most significant digit first, without leading
/// zeros (`0` is written "0").
pub open spec fn decimal(n: nat) -> Seq<char>
    decreases n,
{
    if n < 10 {
        seq![digit_char(n as int)]
    } else {
        decimal(n / 10).push(digit_char((n % 10) as int))
    }
}

/// The number of digits of the decimal numeral of `n`.
pub open spec fn decimal_len(n: nat) -> nat
    decreases n,
{
    if n < 10 {
        1
    } else {
        decimal_len(n / 10) + 1
    }
}

/// The decimal numeral of `n`, with zeros in front where it has fewer than
/// `width` digits. A numeral that is wider than `width` stays whole.
pub open spec fn zero_padded(n: nat, width: nat) -> Seq<char> {
    let d = decimal(n);
    if d.len() >= width {
        d
    } else {
        Seq::new((width - d.len()) as nat, |i: int| '0') + d
    }
}

/// `decimal_len` is the length of `decimal`.
pub proof fn lemma_decimal_len(n: nat)
    ensures
        decimal(n).len() == decimal_len(n),
        decimal_len(n) >= 1,
    decreases n,
{
    if n >= 10 {
        lemma_decimal_len(n / 10);
    }
}

/// A numeral that fits its width is padded to exactly that width.
pub proof fn lemma_zero_padded_len(n: nat, width: nat)
    ensures
        decimal_len(n) <= width ==> zero_padded(n, width).len() == width,
        decimal_len(n) >= width ==> zero_padded(n, width) == decimal(n),
{
    lemma_decimal_len(n);
}

/// A smaller number has no more digits.
pub proof fn lemma_decimal_len_monotonic(a: nat, b: nat)
    requires
        a <= b,
    ensures
        decimal_len(a) <= decimal_len(b),
    decreases b,
{
    if a >= 10 {
        lemma_decimal_len_monotonic(a / 10, b / 10);
    }
}

/// Padding to a width of two or more: the last digit is that of `n % 10`, in
/// front of it stands `n / 10` padded to one digit less.
pub proof fn lemma_zero_padded_step(n: nat, width: nat)
    requires
        width >= 2,
    ensures
        zero_padded(n, width) == zero_padded(n / 10, (width - 1) as nat).push(
            digit_char((n % 10) as int),
        ),
{
    lemma_decimal_len(n);
    lemma_decimal_len(n / 10);
    assert(zero_padded(n, width) =~= zero_padded(n / 10, (width - 1) as nat).push(
        digit_char((n % 10) as int),
    ));
}

/// Of two numbers that fit the width, the smaller one's padded numeral sorts
/// first, and the two numerals differ at a position inside the width. The
/// position is returned.
pub proof fn lemma_zero_padded_order(i: nat, j: nat, width: nat) -> (k: int)
    requires
        i < j,
        decimal_len(j) <= width,
    ensures
        0 <= k < width,
        zero_padded(i, width).len() == width,
        zero_padded(j, width).len() == width,
        splits_at(zero_padded(i, width), zero_padded(j, width), k),
    decreases width,
{
    lemma_decimal_len_monotonic(i, j);
    lemma_zero_padded_len(i, width);
    lemma_zero_padded_len(j, width);
    lemma_decimal_len(i);
    lemma_decimal_len(j);
    if width <= 1 {
        if j >= 10 {
            lemma_decimal_len(j / 10);
        }
        assert(zero_padded(i, width) =~= seq![digit_char(i as int)]);
        assert(zero_padded(j, width) =~= seq![digit_char(j as int)]);
        0
    } else {
        let w = (width - 1) as nat;
        lemma_zero_padded_step(i, width);
        lemma_zero_padded_step(j, width);
        lemma_decimal_len(j / 10);
        let pi = zero_padded(i / 10, w);
        let pj = zero_padded(j / 10, w);
        if i / 10 < j / 10 {
            let k = lemma_zero_padded_order(i / 10, j / 10, w);
            assert(splits_at(pi.push(digit_char((i % 10) as int)), pj.push(digit_char((j % 10) as int)), k));
            k
        } else {
            assert(i / 10 == j / 10);
            assert(i % 10 < j % 10);
            lemma_zero_padded_len(i / 10, w);
            assert(splits_at(pi.push(digit_char((i % 10) as int)), pj.push(digit_char((j % 10) as int)), w as int));
            w as int
        }
    }
}

fn digit(d: usize) -> (c: char)
    requires
        d < 10,
    ensures
        c == digit_char(d as int),
{
    if d == 0 {
        '0'
    } else if d == 1 {
        '1'
    } else if d == 2 {
        '2'
    } else if d == 3 {
        '3'
    } else if d == 4 {
        '4'
    } else if d == 5 {
        '5'
    } else if d == 6 {
        '6'
    } else if d == 7 {
        '7'
    } else if d == 8 {
        '8'
    } else {
        '9'
    }
}

/// The digits of the decimal numeral of `n`.
pub fn decimal_chars(n: usize) -> (out: Vec<char>)
    ensures
        out@ == decimal(n as nat),
    decreases n,
{
    if n < 10 {
        let mut out: Vec<char> = Vec::new();
        out.push(digit(n));
        assert(out@ =~= seq![digit_char(n as int)]);
        out
    } else {
        let mut out = decimal_chars(n / 10);
        out.push(digit(n % 10));
        out
    }
}

/// Appends the decimal numeral of `n` to `out`, zero-padded to `width`.
pub fn push_zero_padded(out: &mut String, n: usize, width: usize)
    ensures
        final(out)@ == old(out)@ + zero_padded(n as nat, width as nat),
{
    let digits = decimal_chars(n);
    let ghost before = out@;
    let mut pad: usize = 0;
    if digits.len() < width {
        let zeros: usize = width - digits.len();
        while pad < zeros
            invariant
                pad <= zeros,
                out@ == before + Seq::new(pad as nat, |i: int| '0'),
            decreases zeros - pad,
        {
            push_char(out, '0');
            pad += 1;
            assert(out@ =~= before + Seq::new(pad as nat, |i: int| '0'));
        }
    }
    assert(out@ =~= before + Seq::new(pad as nat, |i: int| '0'));
    let ghost padded = out@;
    let mut i: usize = 0;
    while i < digits.len()
        invariant
            i <= digits.len(),
            out@ == padded + digits@.take(i as int),
        decreases digits.len() - i,
    {
        push_char(out, digits[i]);
        i += 1;
        assert(out@ =~= padded + digits@.take(i as int));
    }
    assert(digits@.take(digits.len() as int) =~= digits@);
    assert(out@ =~= before + zero_padded(n as nat, width as nat));
}

/// The characters of an optional string.
pub open spec fn opt_chars(text: Option<String>) -> Option<Seq<char>> {
    match text {
        Some(s) => Some(s@),
        None => None,
    }
}

/// The characters of each string of a list.
pub open spec fn each_chars(texts: Seq<String>) -> Seq<Seq<char>> {
    texts.map_values(|s: String| s@)
}

/// A copy of an optional string.
pub fn clone_opt(text: &Option<String>) -> (copy: Option<String>)
    ensures
        opt_chars(copy) == opt_chars(*text),
{
    match text {
        Some(s) => Some(s.clone()),
        None => None,
    }
}

/// The two strings, one after the other.
pub fn join2(a: &str, b: &str) -> (out: String)
    ensures
        out@ == a@ + b@,
{
    let mut out = String::new();
    out.append(a);
    out.append(b);
    assert(out@ =~= a@ + b@);
    out
}

} // verus!
