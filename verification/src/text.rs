//! Character-level string helpers and their mathematical models.
use vstd::prelude::*;

verus! {

/// The characters of `s`, in order (std's `str::chars` collected).
#[verifier::external_body]
pub(crate) fn chars_of(s: &str) -> (res: Vec<char>)
    ensures
        res@ == s@,
{
    s.chars().collect()
}

/// The string made of the characters of `v`, in order (std's `FromIterator<char>` for `String`).
#[verifier::external_body]
pub(crate) fn string_of(v: &[char]) -> (res: String)
    ensures
        res@ == v@,
{
    v.iter().collect()
}

/// State of a left-to-right split of `s` at every `sep`: the finished pieces and the
/// piece under construction.
pub open spec fn split_state(s: Seq<char>, sep: char) -> (Seq<Seq<char>>, Seq<char>)
    decreases s.len(),
{
    if s.len() == 0 {
        (seq![], seq![])
    } else {
        let (done, cur) = split_state(s.drop_last(), sep);
        if s.last() == sep {
            (done.push(cur), seq![])
        } else {
            (done, cur.push(s.last()))
        }
    }
}

/// The pieces of `s` between occurrences of `sep` (what `str::split(sep)` yields).
pub open spec fn spec_split(s: Seq<char>, sep: char) -> Seq<Seq<char>> {
    split_state(s, sep).0.push(split_state(s, sep).1)
}

/// Splits `s` at every occurrence of `sep`.
pub fn split_char(s: &str, sep: char) -> (res: Vec<String>)
    ensures
        res@.map_values(|p: String| p@) == spec_split(s@, sep),
{
    let cs = chars_of(s);
    let mut done: Vec<String> = Vec::new();
    let mut cur: Vec<char> = Vec::new();
    let mut i: usize = 0;
    while i < cs.len()
        invariant
            i <= cs.len(),
            cs@ == s@,
            done@.map_values(|p: String| p@) == split_state(s@.take(i as int), sep).0,
            cur@ == split_state(s@.take(i as int), sep).1,
        decreases cs.len() - i,
    {
        let c = cs[i];
        assert(s@.take(i as int + 1).drop_last() == s@.take(i as int));
        if c == sep {
            let piece = string_of(cur.as_slice());
            done.push(piece);
            cur = Vec::new();
        } else {
            cur.push(c);
        }
        i = i + 1;
    }
    assert(s@.take(cs.len() as int) == s@);
    let last = string_of(cur.as_slice());
    done.push(last);
    done
}

} // verus!
verus! {

/// Whether two strings hold the same characters.
pub fn str_eq(a: &str, b: &str) -> (res: bool)
    ensures
        res == (a@ == b@),
{
    let ca = chars_of(a);
    let cb = chars_of(b);
    if ca.len() != cb.len() {
        return false;
    }
    let mut i: usize = 0;
    while i < ca.len()
        invariant
            i <= ca.len(),
            ca.len() == cb.len(),
            ca@ == a@,
            cb@ == b@,
            forall|j: int| 0 <= j < i ==> ca@[j] == cb@[j],
        decreases ca.len() - i,
    {
        if ca[i] != cb[i] {
            return false;
        }
        i = i + 1;
    }
    assert(ca@ =~= cb@);
    true
}

} // verus!
verus! {

/// What `str::to_lowercase` gives for a text (Unicode lowercase mapping).
pub uninterp spec fn spec_lowercase(s: Seq<char>) -> Seq<char>;

/// `c` in lower case when it is an ASCII upper-case letter, else itself.
pub open spec fn ascii_lower(c: char) -> char {
    if 'A' <= c && c <= 'Z' { ((c as int) + 32) as char } else { c }
}

/// Whether every character of `s` is ASCII.
pub open spec fn is_ascii_text(s: Seq<char>) -> bool {
    forall|i: int| 0 <= i < s.len() ==> (#[trigger] s[i] as int) < 128
}

/// `s` with its ASCII upper-case letters in lower case.
pub open spec fn ascii_lowered(s: Seq<char>) -> Seq<char> {
    s.map_values(|c: char| ascii_lower(c))
}

/// `str::to_lowercase`. The contract names the result, and states what the Unicode
/// lowercase mapping does on ASCII text: `A` to `Z` become `a` to `z`, every other
/// character stays. The mapping of other characters is left to std.
#[verifier::external_body]
pub(crate) fn to_lowercase(s: &str) -> (res: String)
    ensures
        res@ == spec_lowercase(s@),
        is_ascii_text(s@) ==> res@ == ascii_lowered(s@),
{
    s.to_lowercase()
}

/// Whether `s` begins with `p`.
pub open spec fn spec_starts_with(s: Seq<char>, p: Seq<char>) -> bool {
    s.len() >= p.len() && s.take(p.len() as int) == p
}

/// `str::starts_with` for a string prefix.
pub fn starts_with(s: &str, p: &str) -> (res: bool)
    ensures
        res == spec_starts_with(s@, p@),
{
    let cs = chars_of(s);
    let cp = chars_of(p);
    if cs.len() < cp.len() {
        return false;
    }
    let mut i: usize = 0;
    while i < cp.len()
        invariant
            i <= cp.len() <= cs.len(),
            cs@ == s@,
            cp@ == p@,
            forall|j: int| 0 <= j < i ==> cs@[j] == cp@[j],
        decreases cp.len() - i,
    {
        if cs[i] != cp[i] {
            return false;
        }
        i = i + 1;
    }
    assert(s@.take(p@.len() as int) =~= p@);
    true
}

/// The position of the first `c` in `s`, if any.
pub open spec fn spec_find_char(s: Seq<char>, c: char) -> Option<int>
    decreases s.len(),
{
    if s.len() == 0 {
        None
    } else if s[0] == c {
        Some(0)
    } else {
        match spec_find_char(s.drop_first(), c) {
            Some(i) => Some(i + 1),
            None => None,
        }
    }
}

/// The pieces of `str::splitn(2, c)`: the text before the first `c` and the text after
/// it, or the whole text when it holds no `c`.
pub open spec fn spec_splitn2(s: Seq<char>, c: char) -> Seq<Seq<char>> {
    match spec_find_char(s, c) {
        Some(i) => seq![s.take(i), s.skip(i + 1)],
        None => seq![s],
    }
}

proof fn lemma_find_char_bounds(s: Seq<char>, c: char)
    ensures
        match spec_find_char(s, c) {
            Some(i) => 0 <= i < s.len() && s[i] == c && forall|j: int| 0 <= j < i ==> s[j] != c,
            None => forall|j: int| 0 <= j < s.len() ==> s[j] != c,
        },
    decreases s.len(),
{
    if s.len() > 0 {
        lemma_find_char_bounds(s.drop_first(), c);
        if s[0] != c {
            match spec_find_char(s.drop_first(), c) {
                Some(i) => {
                    assert forall|j: int| 0 <= j < i + 1 implies s[j] != c by {
                        if j > 0 {
                            assert(s[j] == s.drop_first()[j - 1]);
                        }
                    }
                },
                None => {
                    assert forall|j: int| 0 <= j < s.len() implies s[j] != c by {
                        if j > 0 {
                            assert(s[j] == s.drop_first()[j - 1]);
                        }
                    }
                },
            }
        }
    }
}

/// The first position of `c` in `s`, searched directly.
pub fn find_char(s: &str, c: char) -> (res: Option<usize>)
    ensures
        match res {
            Some(i) => spec_find_char(s@, c) == Some(i as int),
            None => spec_find_char(s@, c) is None,
        },
{
    let cs = chars_of(s);
    let mut i: usize = 0;
    proof {
        lemma_find_char_bounds(s@, c);
    }
    while i < cs.len()
        invariant
            i <= cs.len(),
            cs@ == s@,
            forall|j: int| 0 <= j < i ==> cs@[j] != c,
            match spec_find_char(s@, c) {
                Some(k) => 0 <= k < s@.len() && s@[k] == c && forall|j: int| 0 <= j < k ==> s@[j] != c,
                None => forall|j: int| 0 <= j < s@.len() ==> s@[j] != c,
            },
        decreases cs.len() - i,
    {
        if cs[i] == c {
            return Some(i);
        }
        i = i + 1;
    }
    None
}

/// `s` without its leading run of `c`.
pub open spec fn trim_start_char(s: Seq<char>, c: char) -> Seq<char>
    decreases s.len(),
{
    if s.len() > 0 && s[0] == c {
        trim_start_char(s.drop_first(), c)
    } else {
        s
    }
}

/// `s` without its trailing run of `c`.
pub open spec fn trim_end_char(s: Seq<char>, c: char) -> Seq<char>
    decreases s.len(),
{
    if s.len() > 0 && s.last() == c {
        trim_end_char(s.drop_last(), c)
    } else {
        s
    }
}

/// `str::trim_matches(c)`: every leading and trailing `c` removed.
pub open spec fn spec_trim_matches(s: Seq<char>, c: char) -> Seq<char> {
    trim_end_char(trim_start_char(s, c), c)
}

/// `str::trim_matches(c)` for a character pattern.
pub fn trim_matches(s: &str, c: char) -> (res: String)
    ensures
        res@ == spec_trim_matches(s@, c),
{
    let cs = chars_of(s);
    let mut lo: usize = 0;
    assert(s@.skip(0) == s@);
    while lo < cs.len() && cs[lo] == c
        invariant
            lo <= cs.len(),
            cs@ == s@,
            trim_start_char(s@, c) == trim_start_char(s@.skip(lo as int), c),
        decreases cs.len() - lo,
    {
        assert(s@.skip(lo as int).drop_first() == s@.skip(lo as int + 1));
        lo = lo + 1;
    }
    assert(trim_start_char(s@, c) == s@.skip(lo as int));
    let mut hi: usize = cs.len();
    while hi > lo && cs[hi - 1] == c
        invariant
            lo <= hi <= cs.len(),
            cs@ == s@,
            spec_trim_matches(s@, c) == trim_end_char(s@.subrange(lo as int, hi as int), c),
        decreases hi,
    {
        assert(s@.subrange(lo as int, hi as int).drop_last() == s@.subrange(lo as int, hi as int - 1));
        hi = hi - 1;
    }
    let ghost t = s@.subrange(lo as int, hi as int);
    assert(trim_end_char(t, c) == t);
    let mut out: Vec<char> = Vec::new();
    let mut k: usize = lo;
    while k < hi
        invariant
            lo <= k <= hi <= cs.len(),
            cs@ == s@,
            out@ == s@.subrange(lo as int, k as int),
        decreases hi - k,
    {
        out.push(cs[k]);
        k = k + 1;
    }
    string_of(out.as_slice())
}

/// `str::splitn(2, c)`, each piece copied out.
pub fn splitn2(s: &str, c: char) -> (res: Vec<String>)
    ensures
        res@.map_values(|p: String| p@) == spec_splitn2(s@, c),
{
    let cs = chars_of(s);
    match find_char(s, c) {
        Some(i) => {
            proof {
                lemma_find_char_bounds(s@, c);
            }
            let mut a: Vec<char> = Vec::new();
            let mut b: Vec<char> = Vec::new();
            let mut k: usize = 0;
            while k < cs.len()
                invariant
                    i < cs.len(),
                    k <= cs.len(),
                    cs@ == s@,
                    a@ == s@.take(if k <= i { k as int } else { i as int }),
                    b@ == (if k <= i + 1 { seq![] } else { s@.subrange(i + 1, k as int) }),
                decreases cs.len() - k,
            {
                if k < i {
                    a.push(cs[k]);
                } else if k > i {
                    b.push(cs[k]);
                }
                proof {
                    if k > i + 1 {
                        assert(s@.subrange(i + 1, k as int + 1) == s@.subrange(i + 1, k as int).push(s@[k as int]));
                    } else if k == i + 1 {
                        assert(s@.subrange(i + 1, k as int + 1) == seq![s@[k as int]]);
                    }
                    if k < i {
                        assert(s@.take(k as int + 1) == s@.take(k as int).push(s@[k as int]));
                    }
                }
                k = k + 1;
            }
            assert(b@ == s@.skip(i + 1));
            let mut res: Vec<String> = Vec::new();
            res.push(string_of(a.as_slice()));
            res.push(string_of(b.as_slice()));
            assert(res@.map_values(|p: String| p@) =~= spec_splitn2(s@, c));
            res
        },
        None => {
            let mut res: Vec<String> = Vec::new();
            res.push(s.to_string());
            assert(res@.map_values(|p: String| p@) =~= spec_splitn2(s@, c));
            res
        },
    }
}

} // verus!
verus! {

/// Splitting a text that holds no separator gives the text itself.
pub proof fn lemma_split_no_sep(s: Seq<char>, c: char)
    requires
        !s.contains(c),
    ensures
        split_state(s, c) == (Seq::<Seq<char>>::empty(), s),
        spec_split(s, c) == seq![s],
    decreases s.len(),
{
    if s.len() > 0 {
        assert(!s.drop_last().contains(c)) by {
            if s.drop_last().contains(c) {
                let j = choose|j: int| 0 <= j < s.drop_last().len() && s.drop_last()[j] == c;
                assert(s[j] == c);
            }
        }
        lemma_split_no_sep(s.drop_last(), c);
        assert(s.last() != c) by {
            assert(s[s.len() - 1] == s.last());
        }
        assert(s.drop_last().push(s.last()) == s);
    } else {
        assert(s =~= Seq::<char>::empty());
    }
    assert(spec_split(s, c) =~= seq![s]);
}

/// Splitting `a`, the separator, and `b` (with no separator in `a`) gives `a` and then
/// the pieces of `b`.
pub proof fn lemma_split_concat(a: Seq<char>, b: Seq<char>, c: char)
    requires
        !a.contains(c),
    ensures
        split_state(a + seq![c] + b, c) == (seq![a] + split_state(b, c).0, split_state(b, c).1),
        spec_split(a + seq![c] + b, c) == seq![a] + spec_split(b, c),
    decreases b.len(),
{
    let s = a + seq![c] + b;
    if b.len() == 0 {
        lemma_split_no_sep(a, c);
        assert(s.drop_last() == a);
        assert(s.last() == c);
        assert(split_state(s, c).0 =~= seq![a] + split_state(b, c).0);
    } else {
        lemma_split_concat(a, b.drop_last(), c);
        assert(s.drop_last() == a + seq![c] + b.drop_last());
        assert(s.last() == b.last());
        let (d, cur) = split_state(b.drop_last(), c);
        if b.last() == c {
            assert((seq![a] + d).push(cur) =~= seq![a] + d.push(cur));
        }
    }
    assert(spec_split(s, c) =~= seq![a] + spec_split(b, c));
}

} // verus!
verus! {

/// The texts of a list of strings.
pub open spec fn texts(v: Seq<String>) -> Seq<Seq<char>> {
    v.map_values(|p: String| p@)
}

/// Appends the strings of `more` to `v`.
pub fn extend_strings(v: &mut Vec<String>, more: Vec<String>)
    ensures
        texts(final(v)@) == texts(old(v)@) + texts(more@),
{
    let ghost m0 = more@;
    let mut more = more;
    v.append(&mut more);
    assert(v@ == old(v)@ + m0);
    assert(texts(v@) =~= texts(old(v)@) + texts(m0));
}

/// Appends a copy of each string of `more` to `v`.
pub fn extend_cloned(v: &mut Vec<String>, more: &Vec<String>)
    ensures
        texts(final(v)@) == texts(old(v)@) + texts(more@),
{
    let mut i: usize = 0;
    let ghost v0 = v@;
    while i < more.len()
        invariant
            i <= more.len(),
            v0 == old(v)@,
            texts(v@) == texts(v0) + texts(more@.take(i as int)),
        decreases more.len() - i,
    {
        let ghost prev = v@;
        let x = more[i].clone();
        v.push(x);
        assert(v@ == prev.push(x));
        assert(more@.take(i as int + 1) == more@.take(i as int).push(more@[i as int]));
        assert(texts(v@) =~= texts(prev).push(x@));
        assert(texts(more@.take(i as int + 1)) =~= texts(more@.take(i as int)).push(more@[i as int]@));
        assert(texts(v@) =~= texts(v0) + texts(more@.take(i as int + 1)));
        i = i + 1;
    }
    assert(more@.take(more.len() as int) == more@);
}

/// A list of strings built from literals, pushed one by one.
pub fn strings1(a: &str) -> (res: Vec<String>)
    ensures
        texts(res@) == seq![a@],
{
    let mut v: Vec<String> = Vec::new();
    v.push(a.to_string());
    assert(texts(v@) =~= seq![a@]);
    v
}

/// A list of two strings.
pub fn strings2(a: &str, b: &str) -> (res: Vec<String>)
    ensures
        texts(res@) == seq![a@, b@],
{
    let mut v: Vec<String> = Vec::new();
    v.push(a.to_string());
    v.push(b.to_string());
    assert(texts(v@) =~= seq![a@, b@]);
    v
}

} // verus!
verus! {

/// Whether `c` is one of the digits `0` to `9`.
pub open spec fn is_digit(c: char) -> bool {
    '0' <= c && c <= '9'
}

/// The number that a run of decimal digits writes.
pub open spec fn digits_value(s: Seq<char>) -> int
    decreases s.len(),
{
    if s.len() == 0 {
        0
    } else {
        digits_value(s.drop_last()) * 10 + (s.last() as int - '0' as int)
    }
}

/// The text after an optional leading `+`.
pub open spec fn unsigned_digits(s: Seq<char>) -> Seq<char> {
    if s.len() > 0 && s[0] == '+' { s.drop_first() } else { s }
}

/// Whether every character of `d` is a digit.
pub open spec fn all_digits(d: Seq<char>) -> bool {
    forall|i: int| 0 <= i < d.len() ==> #[trigger] is_digit(d[i])
}

/// The value that `s` writes in decimal, after an optional `+`, when it is one or more
/// digits and the value is at most `max`.
pub open spec fn decimal_value(s: Seq<char>, max: int) -> Option<int> {
    let d = unsigned_digits(s);
    if d.len() > 0 && all_digits(d) && digits_value(d) <= max {
        Some(digits_value(d))
    } else {
        None
    }
}

/// What `str::parse::<u32>` gives: an optional `+`, then one or more decimal digits
/// whose value fits in a `u32`; anything else (a sign alone, spaces, other characters,
/// an overflow) is an error.
pub open spec fn spec_parse_u32(s: Seq<char>) -> Option<u32> {
    match decimal_value(s, u32::MAX as int) {
        Some(v) => Some(v as u32),
        None => None,
    }
}

/// What `str::parse::<usize>` gives: as for `u32`, with the bound of `usize`.
pub open spec fn spec_parse_usize(s: Seq<char>) -> Option<usize> {
    match decimal_value(s, usize::MAX as int) {
        Some(v) => Some(v as usize),
        None => None,
    }
}

/// Reading more digits never lowers the value read so far.
proof fn lemma_digits_prefix(d: Seq<char>, k: int)
    requires
        0 <= k <= d.len(),
        forall|i: int| 0 <= i < d.len() ==> #[trigger] is_digit(d[i]),
    ensures
        digits_value(d.take(k)) <= digits_value(d),
        0 <= digits_value(d.take(k)),
    decreases d.len() - k,
{
    if k < d.len() {
        lemma_digits_prefix(d, k + 1);
        assert(d.take(k + 1).drop_last() =~= d.take(k));
        assert(d.take(k + 1).last() == d[k]);
        assert(is_digit(d[k]));
    } else {
        assert(d.take(k) =~= d);
        lemma_digits_nonneg(d);
    }
}

/// A run of digits has a value of at least zero.
proof fn lemma_digits_nonneg(d: Seq<char>)
    requires
        forall|i: int| 0 <= i < d.len() ==> #[trigger] is_digit(d[i]),
    ensures
        0 <= digits_value(d),
    decreases d.len(),
{
    if d.len() > 0 {
        assert forall|i: int| 0 <= i < d.drop_last().len() implies #[trigger] is_digit(d.drop_last()[i]) by {
            assert(d.drop_last()[i] == d[i]);
        }
        lemma_digits_nonneg(d.drop_last());
        assert(is_digit(d[d.len() - 1]));
    }
}

/// The digits of `s` after an optional `+`, read as a number no greater than `max` (see
/// [`decimal_value`]).
fn parse_decimal(s: &str, max: usize) -> (res: Option<usize>)
    requires
        9 <= max,
    ensures
        match res {
            Some(v) => decimal_value(s@, max as int) == Some(v as int),
            None => decimal_value(s@, max as int) is None,
        },
{
    let cs = chars_of(s);
    let start: usize = if cs.len() > 0 && cs[0] == '+' { 1 } else { 0 };
    let ghost d = unsigned_digits(s@);
    assert(d =~= cs@.subrange(start as int, cs@.len() as int));
    if start >= cs.len() {
        return None;
    }
    let mut v: usize = 0;
    let mut i: usize = start;
    assert(d.take(0) =~= Seq::<char>::empty());
    while i < cs.len()
        invariant
            start <= i <= cs.len(),
            cs@ == s@,
            9 <= max,
            d == unsigned_digits(s@),
            d == cs@.subrange(start as int, cs@.len() as int),
            forall|j: int| 0 <= j < i - start ==> #[trigger] is_digit(d[j]),
            v == digits_value(d.take(i - start)),
            v <= max,
        decreases cs.len() - i,
    {
        let c = cs[i];
        assert(d[i - start] == c);
        if !('0' <= c && c <= '9') {
            assert(!is_digit(d[i - start]));
            assert(!all_digits(d));
            return None;
        }
        let digit = ((c as u32) - ('0' as u32)) as usize;
        let k: Ghost<int> = Ghost(i - start);
        assert(d.take(k@ + 1).drop_last() =~= d.take(k@));
        assert(d.take(k@ + 1).last() == c);
        assert(digits_value(d.take(k@ + 1)) == v * 10 + digit);
        if v > (max - digit) / 10 {
            proof {
                assert(v * 10 + digit > max) by (nonlinear_arith)
                    requires v > (max - digit) / 10, digit <= 9, 9 <= max;
                if all_digits(d) {
                    lemma_digits_prefix(d, k@ + 1);
                }
            }
            return None;
        }
        proof {
            assert(v * 10 + digit <= max) by (nonlinear_arith)
                requires v <= (max - digit) / 10, digit <= 9, 9 <= max;
        }
        v = v * 10 + digit;
        i = i + 1;
    }
    assert(d.take(d.len() as int) =~= d);
    assert(all_digits(d));
    Some(v)
}

/// `str::parse::<usize>`, the error dropped: an optional `+`, then decimal digits whose
/// value fits (see [`spec_parse_usize`]).
pub(crate) fn parse_usize(s: &str) -> (res: Option<usize>)
    ensures
        res == spec_parse_usize(s@),
{
    parse_decimal(s, usize::MAX)
}

/// `str::parse::<u32>`, the error dropped (see [`spec_parse_u32`]).
pub(crate) fn parse_u32(s: &str) -> (res: Option<u32>)
    ensures
        res == spec_parse_u32(s@),
{
    match parse_decimal(s, 0xFFFF_FFFF) {
        Some(v) => Some(v as u32),
        None => None,
    }
}

} // verus!
verus! {

/// Whether `c` has the Unicode `White_Space` property, as `char::is_whitespace` checks:
/// the controls tab to carriage return, space, next line, no-break space, ogham space
/// mark, the spaces from en quad to hair space, line and paragraph separator, narrow
/// no-break space, medium mathematical space and ideographic space.
pub open spec fn spec_is_whitespace(c: char) -> bool {
    let n = c as u32;
    (0x9 <= n && n <= 0xD) || n == 0x20 || n == 0x85 || n == 0xA0 || n == 0x1680
        || (0x2000 <= n && n <= 0x200A) || n == 0x2028 || n == 0x2029 || n == 0x202F
        || n == 0x205F || n == 0x3000
}

/// Whether `c` is whitespace (see [`spec_is_whitespace`]).
pub(crate) fn is_whitespace(c: char) -> (res: bool)
    ensures
        res == spec_is_whitespace(c),
{
    let n = c as u32;
    (0x9 <= n && n <= 0xD) || n == 0x20 || n == 0x85 || n == 0xA0 || n == 0x1680
        || (0x2000 <= n && n <= 0x200A) || n == 0x2028 || n == 0x2029 || n == 0x202F
        || n == 0x205F || n == 0x3000
}

/// `str::trim_start`: `s` without its leading whitespace.
pub open spec fn trim_start_ws(s: Seq<char>) -> Seq<char>
    decreases s.len(),
{
    if s.len() > 0 && spec_is_whitespace(s[0]) {
        trim_start_ws(s.drop_first())
    } else {
        s
    }
}

/// `str::trim_end`: `s` without its trailing whitespace.
pub open spec fn trim_end_ws(s: Seq<char>) -> Seq<char>
    decreases s.len(),
{
    if s.len() > 0 && spec_is_whitespace(s.last()) {
        trim_end_ws(s.drop_last())
    } else {
        s
    }
}

/// The text between the outer braces of a JSON object's text: surrounding whitespace
/// dropped, then the leading `{`s and the trailing `}`s.
pub open spec fn spec_unbraced(s: Seq<char>) -> Seq<char> {
    trim_end_char(trim_end_ws(trim_start_char(trim_start_ws(s), '{')), '}')
}

/// `s.trim_start().trim_start_matches('{').trim_end().trim_end_matches('}')`.
pub fn unbraced(s: &str) -> (res: String)
    ensures
        res@ == spec_unbraced(s@),
{
    let cs = chars_of(s);
    let mut lo: usize = 0;
    assert(s@.skip(0) == s@);
    while lo < cs.len() && is_whitespace(cs[lo])
        invariant
            lo <= cs.len(),
            cs@ == s@,
            trim_start_ws(s@) == trim_start_ws(s@.skip(lo as int)),
        decreases cs.len() - lo,
    {
        assert(s@.skip(lo as int).drop_first() == s@.skip(lo as int + 1));
        lo = lo + 1;
    }
    assert(trim_start_ws(s@) == s@.skip(lo as int));
    let ghost lo0 = lo;
    while lo < cs.len() && cs[lo] == '{'
        invariant
            lo0 <= lo <= cs.len(),
            cs@ == s@,
            trim_start_ws(s@) == s@.skip(lo0 as int),
            trim_start_char(s@.skip(lo0 as int), '{') == trim_start_char(s@.skip(lo as int), '{'),
        decreases cs.len() - lo,
    {
        assert(s@.skip(lo as int).drop_first() == s@.skip(lo as int + 1));
        lo = lo + 1;
    }
    assert(trim_start_char(trim_start_ws(s@), '{') == s@.skip(lo as int));
    assert(s@.skip(lo as int) == s@.subrange(lo as int, cs.len() as int));
    let mut hi: usize = cs.len();
    while hi > lo && is_whitespace(cs[hi - 1])
        invariant
            lo <= hi <= cs.len(),
            cs@ == s@,
            trim_end_ws(trim_start_char(trim_start_ws(s@), '{')) == trim_end_ws(s@.subrange(lo as int, hi as int)),
        decreases hi,
    {
        assert(s@.subrange(lo as int, hi as int).drop_last() == s@.subrange(lo as int, hi as int - 1));
        hi = hi - 1;
    }
    assert(trim_end_ws(s@.subrange(lo as int, hi as int)) == s@.subrange(lo as int, hi as int));
    let ghost hi0 = hi;
    while hi > lo && cs[hi - 1] == '}'
        invariant
            lo <= hi <= hi0,
            hi0 <= cs.len(),
            cs@ == s@,
            spec_unbraced(s@) == trim_end_char(s@.subrange(lo as int, hi as int), '}'),
        decreases hi,
    {
        assert(s@.subrange(lo as int, hi as int).drop_last() == s@.subrange(lo as int, hi as int - 1));
        hi = hi - 1;
    }
    assert(trim_end_char(s@.subrange(lo as int, hi as int), '}') == s@.subrange(lo as int, hi as int));
    let mut out: Vec<char> = Vec::new();
    let mut k: usize = lo;
    while k < hi
        invariant
            lo <= k <= hi <= cs.len(),
            cs@ == s@,
            out@ == s@.subrange(lo as int, k as int),
        decreases hi - k,
    {
        out.push(cs[k]);
        k = k + 1;
    }
    string_of(out.as_slice())
}

} // verus!
