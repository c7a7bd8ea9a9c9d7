//! Character-level text helpers shared by the record parser.

use vstd::prelude::*;

verus! {

/// Appends one character to a string.
/// Relies on `String::push`: the character is added at the end.
#[verifier::external_body]
fn push_char(s: &mut String, c: char)
    ensures
        final(s)@ == old(s)@.push(c),
{
    s.push(c);
}

/// The characters of `s`, in order.
pub fn chars_of(s: &str) -> (r: Vec<char>)
    ensures
        r@ == s@,
{
    let mut r: Vec<char> = Vec::new();
    for c in it: s.chars()
        invariant
            r@ == it.seq().subrange(0, it.index() as int),
    {
        r.push(c);
    }
    r
}

/// A string holding exactly the characters of `v`.
pub fn string_of(v: &[char]) -> (r: String)
    ensures
        r@ == v@,
{
    let mut r = String::new();
    let mut i: usize = 0;
    while i < v.len()
        invariant
            i <= v@.len(),
            r@ == v@.subrange(0, i as int),
        decreases v@.len() - i,
    {
        push_char(&mut r, v[i]);
        i = i + 1;
        assert(r@ =~= v@.subrange(0, i as int));
    }
    r
}


/// `p` occurs in `s` starting at index `i`.
pub open spec fn occurs_at(s: Seq<char>, p: Seq<char>, i: int) -> bool {
    0 <= i && i + p.len() <= s.len() && s.subrange(i, i + p.len()) == p
}

/// `p` occurs somewhere in `s`.
pub open spec fn contains_seq(s: Seq<char>, p: Seq<char>) -> bool {
    exists|i: int| occurs_at(s, p, i)
}

/// The first index at or after `i` where `p` occurs in `s`.
pub open spec fn first_from(s: Seq<char>, p: Seq<char>, i: int) -> Option<int>
    decreases s.len() + 1 - i,
{
    if i < 0 || i + p.len() > s.len() {
        None
    } else if occurs_at(s, p, i) {
        Some(i)
    } else {
        first_from(s, p, i + 1)
    }
}

/// The last index strictly before `i` where `p` occurs in `s`.
pub open spec fn last_before(s: Seq<char>, p: Seq<char>, i: int) -> Option<int>
    decreases i,
{
    if i <= 0 {
        None
    } else if occurs_at(s, p, i - 1) {
        Some(i - 1)
    } else {
        last_before(s, p, i - 1)
    }
}

/// Every non-overlapping occurrence of `p` in `s`, taken from left to right,
/// replaced by `q`.
pub open spec fn replace_all(s: Seq<char>, p: Seq<char>, q: Seq<char>) -> Seq<char>
    decreases s.len(),
{
    if s.len() == 0 || p.len() == 0 {
        s
    } else if occurs_at(s, p, 0) {
        q + replace_all(s.subrange(p.len() as int, s.len() as int), p, q)
    } else {
        seq![s[0]] + replace_all(s.drop_first(), p, q)
    }
}

/// The pieces of `s[start..]` between the occurrences of `sep`, scanning from `i`.
pub open spec fn split_from(s: Seq<char>, sep: Seq<char>, start: int, i: int) -> Seq<Seq<char>>
    decreases s.len() - i,
{
    if sep.len() == 0 || i < start || i + sep.len() > s.len() {
        seq![s.subrange(start, s.len() as int)]
    } else if occurs_at(s, sep, i) {
        seq![s.subrange(start, i)] + split_from(s, sep, i + sep.len(), i + sep.len())
    } else {
        split_from(s, sep, start, i + 1)
    }
}

/// The pieces of `s` between the non-overlapping occurrences of `sep`.
pub open spec fn split_on(s: Seq<char>, sep: Seq<char>) -> Seq<Seq<char>> {
    split_from(s, sep, 0, 0)
}

/// Characters with the Unicode `White_Space` property.
pub open spec fn is_white_space(c: char) -> bool {
    ('\t' <= c && c <= '\r') || c == ' ' || c == '\u{85}' || c == '\u{a0}' || c == '\u{1680}'
        || ('\u{2000}' <= c && c <= '\u{200a}') || c == '\u{2028}' || c == '\u{2029}'
        || c == '\u{202f}' || c == '\u{205f}' || c == '\u{3000}'
}

/// `s` without its leading white space.
pub open spec fn trim_start(s: Seq<char>) -> Seq<char>
    decreases s.len(),
{
    if s.len() > 0 && is_white_space(s[0]) {
        trim_start(s.drop_first())
    } else {
        s
    }
}

/// `s` without its trailing white space.
pub open spec fn trim_end(s: Seq<char>) -> Seq<char>
    decreases s.len(),
{
    if s.len() > 0 && is_white_space(s.last()) {
        trim_end(s.drop_last())
    } else {
        s
    }
}

/// `s` without leading and trailing white space.
pub open spec fn trimmed(s: Seq<char>) -> Seq<char> {
    trim_end(trim_start(s))
}

pub open spec fn is_digit(c: char) -> bool {
    '0' <= c && c <= '9'
}

pub open spec fn all_digits(s: Seq<char>) -> bool {
    forall|i: int| 0 <= i < s.len() ==> is_digit(#[trigger] s[i])
}

/// The number written by the decimal digits `s`.
pub open spec fn digits_value(s: Seq<char>) -> nat
    decreases s.len(),
{
    if s.len() == 0 {
        0
    } else {
        digits_value(s.drop_last()) * 10 + ((s.last() as nat) - ('0' as nat)) as nat
    }
}

/// An unsigned decimal number: an optional `+` and at least one digit.
pub open spec fn unsigned_value(s: Seq<char>) -> Option<nat> {
    let d = if s.len() > 0 && s[0] == '+' {
        s.drop_first()
    } else {
        s
    };
    if d.len() > 0 && all_digits(d) {
        Some(digits_value(d))
    } else {
        None
    }
}

pub proof fn lemma_first_from_occurs(s: Seq<char>, p: Seq<char>, i: int)
    ensures
        first_from(s, p, i) matches Some(j) ==> i <= j && occurs_at(s, p, j),
    decreases s.len() + 1 - i,
{
    if !(i < 0 || i + p.len() > s.len()) && !occurs_at(s, p, i) {
        lemma_first_from_occurs(s, p, i + 1);
    }
}

pub proof fn lemma_last_before_occurs(s: Seq<char>, p: Seq<char>, i: int)
    ensures
        last_before(s, p, i) matches Some(j) ==> 0 <= j < i && occurs_at(s, p, j),
    decreases i,
{
    if i > 0 && !occurs_at(s, p, i - 1) {
        lemma_last_before_occurs(s, p, i - 1);
    }
}

pub proof fn lemma_first_from_none(s: Seq<char>, p: Seq<char>, i: int, j: int)
    requires
        first_from(s, p, i) is None,
        0 <= i <= j,
    ensures
        !occurs_at(s, p, j),
    decreases j - i,
{
    if i < j && !(i < 0 || i + p.len() > s.len()) {
        lemma_first_from_none(s, p, i + 1, j);
    }
}

pub proof fn lemma_first_from_at(s: Seq<char>, p: Seq<char>, i: int, k: int)
    requires
        0 <= i <= k,
        occurs_at(s, p, k),
        forall|j: int| i <= j < k ==> !occurs_at(s, p, j),
    ensures
        first_from(s, p, i) == Some(k),
    decreases k - i,
{
    if i < k {
        lemma_first_from_at(s, p, i + 1, k);
    }
}

pub proof fn lemma_last_before_at(s: Seq<char>, p: Seq<char>, i: int, k: int)
    requires
        0 <= k < i,
        occurs_at(s, p, k),
        forall|j: int| k < j < i ==> !occurs_at(s, p, j),
    ensures
        last_before(s, p, i) == Some(k),
    decreases i - k,
{
    if k < i - 1 {
        lemma_last_before_at(s, p, i - 1, k);
    }
}

pub proof fn lemma_split_skip_to(s: Seq<char>, sep: Seq<char>, start: int, i: int, k: int)
    requires
        sep.len() > 0,
        start <= i <= k,
        forall|j: int| i <= j < k ==> !occurs_at(s, sep, j),
    ensures
        split_from(s, sep, start, i) == split_from(s, sep, start, k),
    decreases k - i,
{
    if i < k && i + sep.len() <= s.len() {
        lemma_split_skip_to(s, sep, start, i + 1, k);
    }
}

/// Replacing a pattern that does not occur changes nothing.
pub proof fn lemma_replace_absent(s: Seq<char>, p: Seq<char>, q: Seq<char>)
    requires
        !contains_seq(s, p),
    ensures
        replace_all(s, p, q) == s,
    decreases s.len(),
{
    if s.len() > 0 && p.len() > 0 {
        assert(!occurs_at(s, p, 0));
        let t = s.drop_first();
        assert forall|i: int| !occurs_at(t, p, i) by {
            if occurs_at(t, p, i) {
                assert(s.subrange(i + 1, i + 1 + p.len()) =~= t.subrange(i, i + p.len()));
                assert(occurs_at(s, p, i + 1));
            }
        }
        lemma_replace_absent(t, p, q);
        assert(seq![s[0]] + t =~= s);
    }
}

/// Whether `p` occurs in `s` at index `i`.
pub fn matches_at(s: &[char], p: &[char], i: usize) -> (r: bool)
    ensures
        r == occurs_at(s@, p@, i as int),
{
    if i > s.len() || p.len() > s.len() - i {
        return false;
    }
    let mut k: usize = 0;
    while k < p.len()
        invariant
            i + p.len() <= s.len(),
            k <= p.len(),
            forall|j: int| 0 <= j < k ==> s@[i + j] == p@[j],
        decreases p@.len() - k,
    {
        if s[i + k] != p[k] {
            assert(s@.subrange(i as int, i + p@.len())[k as int] != p@[k as int]);
            return false;
        }
        k = k + 1;
    }
    assert(s@.subrange(i as int, i + p@.len()) =~= p@);
    true
}

/// The first index at or after `from` where `p` occurs in `s`.
pub fn find_from(s: &[char], p: &[char], from: usize) -> (r: Option<usize>)
    ensures
        r matches Some(i) ==> first_from(s@, p@, from as int) == Some(i as int),
        r is None ==> first_from(s@, p@, from as int) is None,
{
    if p.len() == 0 {
        if from <= s.len() {
            assert(s@.subrange(from as int, from as int) =~= p@);
            return Some(from);
        }
        return None;
    }
    let mut i: usize = from;
    while i < s.len() && p.len() <= s.len() - i
        invariant
            from <= i,
            p@.len() > 0,
            first_from(s@, p@, from as int) == first_from(s@, p@, i as int),
        decreases s@.len() - i,
    {
        if matches_at(s, p, i) {
            return Some(i);
        }
        i = i + 1;
    }
    None
}

/// The last index where `p` occurs in `s`.
pub fn rfind(s: &[char], p: &[char]) -> (r: Option<usize>)
    ensures
        r matches Some(i) ==> last_before(s@, p@, s@.len() as int) == Some(i as int),
        r is None ==> last_before(s@, p@, s@.len() as int) is None,
{
    let mut i: usize = s.len();
    while i > 0
        invariant
            i <= s@.len(),
            last_before(s@, p@, s@.len() as int) == last_before(s@, p@, i as int),
        decreases i,
    {
        if matches_at(s, p, i - 1) {
            return Some(i - 1);
        }
        i = i - 1;
    }
    None
}

proof fn lemma_replace_step(s: Seq<char>, p: Seq<char>, q: Seq<char>, i: int)
    requires
        0 <= i < s.len(),
        p.len() > 0,
    ensures
        occurs_at(s, p, i) ==> replace_all(s.subrange(i, s.len() as int), p, q) == q
            + replace_all(s.subrange(i + p.len(), s.len() as int), p, q),
        !occurs_at(s, p, i) ==> replace_all(s.subrange(i, s.len() as int), p, q) == seq![s[i]]
            + replace_all(s.subrange(i + 1, s.len() as int), p, q),
{
    let t = s.subrange(i, s.len() as int);
    assert(occurs_at(s, p, i) <==> occurs_at(t, p, 0)) by {
        if i + p.len() <= s.len() {
            assert(t.subrange(0, p.len() as int) =~= s.subrange(i, i + p.len()));
        }
    }
    if occurs_at(t, p, 0) {
        assert(t.subrange(p.len() as int, t.len() as int) =~= s.subrange(i + p.len(), s.len() as int));
    } else {
        assert(t.drop_first() =~= s.subrange(i + 1, s.len() as int));
    }
}

/// `s` with every occurrence of `p`, from left to right, replaced by `q`.
pub fn replace_chars(s: &[char], p: &[char], q: &[char]) -> (r: Vec<char>)
    requires
        p@.len() > 0,
    ensures
        r@ == replace_all(s@, p@, q@),
{
    let mut r: Vec<char> = Vec::new();
    let mut i: usize = 0;
    assert(s@.subrange(0, s@.len() as int) =~= s@);
    while i < s.len()
        invariant
            i <= s@.len(),
            p@.len() > 0,
            r@ + replace_all(s@.subrange(i as int, s@.len() as int), p@, q@) == replace_all(s@, p@, q@),
        decreases s@.len() - i,
    {
        proof {
            lemma_replace_step(s@, p@, q@, i as int);
        }
        if matches_at(s, p, i) {
            let ghost r0 = r@;
            let mut k: usize = 0;
            while k < q.len()
                invariant
                    k <= q@.len(),
                    r@ == r0 + q@.subrange(0, k as int),
                decreases q@.len() - k,
            {
                r.push(q[k]);
                k = k + 1;
                assert(r@ =~= r0 + q@.subrange(0, k as int));
            }
            assert(q@.subrange(0, q@.len() as int) =~= q@);
            assert(r0 + (q@ + replace_all(s@.subrange(i + p@.len(), s@.len() as int), p@, q@))
                =~= r@ + replace_all(s@.subrange(i + p@.len(), s@.len() as int), p@, q@));
            i = i + p.len();
        } else {
            let ghost r0 = r@;
            r.push(s[i]);
            assert(r0 + (seq![s@[i as int]] + replace_all(s@.subrange(i + 1, s@.len() as int), p@, q@))
                =~= r@ + replace_all(s@.subrange(i + 1, s@.len() as int), p@, q@));
            i = i + 1;
        }
    }
    assert(s@.subrange(i as int, s@.len() as int) =~= Seq::<char>::empty());
    assert(r@ + Seq::<char>::empty() =~= r@);
    r
}


/// The characters `s[a..b]`.
pub fn copy_range(s: &[char], a: usize, b: usize) -> (r: Vec<char>)
    requires
        a <= b <= s@.len(),
    ensures
        r@ == s@.subrange(a as int, b as int),
{
    let mut r: Vec<char> = Vec::new();
    let mut i: usize = a;
    while i < b
        invariant
            a <= i <= b <= s@.len(),
            r@ == s@.subrange(a as int, i as int),
        decreases b - i,
    {
        r.push(s[i]);
        i = i + 1;
        assert(r@ =~= s@.subrange(a as int, i as int));
    }
    r
}

/// Whether `c` has the Unicode `White_Space` property.
pub fn is_white_space_char(c: char) -> (r: bool)
    ensures
        r == is_white_space(c),
{
    ('\t' <= c && c <= '\r') || c == ' ' || c == '\u{85}' || c == '\u{a0}' || c == '\u{1680}'
        || ('\u{2000}' <= c && c <= '\u{200a}') || c == '\u{2028}' || c == '\u{2029}'
        || c == '\u{202f}' || c == '\u{205f}' || c == '\u{3000}'
}

/// `s` without leading and trailing white space.
pub fn trim_chars(s: &[char]) -> (r: Vec<char>)
    ensures
        r@ == trimmed(s@),
{
    let mut i: usize = 0;
    assert(s@.subrange(0, s@.len() as int) =~= s@);
    while i < s.len() && is_white_space_char(s[i])
        invariant
            i <= s@.len(),
            trim_start(s@) == trim_start(s@.subrange(i as int, s@.len() as int)),
        decreases s@.len() - i,
    {
        assert(s@.subrange(i as int, s@.len() as int).drop_first()
            =~= s@.subrange(i + 1, s@.len() as int));
        i = i + 1;
    }
    assert(trim_start(s@) == s@.subrange(i as int, s@.len() as int));
    let mut j: usize = s.len();
    while j > i && is_white_space_char(s[j - 1])
        invariant
            i <= j <= s@.len(),
            trim_end(trim_start(s@)) == trim_end(s@.subrange(i as int, j as int)),
        decreases j,
    {
        assert(s@.subrange(i as int, j as int).drop_last() =~= s@.subrange(i as int, j - 1));
        j = j - 1;
    }
    assert(trim_end(s@.subrange(i as int, j as int)) == s@.subrange(i as int, j as int));
    copy_range(s, i, j)
}

proof fn lemma_digits_prefix_le(s: Seq<char>, k: int)
    requires
        0 <= k <= s.len(),
    ensures
        digits_value(s.subrange(0, k)) <= digits_value(s),
    decreases s.len(),
{
    if k < s.len() {
        lemma_digits_prefix_le(s.drop_last(), k);
        assert(s.drop_last().subrange(0, k) =~= s.subrange(0, k));
    } else {
        assert(s.subrange(0, k) =~= s);
    }
}

/// The unsigned decimal number written in `s`, where it fits in `usize`.
pub fn parse_unsigned(s: &[char]) -> (r: Option<usize>)
    ensures
        r == (match unsigned_value(s@) {
            Some(n) => if n <= usize::MAX {
                Some(n as usize)
            } else {
                None::<usize>
            },
            None => None,
        }),
{
    let start: usize = if s.len() > 0 && s[0] == '+' {
        1
    } else {
        0
    };
    let ghost d = s@.subrange(start as int, s@.len() as int);
    assert(d =~= (if s@.len() > 0 && s@[0] == '+' {
        s@.drop_first()
    } else {
        s@
    }));
    if start == s.len() {
        assert(d.len() == 0);
        assert(unsigned_value(s@) is None);
        return None;
    }
    let mut k: usize = start;
    while k < s.len()
        invariant
            start <= k <= s@.len(),
            start < s@.len(),
            d == s@.subrange(start as int, s@.len() as int),
            d =~= (if s@.len() > 0 && s@[0] == '+' {
                s@.drop_first()
            } else {
                s@
            }),
            forall|j: int| start <= j < k ==> is_digit(s@[j]),
        decreases s@.len() - k,
    {
        if !('0' <= s[k] && s[k] <= '9') {
            assert(d[k - start] == s@[k as int]);
            assert(!is_digit(d[k - start]));
            assert(!all_digits(d));
            return None;
        }
        k = k + 1;
    }
    assert(all_digits(d)) by {
        assert forall|j: int| 0 <= j < d.len() implies is_digit(#[trigger] d[j]) by {
            assert(d[j] == s@[start + j]);
        }
    }
    let mut v: usize = 0;
    let mut k: usize = start;
    assert(d.subrange(0, 0) =~= Seq::<char>::empty());
    while k < s.len()
        invariant
            start <= k <= s@.len(),
            start < s@.len(),
            d == s@.subrange(start as int, s@.len() as int),
            d =~= (if s@.len() > 0 && s@[0] == '+' {
                s@.drop_first()
            } else {
                s@
            }),
            all_digits(d),
            v == digits_value(d.subrange(0, k - start)),
        decreases s@.len() - k,
    {
        let ghost pre = d.subrange(0, k + 1 - start);
        assert(pre.drop_last() =~= d.subrange(0, k - start));
        assert(pre.last() == s@[k as int]);
        assert(is_digit(d[k - start]));
        let dg = (s[k] as u32 - '0' as u32) as usize;
        assert(digits_value(pre) == v * 10 + dg);
        match v.checked_mul(10) {
            Some(m) => match m.checked_add(dg) {
                Some(n) => {
                    v = n;
                },
                None => {
                    proof {
                        lemma_digits_prefix_le(d, k + 1 - start);
                    }
                    assert(unsigned_value(s@) == Some(digits_value(d)));
                    return None;
                },
            },
            None => {
                proof {
                    lemma_digits_prefix_le(d, k + 1 - start);
                }
                assert(v * 10 + dg >= v * 10);
                assert(unsigned_value(s@) == Some(digits_value(d)));
                return None;
            },
        }
        k = k + 1;
    }
    assert(d.subrange(0, k - start) =~= d);
    assert(unsigned_value(s@) == Some(digits_value(d)));
    Some(v)
}

/// The pieces of `s` between the non-overlapping occurrences of `sep`,
/// taken from left to right.
pub fn split_chars(s: &[char], sep: &[char]) -> (r: Vec<Vec<char>>)
    requires
        sep@.len() > 0,
    ensures
        r@.map_values(|v: Vec<char>| v@) == split_on(s@, sep@),
{
    let mut r: Vec<Vec<char>> = Vec::new();
    let mut start: usize = 0;
    let mut i: usize = 0;
    while i < s.len() && sep.len() <= s.len() - i
        invariant
            start <= i <= s@.len(),
            sep@.len() > 0,
            r@.map_values(|v: Vec<char>| v@) + split_from(s@, sep@, start as int, i as int)
                == split_on(s@, sep@),
        decreases s@.len() - i,
    {
        if matches_at(s, sep, i) {
            let piece = copy_range(s, start, i);
            let ghost before = r@.map_values(|v: Vec<char>| v@);
            r.push(piece);
            assert(r@.map_values(|v: Vec<char>| v@) =~= before.push(piece@));
            i = i + sep.len();
            start = i;
            assert(before + (seq![piece@] + split_from(s@, sep@, start as int, i as int))
                =~= r@.map_values(|v: Vec<char>| v@) + split_from(s@, sep@, start as int, i as int));
        } else {
            i = i + 1;
        }
    }
    let piece = copy_range(s, start, s.len());
    let ghost before = r@.map_values(|v: Vec<char>| v@);
    r.push(piece);
    assert(r@.map_values(|v: Vec<char>| v@) =~= before + seq![piece@]);
    r
}

/// Whether `p` occurs somewhere in `s`.
pub fn contains_chars(s: &[char], p: &[char]) -> (r: bool)
    ensures
        r == contains_seq(s@, p@),
{
    match find_from(s, p, 0) {
        Some(i) => {
            proof {
                lemma_first_from_occurs(s@, p@, 0);
            }
            true
        },
        None => {
            assert forall|j: int| !occurs_at(s@, p@, j) by {
                if j >= 0 {
                    lemma_first_from_none(s@, p@, 0, j);
                }
            }
            false
        },
    }
}

} // verus!
