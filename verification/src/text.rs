//! Text helpers shared by the demos: decimal rendering and concatenation.
use vstd::prelude::*;
use crate::textmap::TextKey;
use vstd::string::*;

verus! {

/// The character of a decimal digit.
pub open spec fn digit_char(d: nat) -> char {
    if d == 0 { '0' } else if d == 1 { '1' } else if d == 2 { '2' } else if d == 3 { '3' }
    else if d == 4 { '4' } else if d == 5 { '5' } else if d == 6 { '6' } else if d == 7 { '7' }
    else if d == 8 { '8' } else { '9' }
}

/// The decimal rendering of a natural number, without leading zeros.
pub open spec fn decimal(n: nat) -> Seq<char>
    decreases n,
{
    if n < 10 {
        seq![digit_char(n)]
    } else {
        decimal(n / 10).push(digit_char(n % 10))
    }
}

fn digit_text(d: u64) -> (s: &'static str)
    requires
        d < 10,
    ensures
        s@ == seq![digit_char(d as nat)],
{
    proof {
        reveal_strlit("0");
        reveal_strlit("1");
        reveal_strlit("2");
        reveal_strlit("3");
        reveal_strlit("4");
        reveal_strlit("5");
        reveal_strlit("6");
        reveal_strlit("7");
        reveal_strlit("8");
        reveal_strlit("9");
    }
    if d == 0 { "0" } else if d == 1 { "1" } else if d == 2 { "2" } else if d == 3 { "3" }
    else if d == 4 { "4" } else if d == 5 { "5" } else if d == 6 { "6" } else if d == 7 { "7" }
    else if d == 8 { "8" } else { "9" }
}

/// Renders `n` in decimal.
pub fn decimal_text(n: u64) -> (s: String)
    ensures
        s@ == decimal(n as nat),
    decreases n,
{
    if n < 10 {
        String::from_str(digit_text(n))
    } else {
        let prefix = decimal_text(n / 10);
        prefix.concat(digit_text(n % 10))
    }
}


/// The length of the longest common prefix of `a` and `b`.
pub open spec fn prefix_len(a: Seq<char>, b: Seq<char>) -> nat
    decreases a.len(),
{
    if a.len() == 0 || b.len() == 0 || a[0] != b[0] {
        0
    } else {
        1 + prefix_len(a.drop_first(), b.drop_first())
    }
}

/// Strict order on texts: code point by code point, a proper prefix first.
/// On valid UTF-8 this is the byte order that `str`'s `Ord` uses.
pub open spec fn text_lt(a: Seq<char>, b: Seq<char>) -> bool {
    let p = prefix_len(a, b) as int;
    if p == a.len() {
        p < b.len()
    } else {
        p < b.len() && (a[p] as int) < (b[p] as int)
    }
}

/// The common prefix is exactly characterised by where the texts first differ.
pub proof fn lemma_prefix_len(a: Seq<char>, b: Seq<char>)
    ensures
        prefix_len(a, b) <= a.len(),
        prefix_len(a, b) <= b.len(),
        forall|j: int| 0 <= j < prefix_len(a, b) ==> a[j] == b[j],
        prefix_len(a, b) == a.len() || prefix_len(a, b) == b.len()
            || a[prefix_len(a, b) as int] != b[prefix_len(a, b) as int],
    decreases a.len(),
{
    if a.len() == 0 || b.len() == 0 || a[0] != b[0] {
    } else {
        lemma_prefix_len(a.drop_first(), b.drop_first());
        assert forall|j: int| 0 <= j < prefix_len(a, b) implies a[j] == b[j] by {
            if j > 0 {
                assert(a.drop_first()[j - 1] == b.drop_first()[j - 1]);
            }
        }
    }
}

/// Any index with the characterising property is the common prefix length.
pub proof fn lemma_prefix_len_unique(a: Seq<char>, b: Seq<char>, p: int)
    requires
        0 <= p <= a.len(),
        p <= b.len(),
        forall|j: int| 0 <= j < p ==> a[j] == b[j],
        p == a.len() || p == b.len() || a[p] != b[p],
    ensures
        prefix_len(a, b) == p,
    decreases a.len(),
{
    if a.len() == 0 || b.len() == 0 || a[0] != b[0] {
        if p > 0 {
            assert(a[0] == b[0]);
        }
    } else {
        if p == 0 {
            assert(a[0] == b[0]);
        } else {
            lemma_prefix_len_unique(a.drop_first(), b.drop_first(), p - 1);
        }
    }
}

/// `text_lt` is irreflexive and total on distinct texts, and never holds both ways.
pub proof fn lemma_text_lt_trichotomy(a: Seq<char>, b: Seq<char>)
    ensures
        !text_lt(a, a),
        a != b ==> (text_lt(a, b) || text_lt(b, a)),
        !(text_lt(a, b) && text_lt(b, a)),
{
    lemma_prefix_len(a, b);
    lemma_prefix_len(b, a);
    lemma_prefix_len(a, a);
    let p = prefix_len(a, b) as int;
    lemma_prefix_len_unique(b, a, p);
    lemma_prefix_len_unique(a, a, a.len() as int);
    if a != b {
        if p == a.len() && p == b.len() {
            assert(a =~= b);
        } else if p < a.len() && p < b.len() {
            assert((a[p] as int) != (b[p] as int));
        }
    }
}

/// `text_lt` is transitive.
pub proof fn lemma_text_lt_transitive(a: Seq<char>, b: Seq<char>, c: Seq<char>)
    requires
        text_lt(a, b),
        text_lt(b, c),
    ensures
        text_lt(a, c),
{
    lemma_prefix_len(a, b);
    lemma_prefix_len(b, c);
    let p = prefix_len(a, b) as int;
    let q = prefix_len(b, c) as int;
    if p < q {
        lemma_prefix_len_unique(a, c, p);
    } else if q < p {
        lemma_prefix_len_unique(a, c, q);
    } else {
        lemma_prefix_len_unique(a, c, p);
    }
}

/// The result of comparing two texts.
#[derive(Clone, Copy, Debug, PartialEq, Eq, Structural)]
pub enum TextOrder {
    Less,
    Equal,
    Greater,
}

/// Compares two texts in `text_lt` order.
pub fn compare_text(a: &str, b: &str) -> (r: TextOrder)
    ensures
        (r == TextOrder::Less) <==> text_lt(a@, b@),
        (r == TextOrder::Equal) <==> a@ == b@,
        (r == TextOrder::Greater) <==> text_lt(b@, a@),
{
    let la = a.unicode_len();
    let lb = b.unicode_len();
    let mut i: usize = 0;
    while i < la && i < lb && a.get_char(i) == b.get_char(i)
        invariant
            la == a@.len(),
            lb == b@.len(),
            i <= la,
            i <= lb,
            forall|j: int| 0 <= j < i ==> a@[j] == b@[j],
        decreases la - i,
    {
        i = i + 1;
    }
    proof {
        lemma_prefix_len_unique(a@, b@, i as int);
        lemma_prefix_len_unique(b@, a@, i as int);
        lemma_text_lt_trichotomy(a@, b@);
    }
    if i == la && i == lb {
        assert(a@ =~= b@);
        TextOrder::Equal
    } else if i == la {
        TextOrder::Less
    } else if i == lb {
        TextOrder::Greater
    } else if (a.get_char(i) as u32) < (b.get_char(i) as u32) {
        TextOrder::Less
    } else {
        TextOrder::Greater
    }
}

/// Whether two texts are equal.
pub fn same_text(a: &str, b: &str) -> (r: bool)
    ensures
        r == (a@ == b@),
{
    compare_text(a, b) == TextOrder::Equal
}


/// Whether a character has Unicode's White_Space property: U+0009 to U+000D, U+0020,
/// U+0085, U+00A0, U+1680, U+2000 to U+200A, U+2028, U+2029, U+202F, U+205F and U+3000.
pub open spec fn white_space(c: char) -> bool {
    let n = c as u32;
    ||| 0x9 <= n <= 0xd
    ||| n == 0x20
    ||| n == 0x85
    ||| n == 0xa0
    ||| n == 0x1680
    ||| 0x2000 <= n <= 0x200a
    ||| n == 0x2028
    ||| n == 0x2029
    ||| n == 0x202f
    ||| n == 0x205f
    ||| n == 0x3000
}

/// Whether a character is white space, as `char::is_whitespace` decides it: Unicode's
/// White_Space property, a fixed list of code points.
fn is_white_space(c: char) -> (r: bool)
    ensures
        r == white_space(c),
{
    let n = c as u32;
    (0x9 <= n && n <= 0xd) || n == 0x20 || n == 0x85 || n == 0xa0 || n == 0x1680 || (0x2000 <= n
        && n <= 0x200a) || n == 0x2028 || n == 0x2029 || n == 0x202f || n == 0x205f || n == 0x3000
}

/// Every character of the text is white space (so trimming leaves nothing).
pub open spec fn blank(s: Seq<char>) -> bool {
    forall|i: int| 0 <= i < s.len() ==> white_space(#[trigger] s[i])
}

/// Whether the text is empty once white space is trimmed from both ends.
pub fn is_blank(s: &str) -> (r: bool)
    ensures
        r == blank(s@),
{
    let n = s.unicode_len();
    let mut i: usize = 0;
    while i < n
        invariant
            n == s@.len(),
            i <= n,
            forall|j: int| 0 <= j < i ==> white_space(#[trigger] s@[j]),
        decreases n - i,
    {
        if !is_white_space(s.get_char(i)) {
            return false;
        }
        i = i + 1;
    }
    true
}


/// The texts of `parts` with `sep` between neighbours.
pub open spec fn joined(parts: Seq<Seq<char>>, sep: Seq<char>) -> Seq<char>
    decreases parts.len(),
{
    if parts.len() == 0 {
        Seq::empty()
    } else if parts.len() == 1 {
        parts[0]
    } else {
        joined(parts.drop_last(), sep) + sep + parts.last()
    }
}

/// Joins the texts of `parts` with `sep` between neighbours.
pub fn join_texts<K: TextKey>(parts: &[K], sep: &str) -> (r: String)
    ensures
        r@ == joined(parts@.map_values(|k: K| k.key_view()), sep@),
{
    let ghost views = parts@.map_values(|k: K| k.key_view());
    let mut out = String::new();
    let mut i: usize = 0;
    while i < parts.len()
        invariant
            i <= parts@.len(),
            views == parts@.map_values(|k: K| k.key_view()),
            out@ == joined(views.take(i as int), sep@),
        decreases parts@.len() - i,
    {
        if i > 0 {
            out.append(sep);
        }
        out.append(parts[i].key_text());
        proof {
            let next = views.take(i + 1);
            assert(next.drop_last() =~= views.take(i as int));
            if i == 0 {
                assert(views.take(0) =~= Seq::<Seq<char>>::empty());
                assert(out@ =~= next[0]);
            }
        }
        i = i + 1;
    }
    assert(views.take(parts@.len() as int) =~= views);
    out
}


/// Whether `s` begins with `prefix`.
pub fn starts_with(s: &str, prefix: &str) -> (r: bool)
    ensures
        r == prefix@.is_prefix_of(s@),
{
    let n = s.unicode_len();
    let m = prefix.unicode_len();
    if m > n {
        return false;
    }
    let mut i: usize = 0;
    while i < m
        invariant
            n == s@.len(),
            m == prefix@.len(),
            m <= n,
            i <= m,
            forall|j: int| 0 <= j < i ==> prefix@[j] == s@[j],
        decreases m - i,
    {
        if s.get_char(i) != prefix.get_char(i) {
            return false;
        }
        i = i + 1;
    }
    true
}

/// Whether `needle` occurs in `s` at position `at`.
pub open spec fn occurs_at(s: Seq<char>, needle: Seq<char>, at: int) -> bool {
    0 <= at && at + needle.len() <= s.len() && s.subrange(at, at + needle.len()) == needle
}

/// Whether `needle` occurs anywhere in `s`.
pub open spec fn occurs_in(s: Seq<char>, needle: Seq<char>) -> bool {
    exists|at: int| #[trigger] occurs_at(s, needle, at)
}

/// Whether `needle` occurs in `s`.
pub fn contains_text(s: &str, needle: &str) -> (r: bool)
    ensures
        r == occurs_in(s@, needle@),
{
    let n = s.unicode_len();
    let m = needle.unicode_len();
    if m > n {
        assert forall|at: int| !occurs_at(s@, needle@, at) by {}
        return false;
    }
    let mut at: usize = 0;
    while at <= n - m
        invariant
            n == s@.len(),
            m == needle@.len(),
            m <= n,
            at <= n - m + 1,
            forall|a: int| 0 <= a < at ==> !#[trigger] occurs_at(s@, needle@, a),
        decreases n - m + 1 - at,
    {
        let mut i: usize = 0;
        let mut same = true;
        while i < m
            invariant
                n == s@.len(),
                m == needle@.len(),
                m <= n,
                at <= n - m,
                i <= m,
                same == forall|j: int| 0 <= j < i ==> needle@[j] == s@[at + j],
            decreases m - i,
        {
            if s.get_char(at + i) != needle.get_char(i) {
                same = false;
            }
            i = i + 1;
        }
        if same {
            assert(s@.subrange(at as int, at + m) =~= needle@);
            assert(occurs_at(s@, needle@, at as int));
            return true;
        }
        assert(!occurs_at(s@, needle@, at as int)) by {
            if occurs_at(s@, needle@, at as int) {
                let j = choose|j: int| 0 <= j < m && needle@[j] != s@[at + j];
                assert(s@.subrange(at as int, at + m)[j] == s@[at + j]);
            }
        }
        at = at + 1;
    }
    assert forall|a: int| !#[trigger] occurs_at(s@, needle@, a) by {
        if a >= at {
            assert(!(a + m <= n));
        }
    }
    false
}

} // verus!
