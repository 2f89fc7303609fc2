//! Character-level helpers shared by the other modules.
use vstd::prelude::*;

verus! {

/// The characters of `s`, in order.
pub fn chars_of(s: &str) -> (r: Vec<char>)
    ensures
        r@ == s@,
{
    let mut r: Vec<char> = Vec::new();
    for c in it: s.chars()
        invariant
            it.seq() == s@,
            r@ == it.seq().subrange(0, it.index()),
    {
        r.push(c);
    }
    r
}

/// The characters of `a` followed by those of `b`.
pub fn concat_chars(a: &Vec<char>, b: &Vec<char>) -> (r: Vec<char>)
    ensures
        r@ == a@ + b@,
{
    let mut r: Vec<char> = a.clone();
    let mut i: usize = 0;
    while i < b.len()
        invariant
            0 <= i <= b.len(),
            r@ == a@ + b@.subrange(0, i as int),
        decreases b.len() - i,
    {
        r.push(b[i]);
        i = i + 1;
        assert(b@.subrange(0, i as int) =~= b@.subrange(0, i - 1).push(b@[i - 1]));
    }
    assert(b@.subrange(0, b.len() as int) =~= b@);
    r
}

/// Lexicographic order on character sequences by code point: a proper prefix
/// comes first. On strings this is the order of their UTF-8 bytes.
pub open spec fn chars_le(a: Seq<char>, b: Seq<char>) -> bool
    decreases a.len(),
{
    if a.len() == 0 {
        true
    } else if b.len() == 0 {
        false
    } else if (a[0] as u32) < (b[0] as u32) {
        true
    } else if a[0] as u32 == b[0] as u32 {
        chars_le(a.drop_first(), b.drop_first())
    } else {
        false
    }
}

/// Any two sequences are ordered one way or the other.
pub proof fn lemma_chars_le_total(a: Seq<char>, b: Seq<char>)
    ensures
        chars_le(a, b) || chars_le(b, a),
    decreases a.len(),
{
    if a.len() > 0 && b.len() > 0 && a[0] as u32 == b[0] as u32 {
        lemma_chars_le_total(a.drop_first(), b.drop_first());
    }
}

/// The order is transitive.
pub proof fn lemma_chars_le_trans(a: Seq<char>, b: Seq<char>, c: Seq<char>)
    requires
        chars_le(a, b),
        chars_le(b, c),
    ensures
        chars_le(a, c),
    decreases a.len(),
{
    if a.len() > 0 && b.len() > 0 && c.len() > 0 && a[0] as u32 == b[0] as u32 && b[0] as u32
        == c[0] as u32 {
        lemma_chars_le_trans(a.drop_first(), b.drop_first(), c.drop_first());
    }
}

/// The order is antisymmetric.
pub proof fn lemma_chars_le_antisym(a: Seq<char>, b: Seq<char>)
    requires
        chars_le(a, b),
        chars_le(b, a),
    ensures
        a == b,
    decreases a.len(),
{
    if a.len() > 0 {
        vstd::utf8::char_u32_cast(a[0], a[0] as u32);
        vstd::utf8::char_u32_cast(b[0], b[0] as u32);
        lemma_chars_le_antisym(a.drop_first(), b.drop_first());
        assert(a =~= seq![a[0]] + a.drop_first());
        assert(b =~= seq![b[0]] + b.drop_first());
    } else {
        assert(a =~= b);
    }
}

/// Decides `chars_le(a@, b@)`.
pub fn chars_le_exec(a: &Vec<char>, b: &Vec<char>) -> (r: bool)
    ensures
        r == chars_le(a@, b@),
{
    let mut i: usize = 0;
    assert(a@.subrange(0, a.len() as int) =~= a@ && b@.subrange(0, b.len() as int) =~= b@);
    while i < a.len() && i < b.len() && a[i] as u32 == b[i] as u32
        invariant
            0 <= i <= a.len(),
            i <= b.len(),
            chars_le(a@, b@) == chars_le(a@.subrange(i as int, a.len() as int), b@.subrange(i as int, b.len() as int)),
        decreases a.len() - i,
    {
        let ghost (sa, sb) = (a@.subrange(i as int, a.len() as int), b@.subrange(i as int, b.len() as int));
        assert(sa.drop_first() =~= a@.subrange(i + 1, a.len() as int));
        assert(sb.drop_first() =~= b@.subrange(i + 1, b.len() as int));
        i = i + 1;
    }
    let ghost (sa, sb) = (a@.subrange(i as int, a.len() as int), b@.subrange(i as int, b.len() as int));
    if i == a.len() {
        assert(sa.len() == 0);
        true
    } else if i == b.len() {
        assert(sb.len() == 0);
        false
    } else {
        assert(sa[0] == a@[i as int] && sb[0] == b@[i as int]);
        (a[i] as u32) < (b[i] as u32)
    }
}

/// Relies on `FromIterator<char> for String` (std): the string holds the
/// collected characters in order.
#[verifier::external_body]
pub(crate) fn string_from_chars(v: &Vec<char>) -> (r: String)
    ensures
        r@ == v@,
{
    v.iter().collect()
}

} // verus!
