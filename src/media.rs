//! Classification of file names into coarse media kinds by extension.
use vstd::prelude::*;
use crate::text::chars_of;

verus! {

/// The coarse kind of a media file.
#[derive(PartialEq, Eq, Structural, Clone, Copy, Debug)]
pub enum MediaKind {
    Image,
    Video,
}

/// The code of `c` after lowering its case, for every character whose lower
/// case is one ASCII character: the ASCII capitals, and KELVIN SIGN (U+212A),
/// whose lower case is `k`. Other characters keep their code; none of them
/// lowers to an ASCII letter alone, so this decides every comparison of an
/// extension with a lower-case ASCII word as full lowering would.
pub open spec fn folded(c: char) -> u32 {
    if 65 <= (c as u32) && (c as u32) <= 90 {
        ((c as u32) + 32) as u32
    } else if c as u32 == 0x212A {
        107
    } else {
        c as u32
    }
}

/// Two names that are equal once their case is lowered as `folded` does.
pub open spec fn same_ignoring_case(a: Seq<char>, b: Seq<char>) -> bool {
    a.len() == b.len() && forall|i: int| 0 <= i < a.len() ==> folded(#[trigger] a[i]) == folded(b[i])
}

/// Index of the last `.` in `s`, or -1 when there is none.
pub open spec fn last_dot(s: Seq<char>) -> int
    decreases s.len(),
{
    if s.len() == 0 {
        -1
    } else if s.last() == '.' {
        s.len() - 1
    } else {
        last_dot(s.drop_last())
    }
}

/// The extension of a file name: what follows its last dot. A name without a
/// dot, a name whose only dot leads it (`.profile`), and `..` have none.
pub open spec fn extension(name: Seq<char>) -> Option<Seq<char>> {
    let i = last_dot(name);
    if i <= 0 || name == seq!['.', '.'] {
        None
    } else {
        Some(name.subrange(i + 1, name.len() as int))
    }
}

/// `e` spells the lower-case word `w` once its case is lowered.
pub open spec fn spells(e: Seq<char>, w: Seq<char>) -> bool {
    e.len() == w.len() && forall|i: int| 0 <= i < e.len() ==> folded(#[trigger] e[i]) == w[i] as u32
}

/// The extensions of image files.
pub open spec fn image_extension(e: Seq<char>) -> bool {
    spells(e, seq!['j', 'p', 'g']) || spells(e, seq!['j', 'p', 'e', 'g']) || spells(e, seq!['p', 'n', 'g'])
        || spells(e, seq!['g', 'i', 'f']) || spells(e, seq!['w', 'e', 'b', 'p'])
}

/// The extensions of video files.
pub open spec fn video_extension(e: Seq<char>) -> bool {
    spells(e, seq!['m', 'p', '4']) || spells(e, seq!['w', 'e', 'b', 'm']) || spells(e, seq!['m', 'o', 'v'])
        || spells(e, seq!['m', 'k', 'v'])
}

/// The media kind of a file name, decided by its extension alone.
pub open spec fn media_kind(name: Seq<char>) -> Option<MediaKind> {
    match extension(name) {
        None => None,
        Some(e) => if image_extension(e) {
            Some(MediaKind::Image)
        } else if video_extension(e) {
            Some(MediaKind::Video)
        } else {
            None
        },
    }
}

/// The word that names a kind in the manifest.
pub open spec fn kind_name(k: MediaKind) -> Seq<char> {
    match k {
        MediaKind::Image => seq!['i', 'm', 'a', 'g', 'e'],
        MediaKind::Video => seq!['v', 'i', 'd', 'e', 'o'],
    }
}

proof fn lemma_last_dot_bounds(s: Seq<char>)
    ensures
        -1 <= last_dot(s) < s.len(),
        last_dot(s) >= 0 ==> s[last_dot(s)] == '.',
        forall|j: int| last_dot(s) < j < s.len() ==> s[j] != '.',
    decreases s.len(),
{
    if s.len() > 0 && s.last() != '.' {
        let t = s.drop_last();
        lemma_last_dot_bounds(t);
        assert forall|j: int| last_dot(s) < j < s.len() implies s[j] != '.' by {
            if j < t.len() {
                assert(s[j] == t[j]);
            }
        }
    }
}

proof fn lemma_folded_dot(c: char)
    ensures
        folded(c) == 46 <==> c == '.',
{
}

proof fn lemma_last_dot_ignores_case(a: Seq<char>, b: Seq<char>)
    requires
        same_ignoring_case(a, b),
    ensures
        last_dot(a) == last_dot(b),
    decreases a.len(),
{
    if a.len() > 0 {
        lemma_folded_dot(a.last());
        lemma_folded_dot(b.last());
        assert(folded(a[a.len() - 1]) == folded(b[b.len() - 1]));
        let (ta, tb) = (a.drop_last(), b.drop_last());
        assert forall|i: int| 0 <= i < ta.len() implies folded(#[trigger] ta[i]) == folded(tb[i]) by {
            assert(ta[i] == a[i] && tb[i] == b[i]);
        }
        lemma_last_dot_ignores_case(ta, tb);
    }
}

/// The media kind of a name does not depend on letter case: names that are
/// equal once lowered have the same kind.
pub proof fn lemma_kind_ignores_case(a: Seq<char>, b: Seq<char>)
    requires
        same_ignoring_case(a, b),
    ensures
        media_kind(a) == media_kind(b),
{
    lemma_last_dot_ignores_case(a, b);
    lemma_last_dot_bounds(a);
    let i = last_dot(a);
    if a == seq!['.', '.'] || b == seq!['.', '.'] {
        lemma_folded_dot(a[0]);
        lemma_folded_dot(a[1]);
        lemma_folded_dot(b[0]);
        lemma_folded_dot(b[1]);
        assert(a[0] == b[0] && a[1] == b[1]);
        assert(a =~= b);
    }
    if i > 0 {
        let ea = a.subrange(i + 1, a.len() as int);
        let eb = b.subrange(i + 1, b.len() as int);
        assert forall|j: int| 0 <= j < ea.len() implies folded(#[trigger] ea[j]) == folded(eb[j]) by {
            assert(ea[j] == a[i + 1 + j] && eb[j] == b[i + 1 + j]);
        }
        assert forall|w: Seq<char>| spells(ea, w) == spells(eb, w) by {
            if spells(ea, w) {
                assert forall|j: int| 0 <= j < eb.len() implies folded(#[trigger] eb[j]) == w[j] as u32 by {
                    assert(folded(ea[j]) == w[j] as u32);
                }
            }
            if spells(eb, w) {
                assert forall|j: int| 0 <= j < ea.len() implies folded(#[trigger] ea[j]) == w[j] as u32 by {
                    assert(folded(eb[j]) == w[j] as u32);
                }
            }
        }
    }
}

fn spells_at(cs: &Vec<char>, start: usize, w: &[char]) -> (r: bool)
    requires
        start <= cs.len(),
    ensures
        r == spells(cs@.subrange(start as int, cs.len() as int), w@),
{
    if cs.len() - start != w.len() {
        return false;
    }
    let mut i: usize = 0;
    while i < w.len()
        invariant
            start <= cs.len(),
            cs.len() - start == w.len(),
            0 <= i <= w.len(),
            forall|j: int| 0 <= j < i ==> folded(cs@[start + j]) == w@[j] as u32,
        decreases w.len() - i,
    {
        let c = cs[start + i];
        let code: u32 = c as u32;
        let f: u32 = if 65 <= code && code <= 90 {
            code + 32
        } else if code == 0x212A {
            107
        } else {
            code
        };
        if f != w[i] as u32 {
            assert(folded(cs@.subrange(start as int, cs.len() as int)[i as int]) != w@[i as int] as u32);
            return false;
        }
        i = i + 1;
    }
    let ghost e = cs@.subrange(start as int, cs.len() as int);
    assert forall|j: int| 0 <= j < e.len() implies folded(#[trigger] e[j]) == w@[j] as u32 by {
        assert(e[j] == cs@[start + j]);
    }
    true
}

/// Classifies a file name by its extension, ignoring letter case: `jpg`,
/// `jpeg`, `png`, `gif` and `webp` are images; `mp4`, `webm`,
/// `mov` and `mkv` are videos; anything else, or no extension, has no kind.
pub fn classify(name: &str) -> (r: Option<MediaKind>)
    ensures
        r == media_kind(name@),
{
    let cs = chars_of(name);
    let n = cs.len();
    let mut i: usize = n;
    while i > 0 && cs[i - 1] != '.'
        invariant
            cs@ == name@,
            n == cs.len(),
            0 <= i <= n,
            forall|j: int| i <= j < n ==> cs@[j] != '.',
        decreases i,
    {
        i = i - 1;
    }
    proof {
        lemma_last_dot_bounds(name@);
    }
    // `i` is one past the last dot, or 0 when there is none.
    assert(last_dot(name@) == i - 1);
    if i <= 1 || (n == 2 && cs[0] == '.' && cs[1] == '.') {
        assert(extension(name@) is None) by {
            if i > 1 {
                assert(name@ =~= seq!['.', '.']);
            }
        }
        return None;
    }
    assert(name@ != seq!['.', '.']) by {
        if name@ == seq!['.', '.'] {
            assert(cs@[0] == '.' && cs@[1] == '.');
        }
    }
    if spells_at(&cs, i, &['j', 'p', 'g']) || spells_at(&cs, i, &['j', 'p', 'e', 'g'])
        || spells_at(&cs, i, &['p', 'n', 'g']) || spells_at(&cs, i, &['g', 'i', 'f'])
        || spells_at(&cs, i, &['w', 'e', 'b', 'p']) {
        Some(MediaKind::Image)
    } else if spells_at(&cs, i, &['m', 'p', '4']) || spells_at(&cs, i, &['w', 'e', 'b', 'm'])
        || spells_at(&cs, i, &['m', 'o', 'v']) || spells_at(&cs, i, &['m', 'k', 'v']) {
        Some(MediaKind::Video)
    } else {
        None
    }
}

} // verus!
