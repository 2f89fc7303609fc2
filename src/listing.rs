//! The file manifest: the media files of one directory, sorted by name.
use vstd::prelude::*;
use vstd::multiset::Multiset;
use vstd::seq_lib::{to_multiset_contains, to_multiset_insert, to_multiset_len, to_multiset_remove};
use crate::media::{classify, kind_name, media_kind, MediaKind};
use crate::text::{chars_le, chars_le_exec, chars_of, concat_chars, lemma_chars_le_antisym, lemma_chars_le_total, lemma_chars_le_trans, string_from_chars};

verus! {

/// One entry of a directory as read from disk.
pub struct EntryInfo {
    pub name: String,
    pub is_file: bool,
}

/// One media file of the manifest.
pub struct FileInfo {
    pub name: String,
    /// Where the file is served: the mount prefix followed by the name.
    pub path: String,
    /// Always false: directories are not listed.
    pub is_dir: bool,
    /// `image` or `video`.
    pub mime_type: String,
}

/// The path prefix under which the directory's files are served.
pub open spec fn mount_prefix() -> Seq<char> {
    seq!['/', 'c', 'o', 'n', 't', 'e', 'n', 't', '/']
}

/// The names of the entries that are files with a media kind, in their order.
pub open spec fn media_names(entries: Seq<EntryInfo>) -> Seq<Seq<char>>
    decreases entries.len(),
{
    if entries.len() == 0 {
        Seq::empty()
    } else {
        let rest = media_names(entries.drop_last());
        let e = entries.last();
        if e.is_file && media_kind(e.name@) is Some {
            rest.push(e.name@)
        } else {
            rest
        }
    }
}

/// Some entry of `es` is a file called `name`.
pub open spec fn names_a_file(es: Seq<EntryInfo>, name: Seq<char>) -> bool {
    exists|j: int| 0 <= j < es.len() && (#[trigger] es[j]).is_file && es[j].name@ == name
}

/// `f` is the manifest record of a media file called `f.name`.
pub open spec fn describes(f: FileInfo) -> bool {
    &&& media_kind(f.name@) is Some
    &&& f.path@ == mount_prefix() + f.name@
    &&& !f.is_dir
    &&& f.mime_type@ == kind_name(media_kind(f.name@).unwrap())
}

/// The names of the records, in order.
pub open spec fn names_of(files: Seq<FileInfo>) -> Seq<Seq<char>> {
    files.map_values(|f: FileInfo| f.name@)
}

/// The records are in order of name.
pub open spec fn sorted_by_name(files: Seq<FileInfo>) -> bool {
    forall|i: int, j: int| 0 <= i < j < files.len() ==> chars_le(#[trigger] files[i].name@, #[trigger] files[j].name@)
}

/// The names are in order.
pub open spec fn names_sorted(s: Seq<Seq<char>>) -> bool {
    forall|i: int, j: int| 0 <= i < j < s.len() ==> chars_le(#[trigger] s[i], #[trigger] s[j])
}

proof fn lemma_sorted_unique(a: Seq<Seq<char>>, b: Seq<Seq<char>>)
    requires
        names_sorted(a),
        names_sorted(b),
        a.to_multiset() == b.to_multiset(),
    ensures
        a == b,
    decreases a.len(),
{
    to_multiset_len(a);
    to_multiset_len(b);
    if a.len() == 0 {
        assert(a =~= b);
    } else {
        to_multiset_contains(a, a[0]);
        to_multiset_contains(b, a[0]);
        to_multiset_contains(a, b[0]);
        to_multiset_contains(b, b[0]);
        assert(a.contains(a[0]) && b.contains(b[0]));
        let j = choose|j: int| 0 <= j < b.len() && b[j] == a[0];
        let k = choose|k: int| 0 <= k < a.len() && a[k] == b[0];
        lemma_chars_le_total(a[0], a[0]);
        lemma_chars_le_total(b[0], b[0]);
        assert(chars_le(b[0], a[0])) by {
            if j > 0 {
                assert(chars_le(b[0], b[j]));
            }
        }
        assert(chars_le(a[0], b[0])) by {
            if k > 0 {
                assert(chars_le(a[0], a[k]));
            }
        }
        lemma_chars_le_antisym(a[0], b[0]);
        to_multiset_remove(a, 0);
        to_multiset_remove(b, 0);
        assert(a.remove(0) =~= a.drop_first());
        assert(b.remove(0) =~= b.drop_first());
        let (ta, tb) = (a.drop_first(), b.drop_first());
        assert forall|i: int, j: int| 0 <= i < j < ta.len() implies chars_le(#[trigger] ta[i], #[trigger] ta[j]) by {
            assert(ta[i] == a[i + 1] && ta[j] == a[j + 1]);
        }
        assert forall|i: int, j: int| 0 <= i < j < tb.len() implies chars_le(#[trigger] tb[i], #[trigger] tb[j]) by {
            assert(tb[i] == b[i + 1] && tb[j] == b[j + 1]);
        }
        lemma_sorted_unique(ta, tb);
        assert(a =~= seq![a[0]] + ta);
        assert(b =~= seq![b[0]] + tb);
    }
}

/// Two manifests of the same media names list them in the same order, so
/// the order in which a directory yields its entries does not show: sorted
/// records whose names agree as a multiset agree name by name.
pub proof fn lemma_manifest_order_unique(a: Seq<FileInfo>, b: Seq<FileInfo>)
    requires
        sorted_by_name(a),
        sorted_by_name(b),
        names_of(a).to_multiset() == names_of(b).to_multiset(),
    ensures
        names_of(a) == names_of(b),
{
    assert(names_sorted(names_of(a))) by {
        assert forall|i: int, j: int| 0 <= i < j < names_of(a).len() implies chars_le(#[trigger] names_of(a)[i], #[trigger] names_of(a)[j]) by {
            assert(chars_le(a[i].name@, a[j].name@));
        }
    }
    assert(names_sorted(names_of(b))) by {
        assert forall|i: int, j: int| 0 <= i < j < names_of(b).len() implies chars_le(#[trigger] names_of(b)[i], #[trigger] names_of(b)[j]) by {
            assert(chars_le(b[i].name@, b[j].name@));
        }
    }
    lemma_sorted_unique(names_of(a), names_of(b));
}

/// `r` is a manifest of the entries `es`: the records of the media files
/// among them, each from a file entry, in order of name.
pub open spec fn is_manifest_of(es: Seq<EntryInfo>, r: Seq<FileInfo>) -> bool {
    &&& names_of(r).to_multiset() == media_names(es).to_multiset()
    &&& forall|k: int| 0 <= k < r.len() ==> names_a_file(es, (#[trigger] r[k]).name@)
    &&& forall|k: int| 0 <= k < r.len() ==> describes(#[trigger] r[k])
    &&& sorted_by_name(r)
}

/// The name of `e` once, when it is a media file; nothing otherwise.
pub open spec fn media_of(e: EntryInfo) -> Multiset<Seq<char>> {
    if e.is_file && media_kind(e.name@) is Some {
        Multiset::singleton(e.name@)
    } else {
        Multiset::empty()
    }
}

proof fn lemma_media_names_last(es: Seq<EntryInfo>)
    requires
        es.len() > 0,
    ensures
        media_names(es).to_multiset() == media_names(es.drop_last()).to_multiset().add(media_of(es.last())),
{
    broadcast use vstd::multiset::group_multiset_axioms;
    let rest = media_names(es.drop_last());
    let e = es.last();
    if e.is_file && media_kind(e.name@) is Some {
        to_multiset_insert(rest, rest.len() as int, e.name@);
        assert(rest.insert(rest.len() as int, e.name@) =~= rest.push(e.name@));
        assert(rest.to_multiset().insert(e.name@) =~= rest.to_multiset().add(Multiset::singleton(e.name@)));
    } else {
        assert(rest.to_multiset() =~= rest.to_multiset().add(Multiset::empty()));
    }
}

proof fn lemma_media_names_remove(es: Seq<EntryInfo>, j: int)
    requires
        0 <= j < es.len(),
    ensures
        media_names(es).to_multiset() == media_names(es.remove(j)).to_multiset().add(media_of(es[j])),
    decreases es.len(),
{
    broadcast use vstd::multiset::group_multiset_axioms;
    lemma_media_names_last(es);
    if j == es.len() - 1 {
        assert(es.remove(j) =~= es.drop_last());
    } else {
        let t = es.remove(j);
        let d = es.drop_last();
        assert(t.drop_last() =~= d.remove(j));
        assert(t.last() == es.last());
        assert(d[j] == es[j]);
        lemma_media_names_remove(d, j);
        lemma_media_names_last(t);
        let a = media_names(d.remove(j)).to_multiset();
        assert(a.add(media_of(es[j])).add(media_of(es.last())) =~= a.add(media_of(es.last())).add(media_of(es[j])));
    }
}

proof fn lemma_media_names_permuted(es1: Seq<EntryInfo>, es2: Seq<EntryInfo>)
    requires
        es1.to_multiset() == es2.to_multiset(),
    ensures
        media_names(es1).to_multiset() == media_names(es2).to_multiset(),
    decreases es1.len(),
{
    to_multiset_len(es1);
    to_multiset_len(es2);
    if es1.len() == 0 {
        assert(es1 =~= es2);
    } else {
        let x = es1.last();
        to_multiset_contains(es1, x);
        to_multiset_contains(es2, x);
        assert(es1.contains(x)) by {
            assert(es1[es1.len() - 1] == x);
        }
        let j = choose|j: int| 0 <= j < es2.len() && es2[j] == x;
        to_multiset_remove(es1, es1.len() - 1);
        to_multiset_remove(es2, j);
        assert(es1.remove(es1.len() - 1) =~= es1.drop_last());
        lemma_media_names_permuted(es1.drop_last(), es2.remove(j));
        lemma_media_names_last(es1);
        lemma_media_names_remove(es2, j);
    }
}

/// The manifest does not depend on the order in which the directory yields
/// its entries: manifests of two orderings of the same entries agree record
/// by record.
pub proof fn lemma_manifest_ignores_entry_order(
    es1: Seq<EntryInfo>,
    es2: Seq<EntryInfo>,
    r1: Seq<FileInfo>,
    r2: Seq<FileInfo>,
)
    requires
        es1.to_multiset() == es2.to_multiset(),
        is_manifest_of(es1, r1),
        is_manifest_of(es2, r2),
    ensures
        r1.len() == r2.len(),
        forall|k: int| 0 <= k < r1.len() ==> {
            &&& (#[trigger] r1[k]).name@ == r2[k].name@
            &&& r1[k].path@ == r2[k].path@
            &&& r1[k].is_dir == r2[k].is_dir
            &&& r1[k].mime_type@ == r2[k].mime_type@
        },
{
    lemma_media_names_permuted(es1, es2);
    lemma_manifest_order_unique(r1, r2);
    assert(names_of(r1).len() == r1.len() && names_of(r2).len() == r2.len());
    assert forall|k: int| 0 <= k < r1.len() implies {
        &&& (#[trigger] r1[k]).name@ == r2[k].name@
        &&& r1[k].path@ == r2[k].path@
        &&& r1[k].is_dir == r2[k].is_dir
        &&& r1[k].mime_type@ == r2[k].mime_type@
    } by {
        assert(names_of(r1)[k] == r1[k].name@ && names_of(r2)[k] == r2[k].name@);
        assert(describes(r1[k]) && describes(r2[k]));
    }
}

/// No directory is listed: where a directory's names are distinct, every
/// listed name is the name of a file entry and of no other entry.
pub proof fn lemma_no_directory_listed(es: Seq<EntryInfo>, r: Seq<FileInfo>)
    requires
        forall|i: int, j: int| 0 <= i < j < es.len() ==> (#[trigger] es[i]).name@ != (#[trigger] es[j]).name@,
        is_manifest_of(es, r),
    ensures
        forall|k: int, j: int| 0 <= k < r.len() && 0 <= j < es.len() && (#[trigger] es[j]).name@ == (#[trigger] r[k]).name@
            ==> es[j].is_file && !r[k].is_dir,
{
    assert forall|k: int, j: int| 0 <= k < r.len() && 0 <= j < es.len() && (#[trigger] es[j]).name@ == (#[trigger] r[k]).name@
        implies es[j].is_file && !r[k].is_dir by {
        assert(names_a_file(es, r[k].name@));
        assert(describes(r[k]));
        let i = choose|i: int| 0 <= i < es.len() && (#[trigger] es[i]).is_file && es[i].name@ == r[k].name@;
        if i < j {
            assert(es[i].name@ != es[j].name@);
        } else if j < i {
            assert(es[j].name@ != es[i].name@);
        }
    }
}

fn kind_word(k: MediaKind) -> (r: String)
    ensures
        r@ == kind_name(k),
{
    let w = match k {
        MediaKind::Image => vec!['i', 'm', 'a', 'g', 'e'],
        MediaKind::Video => vec!['v', 'i', 'd', 'e', 'o'],
    };
    assert(w@ =~= kind_name(k));
    string_from_chars(&w)
}

/// The manifest record of a file called `name`, when it has a media kind.
pub fn describe(name: &str) -> (r: Option<FileInfo>)
    ensures
        r is Some <==> media_kind(name@) is Some,
        r matches Some(f) ==> f.name@ == name@ && describes(f),
{
    match classify(name) {
        None => None,
        Some(k) => {
            let cs = chars_of(name);
            let prefix = vec!['/', 'c', 'o', 'n', 't', 'e', 'n', 't', '/'];
            assert(prefix@ =~= mount_prefix());
            let path = string_from_chars(&concat_chars(&prefix, &cs));
            Some(FileInfo { name: string_from_chars(&cs), path, is_dir: false, mime_type: kind_word(k) })
        },
    }
}

/// The manifest of a directory: one record for each entry that is a file
/// with a media kind, sorted by name. An unreadable directory (`None`) gives
/// an empty manifest.
pub fn list_media(entries: Option<Vec<EntryInfo>>) -> (r: Vec<FileInfo>)
    ensures
        entries is None ==> r@.len() == 0,
        entries matches Some(es) ==> is_manifest_of(es@, r@),
        forall|k: int| 0 <= k < r@.len() ==> describes(#[trigger] r@[k]),
        sorted_by_name(r@),
{
    let es = match entries {
        None => { return Vec::new(); },
        Some(es) => es,
    };
    let mut out: Vec<FileInfo> = Vec::new();
    let mut keys: Vec<Vec<char>> = Vec::new();
    let mut i: usize = 0;
    proof {
        assert(names_of(out@) =~= Seq::empty());
        assert(es@.subrange(0, 0) =~= Seq::<EntryInfo>::empty());
        Seq::<Seq<char>>::empty().to_multiset_ensures();
    }
    while i < es.len()
        invariant
            0 <= i <= es.len(),
            keys.len() == out.len(),
            forall|k: int| 0 <= k < out.len() ==> (#[trigger] keys@[k])@ == out@[k].name@,
            names_of(out@).to_multiset() == media_names(es@.subrange(0, i as int)).to_multiset(),
            forall|k: int| 0 <= k < out@.len() ==> names_a_file(es@, (#[trigger] out@[k]).name@),
            forall|k: int| 0 <= k < out@.len() ==> describes(#[trigger] out@[k]),
            sorted_by_name(out@),
        decreases es.len() - i,
    {
        let ghost prev = es@.subrange(0, i as int);
        let ghost next = es@.subrange(0, i + 1);
        assert(next.drop_last() =~= prev);
        let e = &es[i];
        if e.is_file {
            if let Some(f) = describe(e.name.as_str()) {
                let key = chars_of(e.name.as_str());
                // The first place whose name sorts after `key`.
                let mut pos: usize = 0;
                while pos < keys.len() && chars_le_exec(&keys[pos], &key)
                    invariant
                        0 <= pos <= keys.len(),
                        keys.len() == out.len(),
                        forall|k: int| 0 <= k < out.len() ==> (#[trigger] keys@[k])@ == out@[k].name@,
                        forall|k: int| 0 <= k < pos ==> chars_le(#[trigger] out@[k].name@, key@),
                    decreases keys.len() - pos,
                {
                    pos = pos + 1;
                }
                proof {
                    if pos < out.len() {
                        lemma_chars_le_total(out@[pos as int].name@, key@);
                        assert forall|k: int| pos <= k < out.len() implies chars_le(key@, #[trigger] out@[k].name@) by {
                            if k > pos {
                                lemma_chars_le_trans(key@, out@[pos as int].name@, out@[k].name@);
                            }
                        }
                    }
                }
                let ghost old_out = out@;
                out.insert(pos, f);
                keys.insert(pos, key);
                proof {
                    assert(names_of(out@) =~= names_of(old_out).insert(pos as int, e.name@));
                    to_multiset_insert(names_of(old_out), pos as int, e.name@);
                    to_multiset_insert(media_names(prev), media_names(prev).len() as int, e.name@);
                    assert(media_names(prev).insert(media_names(prev).len() as int, e.name@) =~= media_names(prev).push(e.name@));
                    assert(es@[i as int].is_file && es@[i as int].name@ == e.name@);
                    assert forall|k: int| 0 <= k < out@.len() implies names_a_file(es@, (#[trigger] out@[k]).name@) by {
                        if k == pos {
                        } else if k < pos {
                            assert(out@[k] == old_out[k]);
                        } else {
                            assert(out@[k] == old_out[k - 1]);
                        }
                    }
                    assert forall|a: int, b: int| 0 <= a < b < out@.len() implies chars_le(#[trigger] out@[a].name@, #[trigger] out@[b].name@) by {
                        if b < pos {
                        } else if a < pos && b == pos {
                        } else if a < pos {
                            lemma_chars_le_trans(out@[a].name@, key@, out@[b].name@);
                        } else if a == pos {
                        } else {
                            assert(out@[a] == old_out[a - 1] && out@[b] == old_out[b - 1]);
                        }
                    }
                }
            }
        }
        i = i + 1;
    }
    assert(es@.subrange(0, es.len() as int) =~= es@);
    out
}

} // verus!
