//! The mirror planner: given the regular files found under the source root,
//! it selects the ones the denylist does not exclude, in traversal order.
//! A ghost map model of the destination tree ties the plan to what a mirror
//! pass leaves on disk: applying the planned copies writes every surviving
//! source file at its relative path and touches nothing else.

use vstd::prelude::*;
use vstd::string::*;
use crate::denylist::{denied, is_denied};

verus! {

/// One regular file found under the source root: its path relative to the
/// root, and its byte content.
pub struct FileEntry {
    pub path: String,
    pub content: Vec<u8>,
}

impl View for FileEntry {
    type V = (Seq<char>, Seq<u8>);

    open spec fn view(&self) -> (Seq<char>, Seq<u8>) {
        (self.path@, self.content@)
    }
}

impl DeepView for FileEntry {
    type V = (Seq<char>, Seq<u8>);

    open spec fn deep_view(&self) -> (Seq<char>, Seq<u8>) {
        self.view()
    }
}

/// No two entries share a relative path (a filesystem walk visits each file
/// once).
pub open spec fn distinct_paths(entries: Seq<(Seq<char>, Seq<u8>)>) -> bool {
    forall|j1: int, j2: int| 0 <= j1 < j2 < entries.len() ==> entries[j1].0 != entries[j2].0
}

/// The entries that survive the denylist, in their original order.
pub open spec fn keep_plan(entries: Seq<(Seq<char>, Seq<u8>)>, terms: Seq<Seq<char>>) -> Seq<
    (Seq<char>, Seq<u8>),
>
    decreases entries.len(),
{
    if entries.len() == 0 {
        Seq::empty()
    } else {
        let rest = keep_plan(entries.drop_last(), terms);
        if denied(entries.last().0, terms) {
            rest
        } else {
            rest.push(entries.last())
        }
    }
}

/// Some entry carries this path.
pub open spec fn has_path(entries: Seq<(Seq<char>, Seq<u8>)>, p: Seq<char>) -> bool {
    exists|j: int| 0 <= j < entries.len() && entries[j].0 == p
}

/// The destination tree as a map from relative path to byte content, after
/// the given copies were written over it in order.
pub open spec fn apply_entries(
    dest: Map<Seq<char>, Seq<u8>>,
    entries: Seq<(Seq<char>, Seq<u8>)>,
) -> Map<Seq<char>, Seq<u8>>
    decreases entries.len(),
{
    if entries.len() == 0 {
        dest
    } else {
        apply_entries(dest, entries.drop_last()).insert(entries.last().0, entries.last().1)
    }
}

/// What the plan keeps: only entries of the walk, none of them denied, every
/// non-denied one among them, each at most once when the walk's paths are
/// distinct.
pub proof fn lemma_keep_plan(entries: Seq<(Seq<char>, Seq<u8>)>, terms: Seq<Seq<char>>)
    ensures
        forall|i: int|
            0 <= i < keep_plan(entries, terms).len() ==> !denied(
                #[trigger] keep_plan(entries, terms)[i].0,
                terms,
            ),
        forall|i: int|
            0 <= i < keep_plan(entries, terms).len() ==> entries.contains(
                #[trigger] keep_plan(entries, terms)[i],
            ),
        forall|j: int|
            0 <= j < entries.len() && !denied(#[trigger] entries[j].0, terms) ==> keep_plan(
                entries,
                terms,
            ).contains(entries[j]),
        distinct_paths(entries) ==> distinct_paths(keep_plan(entries, terms)),
    decreases entries.len(),
{
    if entries.len() > 0 {
        lemma_keep_plan(entries.drop_last(), terms);
        let rest = keep_plan(entries.drop_last(), terms);
        let keep = keep_plan(entries, terms);
        assert forall|i: int| 0 <= i < keep.len() implies entries.contains(#[trigger] keep[i]) by {
            if i < rest.len() {
                assert(entries.drop_last().contains(rest[i]));
                let j = choose|j: int|
                    0 <= j < entries.drop_last().len() && entries.drop_last()[j] == rest[i];
                assert(entries[j] == keep[i]);
            } else {
                assert(entries[entries.len() - 1] == keep[i]);
            }
        }
        assert forall|j: int|
            0 <= j < entries.len() && !denied(#[trigger] entries[j].0, terms) implies keep.contains(
            entries[j],
        ) by {
            if j < entries.len() - 1 {
                assert(entries.drop_last()[j] == entries[j]);
                assert(rest.contains(entries[j]));
                let i = choose|i: int| 0 <= i < rest.len() && rest[i] == entries[j];
                assert(keep[i] == entries[j]);
            } else {
                assert(keep.last() == entries[j]);
            }
        }
        if distinct_paths(entries) {
            assert(distinct_paths(entries.drop_last()));
            assert forall|j1: int, j2: int| 0 <= j1 < j2 < keep.len() implies keep[j1].0
                != keep[j2].0 by {
                let a1 = choose|j: int| 0 <= j < entries.len() && entries[j] == keep[j1];
                if j2 < rest.len() {
                    let a2 = choose|j: int|
                        0 <= j < entries.drop_last().len() && entries.drop_last()[j] == rest[j2];
                    if keep[j1].0 == keep[j2].0 {
                        assert(entries[a1].0 == entries[a2].0);
                        assert(a1 == a2);
                        assert(rest[j1] == rest[j2]);
                        lemma_keep_distinct_indices(entries.drop_last(), terms, j1, j2);
                    }
                } else {
                    // keep[j2] is the last entry of the walk; keep[j1] stems
                    // from an earlier entry, and their paths differ.
                    if j1 < rest.len() {
                        let a1r = choose|j: int|
                            0 <= j < entries.drop_last().len() && entries.drop_last()[j]
                                == rest[j1];
                        assert(entries[a1r].0 != entries[entries.len() - 1].0);
                    }
                }
            }
        }
    }
}

/// Two distinct positions of the kept sequence never hold the same element.
proof fn lemma_keep_distinct_indices(
    entries: Seq<(Seq<char>, Seq<u8>)>,
    terms: Seq<Seq<char>>,
    i1: int,
    i2: int,
)
    requires
        distinct_paths(entries),
        0 <= i1 < i2 < keep_plan(entries, terms).len(),
    ensures
        keep_plan(entries, terms)[i1] != keep_plan(entries, terms)[i2],
    decreases entries.len(),
{
    let keep = keep_plan(entries, terms);
    let rest = keep_plan(entries.drop_last(), terms);
    assert(entries.len() > 0);
    assert(distinct_paths(entries.drop_last()));
    lemma_keep_plan(entries.drop_last(), terms);
    if i2 < rest.len() {
        lemma_keep_distinct_indices(entries.drop_last(), terms, i1, i2);
    } else {
        // keep[i2] is the freshly pushed last entry; rest holds only earlier
        // entries, whose paths all differ from its path.
        let a1 = choose|j: int|
            0 <= j < entries.drop_last().len() && entries.drop_last()[j] == rest[i1];
        assert(entries[a1].0 != entries[entries.len() - 1].0);
    }
}

/// What applying copies does to the destination map: a path is present
/// afterwards exactly when it was present before or a copy wrote it; paths
/// no copy wrote keep their old content; with distinct paths, each written
/// path holds its copy's content.
pub proof fn lemma_apply_entries(dest: Map<Seq<char>, Seq<u8>>, ks: Seq<(Seq<char>, Seq<u8>)>)
    ensures
        forall|p: Seq<char>|
            #[trigger] apply_entries(dest, ks).contains_key(p) <==> (dest.contains_key(p)
                || has_path(ks, p)),
        forall|p: Seq<char>|
            dest.contains_key(p) && !has_path(ks, p) ==> #[trigger] apply_entries(dest, ks)[p]
                == dest[p],
        distinct_paths(ks) ==> forall|i: int|
            0 <= i < ks.len() ==> apply_entries(dest, ks).contains_key(#[trigger] ks[i].0)
                && apply_entries(dest, ks)[ks[i].0] == ks[i].1,
    decreases ks.len(),
{
    if ks.len() > 0 {
        lemma_apply_entries(dest, ks.drop_last());
        let prev = apply_entries(dest, ks.drop_last());
        let a = apply_entries(dest, ks);
        let last = ks.last();
        assert forall|p: Seq<char>| #[trigger] a.contains_key(p) implies (dest.contains_key(p)
            || has_path(ks, p)) by {
            if p == last.0 {
                assert(ks[ks.len() - 1].0 == p);
            } else {
                assert(prev.contains_key(p));
                if !dest.contains_key(p) {
                    let j = choose|j: int|
                        0 <= j < ks.drop_last().len() && ks.drop_last()[j].0 == p;
                    assert(ks[j].0 == p);
                }
            }
        }
        assert forall|p: Seq<char>| dest.contains_key(p) || has_path(ks, p) implies #[trigger] a
            .contains_key(p) by {
            if p != last.0 {
                if has_path(ks, p) {
                    let j = choose|j: int| 0 <= j < ks.len() && ks[j].0 == p;
                    assert(ks.drop_last()[j].0 == p);
                    assert(has_path(ks.drop_last(), p));
                }
            }
        }
        assert forall|p: Seq<char>| dest.contains_key(p) && !has_path(ks, p) implies #[trigger] a[p]
            == dest[p] by {
            assert(ks[ks.len() - 1].0 != p);
            assert forall|j: int| 0 <= j < ks.drop_last().len() implies ks.drop_last()[j].0
                != p by {
                assert(ks[j].0 == ks.drop_last()[j].0);
            }
        }
        if distinct_paths(ks) {
            assert(distinct_paths(ks.drop_last()));
            assert forall|i: int| 0 <= i < ks.len() implies a.contains_key(#[trigger] ks[i].0)
                && a[ks[i].0] == ks[i].1 by {
                if i < ks.len() - 1 {
                    assert(ks.drop_last()[i] == ks[i]);
                    assert(ks[i].0 != last.0);
                }
            }
        }
    }
}

/// The executable plan of one mirror pass: consume the walked entries and
/// keep, in order, exactly those the denylist does not exclude.
pub fn plan_mirror(entries: Vec<FileEntry>, terms: &Vec<String>) -> (kept: Vec<FileEntry>)
    ensures
        kept.deep_view() == keep_plan(entries.deep_view(), terms.deep_view()),
{
    let ghost orig: Seq<(Seq<char>, Seq<u8>)> = entries.deep_view();
    let ghost termsv: Seq<Seq<char>> = terms.deep_view();
    let mut rest = entries;
    let mut kept: Vec<FileEntry> = Vec::new();
    let ghost mut i: int = 0;
    while rest.len() > 0
        invariant
            0 <= i <= orig.len(),
            rest.deep_view() =~= orig.subrange(i, orig.len() as int),
            kept.deep_view() =~= keep_plan(orig.take(i), termsv),
            termsv == terms.deep_view(),
        decreases rest.len(),
    {
        let ghost prevv = rest@;
        let ghost prevd = rest.deep_view();
        let e = rest.remove(0);
        proof {
            assert(prevd =~= orig.subrange(i, orig.len() as int));
            assert(prevd.len() == orig.len() - i);
            assert(e == prevv[0]);
            assert(prevd[0] == prevv[0].deep_view());
            assert(e.deep_view() == prevd[0]);
            assert(prevd[0] == orig.subrange(i, orig.len() as int)[0]);
            assert(orig.subrange(i, orig.len() as int)[0] == orig[i]);
            assert(e.deep_view() == orig[i]);
            assert(rest@ =~= prevv.subrange(1, prevv.len() as int));
            assert forall|k: int| 0 <= k < rest@.len() implies #[trigger] rest.deep_view()[k]
                == orig.subrange(i + 1, orig.len() as int)[k] by {
                assert(rest@[k] == prevv[k + 1]);
                assert(prevd[k + 1] == orig.subrange(i, orig.len() as int)[k + 1]);
            }
            assert(rest.deep_view() =~= orig.subrange(i + 1, orig.len() as int));
            assert(orig.take(i + 1).drop_last() =~= orig.take(i));
            assert(orig.take(i + 1).last() == orig[i]);
        }
        if !is_denied(e.path.as_str(), terms) {
            let ghost keptv = kept@;
            let ghost keptd = kept.deep_view();
            kept.push(e);
            proof {
                assert forall|k: int| 0 <= k < kept@.len() implies #[trigger] kept.deep_view()[k]
                    == keptd.push(e.deep_view())[k] by {
                    if k < keptv.len() {
                        assert(kept@[k] == keptv[k]);
                    }
                }
                assert(kept.deep_view() =~= keptd.push(e.deep_view()));
                assert(kept.deep_view() =~= keep_plan(orig.take(i), termsv).push(orig[i]));
            }
        }
        proof {
            i = i + 1;
        }
    }
    proof {
        assert(orig.take(orig.len() as int) =~= orig);
        assert(kept.deep_view() =~= keep_plan(orig, termsv));
    }
    kept
}

/// After one successful mirror pass, every source file the denylist does not
/// exclude is present in the destination tree at its relative path, with its
/// exact byte content.
pub proof fn lemma_mirror_preserves_content(
    dest: Map<Seq<char>, Seq<u8>>,
    entries: Seq<(Seq<char>, Seq<u8>)>,
    terms: Seq<Seq<char>>,
)
    requires
        distinct_paths(entries),
    ensures
        forall|j: int|
            0 <= j < entries.len() && !denied(#[trigger] entries[j].0, terms) ==> {
                let written = apply_entries(dest, keep_plan(entries, terms));
                written.contains_key(entries[j].0) && written[entries[j].0] == entries[j].1
            },
{
    let keep = keep_plan(entries, terms);
    lemma_keep_plan(entries, terms);
    lemma_apply_entries(dest, keep);
    assert forall|j: int|
        0 <= j < entries.len() && !denied(#[trigger] entries[j].0, terms) implies {
        let written = apply_entries(dest, keep);
        written.contains_key(entries[j].0) && written[entries[j].0] == entries[j].1
    } by {
        assert(keep.contains(entries[j]));
        let i = choose|i: int| 0 <= i < keep.len() && keep[i] == entries[j];
        assert(apply_entries(dest, keep)[keep[i].0] == keep[i].1);
    }
}

/// A denied source file is never planned for copying: no kept entry carries
/// a denied path.
pub proof fn lemma_denied_never_copied(entries: Seq<(Seq<char>, Seq<u8>)>, terms: Seq<Seq<char>>)
    ensures
        forall|i: int|
            0 <= i < keep_plan(entries, terms).len() ==> !denied(
                #[trigger] keep_plan(entries, terms)[i].0,
                terms,
            ),
{
    lemma_keep_plan(entries, terms);
}

/// A denied path that was not already in the destination tree is still
/// absent after the mirror pass: the pass never creates it.
pub proof fn lemma_mirror_never_creates_denied(
    dest: Map<Seq<char>, Seq<u8>>,
    entries: Seq<(Seq<char>, Seq<u8>)>,
    terms: Seq<Seq<char>>,
)
    ensures
        forall|p: Seq<char>|
            !dest.contains_key(p) && denied(p, terms) ==> !apply_entries(
                dest,
                keep_plan(entries, terms),
            ).contains_key(p),
{
    let keep = keep_plan(entries, terms);
    lemma_keep_plan(entries, terms);
    lemma_apply_entries(dest, keep);
    assert forall|p: Seq<char>| !dest.contains_key(p) && denied(p, terms) implies !apply_entries(
        dest,
        keep,
    ).contains_key(p) by {
        if has_path(keep, p) {
            let i = choose|i: int| 0 <= i < keep.len() && keep[i].0 == p;
            assert(!denied(keep[i].0, terms));
        }
    }
}

/// Mirroring twice with unchanged sources leaves the destination tree
/// exactly as mirroring once does.
pub proof fn lemma_mirror_idempotent(
    dest: Map<Seq<char>, Seq<u8>>,
    entries: Seq<(Seq<char>, Seq<u8>)>,
    terms: Seq<Seq<char>>,
)
    requires
        distinct_paths(entries),
    ensures
        ({
            let once = apply_entries(dest, keep_plan(entries, terms));
            apply_entries(once, keep_plan(entries, terms)) == once
        }),
{
    let ks = keep_plan(entries, terms);
    lemma_keep_plan(entries, terms);
    let once = apply_entries(dest, ks);
    let twice = apply_entries(once, ks);
    lemma_apply_entries(dest, ks);
    lemma_apply_entries(once, ks);
    assert forall|p: Seq<char>| twice.contains_key(p) implies once.contains_key(p) by {}
    assert forall|p: Seq<char>| #[trigger] twice.contains_key(p) implies twice[p] == once[p] by {
        if has_path(ks, p) {
            let j = choose|j: int| 0 <= j < ks.len() && ks[j].0 == p;
            assert(twice[ks[j].0] == ks[j].1);
            assert(once[ks[j].0] == ks[j].1);
        }
    }
    assert(twice =~= once);
}

/// The destination path of one copy: the backup root joined with the
/// relative path, with exactly one separator between them.
pub open spec fn joined(root: Seq<char>, rel: Seq<char>) -> Seq<char> {
    if root.len() > 0 && root[root.len() - 1] == '/' {
        root + rel
    } else {
        root + seq!['/'] + rel
    }
}

/// Join the backup root and a relative path into the destination path.
pub fn dest_path(root: &str, rel: &str) -> (r: String)
    ensures
        r@ == joined(root@, rel@),
{
    let mut out = String::from_str(root);
    let rlen = root.unicode_len();
    if rlen == 0 || root.get_char(rlen - 1) != '/' {
        out.append("/");
        proof {
            reveal_strlit("/");
            assert(out@ =~= root@ + seq!['/']);
        }
    }
    out.append(rel);
    proof {
        assert(out@ =~= joined(root@, rel@));
    }
    out
}

} // verus!
