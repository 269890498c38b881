//! The reconciler: a strict two-phase pass that first decides, for every
//! source file, whether its destination counterpart must be copied or can
//! be skipped, and then decides which destination files to prune.  The
//! whole pass is a pure function over the two tree models; the decision
//! trail it returns is the same whether or not the run is a dry run.

use vstd::prelude::*;

use crate::detect::differs;
use crate::tree::{as_map, has_path, lemma_as_map_index, lookup, paths_unique, copy_bytes, Tree,
    TreeFile};

verus! {

/// What one reconciliation decision did (or, in a dry run, would do).
#[derive(Clone, Copy, Debug, PartialEq, Eq, Structural)]
pub enum SyncAction {
    Copied,
    Skipped,
    Deleted,
}

/// One entry of the decision trail: the relative path a decision was made
/// for, and the decision.
pub struct SyncDecision {
    pub rel_path: String,
    pub action: SyncAction,
}

impl View for SyncDecision {
    type V = (Seq<char>, SyncAction);

    open spec fn view(&self) -> (Seq<char>, SyncAction) {
        (self.rel_path@, self.action)
    }
}

/// The per-file decision trail of one reconciliation run.
pub struct SyncReport {
    pub decisions: Vec<SyncDecision>,
}

/// The decisions as pairs of path and action.
pub open spec fn decisions_view(ds: Seq<SyncDecision>) -> Seq<(Seq<char>, SyncAction)> {
    Seq::new(ds.len(), |i: int| ds[i]@)
}

impl View for SyncReport {
    type V = Seq<(Seq<char>, SyncAction)>;

    open spec fn view(&self) -> Seq<(Seq<char>, SyncAction)> {
        decisions_view(self.decisions@)
    }
}

/// What `reconcile` returns: the destination tree after the run and the
/// decision trail.
pub struct ReconcileOutcome {
    pub destination: Tree,
    pub report: SyncReport,
}

/// Whether a relative path is exempt from pruning: the version-control
/// metadata directory ".git" itself and everything below ".git/".
pub open spec fn is_protected(p: Seq<char>) -> bool {
    p.len() >= 4 && p[0] == '.' && p[1] == 'g' && p[2] == 'i' && p[3] == 't' && (p.len() == 4
        || p[4] == '/')
}

/// Exec check of `is_protected`.
pub fn is_protected_path(p: &String) -> (r: bool)
    ensures
        r == is_protected(p@),
{
    let s = p.as_str();
    let n = s.unicode_len();
    if n < 4 {
        return false;
    }
    if s.get_char(0) != '.' || s.get_char(1) != 'g' || s.get_char(2) != 'i' || s.get_char(3) != 't'
    {
        return false;
    }
    if n == 4 {
        return true;
    }
    s.get_char(4) == '/'
}

/// The copy-phase decision for one source file: copy when the destination
/// lacks the path or holds different bytes, otherwise skip.
pub open spec fn copy_action(f: TreeFile, dest: Map<Seq<char>, Seq<u8>>) -> SyncAction {
    if !dest.contains_key(f.rel_path@) || dest[f.rel_path@] != f.contents@ {
        SyncAction::Copied
    } else {
        SyncAction::Skipped
    }
}

/// The copy phase of the trail: one decision per source file, in source
/// order.
pub open spec fn copy_report(src: Seq<TreeFile>, dest: Map<Seq<char>, Seq<u8>>) -> Seq<
    (Seq<char>, SyncAction),
> {
    Seq::new(src.len(), |i: int| (src[i].rel_path@, copy_action(src[i], dest)))
}

/// Whether the prune phase deletes a destination file: it is neither
/// protected nor present in the source path set.
pub open spec fn pruned(f: TreeFile, src: Map<Seq<char>, Seq<u8>>) -> bool {
    !is_protected(f.rel_path@) && !src.contains_key(f.rel_path@)
}

/// The prune phase of the trail: one Deleted decision per pruned
/// destination file, in destination order.
pub open spec fn prune_report(dest: Seq<TreeFile>, src: Map<Seq<char>, Seq<u8>>) -> Seq<
    (Seq<char>, SyncAction),
>
    decreases dest.len(),
{
    if dest.len() == 0 {
        Seq::empty()
    } else {
        prune_report(dest.drop_last(), src) + if pruned(dest.last(), src) {
            seq![(dest.last().rel_path@, SyncAction::Deleted)]
        } else {
            Seq::empty()
        }
    }
}

/// The full decision trail of one run: the copy phase over the source,
/// then the prune phase over the destination.
pub open spec fn sync_report(src: Seq<TreeFile>, dest: Seq<TreeFile>) -> Seq<
    (Seq<char>, SyncAction),
> {
    copy_report(src, as_map(dest)) + prune_report(dest, as_map(src))
}

/// The destination map after a successful non-dry run: every source path
/// with the source bytes, plus the protected destination files.
pub open spec fn sync_map(src: Map<Seq<char>, Seq<u8>>, dest: Map<Seq<char>, Seq<u8>>) -> Map<
    Seq<char>,
    Seq<u8>,
> {
    Map::new(
        |p: Seq<char>| src.contains_key(p) || (dest.contains_key(p) && is_protected(p)),
        |p: Seq<char>| if src.contains_key(p) {
            src[p]
        } else {
            dest[p]
        },
    )
}

/// Reconciles the destination tree with the source tree.
///
/// The decision trail is the same whether or not this is a dry run.  Under
/// `dry_run` the destination comes back unchanged; otherwise the returned
/// tree holds the source bytes at every source path, keeps the protected
/// destination files, and holds nothing else.
#[verifier::rlimit(60)]
pub fn reconcile(source: &Tree, destination: Tree, dry_run: bool) -> (r: ReconcileOutcome)
    requires
        source.wf(),
        destination.wf(),
    ensures
        r.report@ == sync_report(source.files@, destination.files@),
        dry_run ==> r.destination == destination,
        !dry_run ==> r.destination.map_view() == sync_map(
            source.map_view(),
            destination.map_view(),
        ),
        r.destination.wf(),
{
    let ghost src_seq = source.files@;
    let ghost dst_seq = destination.files@;
    let ghost smap = as_map(src_seq);
    let ghost dmap = as_map(dst_seq);
    let mut decisions: Vec<SyncDecision> = Vec::new();
    let mut new_files: Vec<TreeFile> = Vec::new();

    // Phase 1: walk the source; decide copy or skip for each file, and
    // mirror the source into the new destination tree.
    let mut i: usize = 0;
    while i < source.files.len()
        invariant
            i <= src_seq.len(),
            source.files@ == src_seq,
            destination.files@ == dst_seq,
            smap == as_map(src_seq),
            dmap == as_map(dst_seq),
            paths_unique(src_seq),
            paths_unique(dst_seq),
            decisions_view(decisions@) == copy_report(src_seq.take(i as int), dmap),
            new_files@.len() == i,
            forall|k: int|
                0 <= k < i ==> (#[trigger] new_files@[k]).rel_path@ == src_seq[k].rel_path@
                    && new_files@[k].contents@ == src_seq[k].contents@,
        decreases src_seq.len() - i,
    {
        let f = &source.files[i];
        let action = match lookup(&destination.files, &f.rel_path) {
            Some(j) => {
                proof {
                    lemma_as_map_index(dst_seq, j as int);
                }
                if differs(&f.contents, &destination.files[j].contents) {
                    SyncAction::Copied
                } else {
                    SyncAction::Skipped
                }
            },
            None => SyncAction::Copied,
        };
        proof {
            assert(action == copy_action(src_seq[i as int], dmap));
        }
        let ghost ds0 = decisions@;
        proof {
            assert(decisions_view(ds0).len() == ds0.len());
        }
        decisions.push(SyncDecision { rel_path: f.rel_path.clone(), action });
        new_files.push(TreeFile { rel_path: f.rel_path.clone(), contents: copy_bytes(&f.contents) });
        proof {
            assert(decisions_view(decisions@).len() == decisions@.len());
            let cr = copy_report(src_seq.take(i + 1), dmap);
            assert forall|k: int| 0 <= k < cr.len() implies decisions_view(decisions@)[k]
                == cr[k] by {
                assert(src_seq.take(i + 1)[k] == src_seq[k]);
                if k < i as int {
                    assert(decisions@[k] == ds0[k]);
                    assert(decisions_view(ds0)[k] == copy_report(src_seq.take(i as int), dmap)[k]);
                    assert(src_seq.take(i as int)[k] == src_seq[k]);
                }
            }
            assert(decisions_view(decisions@) =~= cr);
        }
        i += 1;
    }
    proof {
        assert(src_seq.take(src_seq.len() as int) =~= src_seq);
    }

    // Phase 2: walk the destination; decide deletion for every file that
    // is neither protected nor present in the source, and keep the
    // protected files in the new destination tree.
    let ghost n_src = src_seq.len() as int;
    let mut j: usize = 0;
    while j < destination.files.len()
        invariant
            j <= dst_seq.len(),
            source.files@ == src_seq,
            destination.files@ == dst_seq,
            smap == as_map(src_seq),
            dmap == as_map(dst_seq),
            paths_unique(src_seq),
            paths_unique(dst_seq),
            n_src == src_seq.len() as int,
            decisions_view(decisions@) == copy_report(src_seq, dmap) + prune_report(
                dst_seq.take(j as int),
                smap,
            ),
            new_files@.len() >= n_src,
            forall|k: int|
                0 <= k < n_src ==> (#[trigger] new_files@[k]).rel_path@ == src_seq[k].rel_path@
                    && new_files@[k].contents@ == src_seq[k].contents@,
            forall|k: int|
                n_src <= k < new_files@.len() ==> is_protected(
                    (#[trigger] new_files@[k]).rel_path@,
                ) && !smap.contains_key(new_files@[k].rel_path@) && dmap.contains_key(
                    new_files@[k].rel_path@,
                ) && dmap[new_files@[k].rel_path@] == new_files@[k].contents@,
            forall|k: int|
                n_src <= k < new_files@.len() ==> exists|j2: int|
                    0 <= j2 < j && dst_seq[j2].rel_path@ == (#[trigger] new_files@[k]).rel_path@,
            forall|j2: int|
                0 <= j2 < j && is_protected((#[trigger] dst_seq[j2]).rel_path@)
                    && !smap.contains_key(dst_seq[j2].rel_path@) ==> has_path(
                    new_files@,
                    dst_seq[j2].rel_path@,
                ),
            paths_unique(new_files@),
        decreases dst_seq.len() - j,
    {
        let g = &destination.files[j];
        let protected = is_protected_path(&g.rel_path);
        let in_source = match lookup(&source.files, &g.rel_path) {
            Some(k) => {
                proof {
                    lemma_as_map_index(src_seq, k as int);
                }
                true
            },
            None => false,
        };
        let ghost ds0 = decisions@;
        let ghost nf0 = new_files@;
        if !protected && !in_source {
            decisions.push(
                SyncDecision { rel_path: g.rel_path.clone(), action: SyncAction::Deleted },
            );
        } else if protected && !in_source {
            proof {
                // The new entry collides with no mirrored source path (it
                // is absent from the source) and with no earlier kept
                // protected path (destination paths are unique).
                assert forall|k: int| 0 <= k < nf0.len() implies (#[trigger] nf0[k]).rel_path@
                    != dst_seq[j as int].rel_path@ by {
                    if k < n_src {
                        lemma_as_map_index(src_seq, k);
                    } else {
                        let j2 = choose|j2: int|
                            0 <= j2 < j && dst_seq[j2].rel_path@ == nf0[k].rel_path@;
                        assert(0 <= j2 < j && dst_seq[j2].rel_path@ == nf0[k].rel_path@);
                        assert(dst_seq[j2].rel_path@ != dst_seq[j as int].rel_path@);
                    }
                }
            }
            new_files.push(
                TreeFile { rel_path: g.rel_path.clone(), contents: copy_bytes(&g.contents) },
            );
            proof {
                lemma_as_map_index(dst_seq, j as int);
                assert(new_files@ == nf0.push(new_files@[nf0.len() as int]));
                assert(new_files@[nf0.len() as int].rel_path@ == dst_seq[j as int].rel_path@);
                assert(has_path(new_files@, dst_seq[j as int].rel_path@));
            }
        }
        proof {
            // Earlier kept paths are still present after a push.
            assert forall|j2: int|
                0 <= j2 < j + 1 && is_protected((#[trigger] dst_seq[j2]).rel_path@)
                    && !smap.contains_key(dst_seq[j2].rel_path@) implies has_path(
                new_files@,
                dst_seq[j2].rel_path@,
            ) by {
                if j2 < j {
                    assert(has_path(nf0, dst_seq[j2].rel_path@));
                    lemma_has_path_extend(nf0, new_files@, dst_seq[j2].rel_path@);
                } else {
                    assert(j2 == j);
                }
            }
            assert(dst_seq.take(j + 1).drop_last() =~= dst_seq.take(j as int));
            assert(dst_seq.take(j + 1).last() == dst_seq[j as int]);
            if protected || in_source {
                assert(!pruned(dst_seq[j as int], smap));
            } else {
                assert(pruned(dst_seq[j as int], smap));
            }
            assert(decisions_view(ds0).len() == ds0.len());
            assert(decisions_view(decisions@).len() == decisions@.len());
            let pr = copy_report(src_seq, dmap) + prune_report(dst_seq.take(j + 1), smap);
            assert forall|k: int| 0 <= k < decisions_view(decisions@).len() implies decisions_view(
                decisions@,
            )[k] == pr[k] by {
                if k < ds0.len() {
                    assert(decisions@[k] == ds0[k]);
                    assert(decisions_view(ds0)[k] == (copy_report(src_seq, dmap) + prune_report(
                        dst_seq.take(j as int),
                        smap,
                    ))[k]);
                }
            }
            assert(decisions_view(decisions@) =~= pr);
        }
        j += 1;
    }
    proof {
        assert(dst_seq.take(dst_seq.len() as int) =~= dst_seq);
    }

    let report = SyncReport { decisions };
    if dry_run {
        ReconcileOutcome { destination, report }
    } else {
        proof {
            lemma_new_files_synced(src_seq, dst_seq, new_files@);
        }
        ReconcileOutcome { destination: Tree { files: new_files }, report }
    }
}

/// A path present in a prefix of files is still present after more files
/// are appended.
proof fn lemma_has_path_extend(s1: Seq<TreeFile>, s2: Seq<TreeFile>, p: Seq<char>)
    requires
        has_path(s1, p),
        s1.len() <= s2.len(),
        forall|k: int| 0 <= k < s1.len() ==> s2[k] == s1[k],
    ensures
        has_path(s2, p),
{
    let i = choose|i: int| 0 <= i < s1.len() && s1[i].rel_path@ == p;
    assert(0 <= i < s1.len() && s1[i].rel_path@ == p);
    assert(s2[i] == s1[i]);
}

/// The tree built by the two phases carries exactly the synchronized map.
proof fn lemma_new_files_synced(src_seq: Seq<TreeFile>, dst_seq: Seq<TreeFile>, nf: Seq<TreeFile>)
    requires
        paths_unique(src_seq),
        paths_unique(dst_seq),
        paths_unique(nf),
        nf.len() >= src_seq.len(),
        forall|k: int|
            0 <= k < src_seq.len() ==> (#[trigger] nf[k]).rel_path@ == src_seq[k].rel_path@
                && nf[k].contents@ == src_seq[k].contents@,
        forall|k: int|
            src_seq.len() <= k < nf.len() ==> is_protected((#[trigger] nf[k]).rel_path@)
                && !as_map(src_seq).contains_key(nf[k].rel_path@) && as_map(dst_seq).contains_key(
                nf[k].rel_path@,
            ) && as_map(dst_seq)[nf[k].rel_path@] == nf[k].contents@,
        forall|j2: int|
            0 <= j2 < dst_seq.len() && is_protected((#[trigger] dst_seq[j2]).rel_path@)
                && !as_map(src_seq).contains_key(dst_seq[j2].rel_path@) ==> has_path(
                nf,
                dst_seq[j2].rel_path@,
            ),
    ensures
        as_map(nf) == sync_map(as_map(src_seq), as_map(dst_seq)),
{
    let smap = as_map(src_seq);
    let dmap = as_map(dst_seq);
    let goal = sync_map(smap, dmap);
    assert forall|p: Seq<char>| #![trigger goal.dom().contains(p)] goal.dom().contains(p)
        implies as_map(nf).dom().contains(p) && as_map(nf)[p] == goal[p] by {
        assert(goal.contains_key(p));
        if smap.contains_key(p) {
            let i = choose|i: int| 0 <= i < src_seq.len() && src_seq[i].rel_path@ == p;
            assert(0 <= i < src_seq.len() && src_seq[i].rel_path@ == p);
            lemma_as_map_index(src_seq, i);
            assert(nf[i].rel_path@ == p);
            lemma_as_map_index(nf, i);
        } else {
            let j2 = choose|j2: int| 0 <= j2 < dst_seq.len() && dst_seq[j2].rel_path@ == p;
            assert(0 <= j2 < dst_seq.len() && dst_seq[j2].rel_path@ == p);
            assert(has_path(nf, p));
            let k = choose|k: int| 0 <= k < nf.len() && nf[k].rel_path@ == p;
            assert(0 <= k < nf.len() && nf[k].rel_path@ == p);
            if k < src_seq.len() {
                lemma_as_map_index(src_seq, k);
            }
            lemma_as_map_index(nf, k);
        }
    }
    assert forall|p: Seq<char>| #![trigger as_map(nf).dom().contains(p)] as_map(
        nf,
    ).dom().contains(p) implies goal.dom().contains(p) by {
        assert(as_map(nf).contains_key(p));
        assert(has_path(nf, p));
        let k = choose|k: int| 0 <= k < nf.len() && nf[k].rel_path@ == p;
        assert(0 <= k < nf.len() && nf[k].rel_path@ == p);
        if k < src_seq.len() {
            lemma_as_map_index(src_seq, k);
        }
    }
    assert(as_map(nf).dom() =~= goal.dom());
    assert(as_map(nf) =~= goal);
}

/// A destination synchronized to a source: every source path is present
/// with the source bytes, and nothing but source files and protected files
/// remains.
pub open spec fn synced(src: Map<Seq<char>, Seq<u8>>, dest: Map<Seq<char>, Seq<u8>>) -> bool {
    &&& forall|p: Seq<char>|
        src.contains_key(p) ==> dest.contains_key(p) && dest[p] == src[p]
    &&& forall|p: Seq<char>| dest.contains_key(p) ==> src.contains_key(p) || is_protected(p)
}

/// Completeness: after a successful non-dry run, every file under the
/// source is present in the destination at the same relative path with
/// identical bytes.
pub proof fn lemma_reconcile_complete(src: Map<Seq<char>, Seq<u8>>, dest: Map<Seq<char>, Seq<u8>>)
    ensures
        forall|p: Seq<char>|
            src.contains_key(p) ==> sync_map(src, dest).contains_key(p) && sync_map(src, dest)[p]
                == src[p],
{
}

/// Pruning correctness: after a successful non-dry run, every file left in
/// the destination either exists under the source or lies under the
/// protected prefix — and protected destination files keep their bytes.
pub proof fn lemma_reconcile_prunes(src: Map<Seq<char>, Seq<u8>>, dest: Map<Seq<char>, Seq<u8>>)
    ensures
        forall|p: Seq<char>|
            sync_map(src, dest).contains_key(p) ==> src.contains_key(p) || is_protected(p),
        forall|p: Seq<char>|
            dest.contains_key(p) && is_protected(p) && !src.contains_key(p) ==> sync_map(
                src,
                dest,
            ).contains_key(p) && sync_map(src, dest)[p] == dest[p],
{
}

/// One successful run leaves the destination synchronized to the source.
pub proof fn lemma_sync_map_synced(src: Map<Seq<char>, Seq<u8>>, dest: Map<Seq<char>, Seq<u8>>)
    ensures
        synced(src, sync_map(src, dest)),
{
}

/// Over a synchronized destination the prune phase deletes nothing.
proof fn lemma_prune_report_empty(dest: Seq<TreeFile>, src: Map<Seq<char>, Seq<u8>>)
    requires
        forall|j: int| 0 <= j < dest.len() ==> !pruned(#[trigger] dest[j], src),
    ensures
        prune_report(dest, src) == Seq::<(Seq<char>, SyncAction)>::empty(),
    decreases dest.len(),
{
    if dest.len() > 0 {
        assert(dest.last() == dest[dest.len() - 1]);
        assert forall|j: int| 0 <= j < dest.drop_last().len() implies !pruned(
            #[trigger] dest.drop_last()[j],
            src,
        ) by {
            assert(dest.drop_last()[j] == dest[j]);
        }
        lemma_prune_report_empty(dest.drop_last(), src);
        assert(prune_report(dest, src) =~= Seq::<(Seq<char>, SyncAction)>::empty());
    }
}

/// Idempotence: a second run over an already-synchronized destination
/// decides Skipped for every source file and deletes nothing, so its trail
/// holds no copy and no delete.
pub proof fn lemma_reconcile_idempotent(src: Seq<TreeFile>, dest: Seq<TreeFile>)
    requires
        paths_unique(src),
        paths_unique(dest),
        synced(as_map(src), as_map(dest)),
    ensures
        sync_report(src, dest).len() == src.len(),
        forall|k: int|
            0 <= k < sync_report(src, dest).len() ==> (#[trigger] sync_report(src, dest)[k]).1
                == SyncAction::Skipped,
{
    let smap = as_map(src);
    let dmap = as_map(dest);
    assert forall|i: int| 0 <= i < src.len() implies copy_action(#[trigger] src[i], dmap)
        == SyncAction::Skipped by {
        lemma_as_map_index(src, i);
    }
    assert forall|j: int| 0 <= j < dest.len() implies !pruned(#[trigger] dest[j], smap) by {
        lemma_as_map_index(dest, j);
    }
    lemma_prune_report_empty(dest, smap);
}

} // verus!
