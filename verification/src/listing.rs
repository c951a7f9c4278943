//! Flattening a directory tree into the list of its file paths. The caller
//! reads the tree from disk and hands it in as data; the traversal itself —
//! which paths come out, in depth-first order — is plain logic on that
//! snapshot, decoupled from any I/O.

use vstd::prelude::*;
use vstd::string::StringExecFns;

verus! {

/// A snapshot of one node of a directory tree.
pub enum FsTree {
    File { name: String },
    Dir { name: String, entries: Vec<FsTree> },
}

/// The full paths of the files under `t`, depth-first, each prefixed by
/// `prefix`; a directory contributes its name and a separator.
pub open spec fn spec_leaf_paths(t: FsTree, prefix: Seq<char>) -> Seq<Seq<char>>
    decreases t,
{
    match t {
        FsTree::File { name } => seq![prefix + name@],
        FsTree::Dir { name, entries } => spec_leaf_paths_all(entries@, prefix + name@ + "/"@),
    }
}

/// The concatenated file paths of a forest, in order.
pub open spec fn spec_leaf_paths_all(ts: Seq<FsTree>, prefix: Seq<char>) -> Seq<Seq<char>>
    decreases ts,
{
    if ts.len() == 0 {
        Seq::empty()
    } else {
        spec_leaf_paths(ts[0], prefix) + spec_leaf_paths_all(ts.drop_first(), prefix)
    }
}

/// Lists every file under `root`: the returned paths are exactly the
/// depth-first leaf paths of the snapshot.
pub fn list_files(root: &FsTree) -> (r: Vec<String>)
    ensures
        r@.map_values(|s: String| s@) == spec_leaf_paths(*root, Seq::<char>::empty()),
{
    let mut paths: Vec<String> = Vec::new();
    let prefix = String::new();
    collect_files(&mut paths, root, &prefix);
    paths
}

/// Appends the leaf paths of `t`, each prefixed by `prefix`, to `paths`.
fn collect_files(paths: &mut Vec<String>, t: &FsTree, prefix: &String)
    ensures
        final(paths)@.map_values(|s: String| s@) == old(paths)@.map_values(|s: String| s@)
            + spec_leaf_paths(*t, prefix@),
    decreases *t,
{
    match t {
        FsTree::File { name } => {
            let mut p = prefix.clone();
            p.append(name.as_str());
            let ghost before = paths@.map_values(|s: String| s@);
            let ghost pv = p@;
            paths.push(p);
            proof {
                assert(paths@.map_values(|s: String| s@) =~= before.push(pv));
                assert(before.push(pv) =~= before + seq![prefix@ + name@]);
            }
        },
        FsTree::Dir { name, entries } => {
            let mut p = prefix.clone();
            p.append(name.as_str());
            p.append("/");
            proof {
                assert(p@ == prefix@ + name@ + "/"@);
            }
            let ghost before = paths@.map_values(|s: String| s@);
            let ghost all = entries@;
            let ghost pv = p@;
            let mut i: usize = 0;
            proof {
                assert(all.skip(0) =~= all);
            }
            while i < entries.len()
                invariant
                    i <= entries.len(),
                    all == entries@,
                    *t matches FsTree::Dir { name: dname, entries: dentries } && dentries@ == all,
                    pv == p@,
                    before + spec_leaf_paths_all(all, pv) == paths@.map_values(|s: String| s@)
                        + spec_leaf_paths_all(all.skip(i as int), pv),
                decreases entries.len() - i,
            {
                let ghost tail = all.skip(i as int);
                proof {
                    assert(tail.drop_first() =~= all.skip(i as int + 1));
                    assert(tail[0] == all[i as int]);
                }
                let ghost mid = paths@.map_values(|s: String| s@);
                proof {
                    broadcast use vstd::std_specs::vec::group_vec_axioms;
                    broadcast use vstd::seq::group_seq_axioms;

                    assert(decreases_to!(*t => t->Dir_entries));
                    assert(decreases_to!(t->Dir_entries => t->Dir_entries@));
                    assert(decreases_to!(t->Dir_entries@ => t->Dir_entries@[i as int]));
                    assert(decreases_to!(*t => entries@[i as int]));
                }
                collect_files(paths, &entries[i], &p);
                proof {
                    assert((mid + spec_leaf_paths(all[i as int], pv)) + spec_leaf_paths_all(
                        all.skip(i as int + 1),
                        pv,
                    ) =~= mid + (spec_leaf_paths(all[i as int], pv) + spec_leaf_paths_all(
                        all.skip(i as int + 1),
                        pv,
                    )));
                }
                i += 1;
            }
            proof {
                assert(all.skip(all.len() as int) =~= Seq::<FsTree>::empty());
                assert(paths@.map_values(|s: String| s@) + Seq::<Seq<char>>::empty()
                    =~= paths@.map_values(|s: String| s@));
            }
        },
    }
}

} // verus!
