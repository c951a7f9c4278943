//! Platform filtering of library entries. An entry with no rule list is
//! always included; an entry with a rule list is included exactly when the
//! first rule's OS name equals the target platform. No other rule in the
//! list is consulted: this deliberately preserves the observed behaviour of
//! the manifests this pipeline reads.

use vstd::prelude::*;

use crate::strutil::str_eq;
use crate::types::LibraryEntry;
use crate::types::LibraryEntryV;
use crate::types::PlatformRule;

verus! {

/// Whether a library entry applies to `target`: no rule list (or an empty
/// one) always applies; otherwise the first rule's OS name must equal
/// `target`. Rules after the first play no part.
pub open spec fn spec_lib_included(e: LibraryEntryV, target: Seq<char>) -> bool {
    match e.rules {
        None => true,
        Some(rs) => rs.len() == 0 || rs[0].os_name == Some(target),
    }
}

/// The applicable entries, in their original order.
pub open spec fn spec_applicable(entries: Seq<LibraryEntryV>, target: Seq<char>) -> Seq<
    LibraryEntryV,
>
    decreases entries.len(),
{
    if entries.len() == 0 {
        Seq::empty()
    } else {
        let front = spec_applicable(entries.drop_last(), target);
        if spec_lib_included(entries.last(), target) {
            front.push(entries.last())
        } else {
            front
        }
    }
}

/// An entry's inclusion is decided by its first rule alone: an entry with no
/// rules is always included; one whose rule list is non-empty is included
/// exactly when the first rule's OS name equals the target platform,
/// regardless of any subsequent rules in its list.
pub proof fn lemma_first_rule_decides(e: LibraryEntryV, target: Seq<char>)
    ensures
        e.rules is None ==> spec_lib_included(e, target),
        (e.rules matches Some(rs) && rs.len() == 0) ==> spec_lib_included(e, target),
        (e.rules matches Some(rs) && rs.len() > 0 && rs[0].os_name == Some(target))
            ==> spec_lib_included(e, target),
        (e.rules matches Some(rs) && rs.len() > 0 && rs[0].os_name != Some(target))
            ==> !spec_lib_included(e, target),
{
}

/// Decides whether `e` applies to the target platform.
pub fn lib_included(e: &LibraryEntry, target: &str) -> (r: bool)
    ensures
        r == spec_lib_included(e@, target@),
{
    match &e.rules {
        None => true,
        Some(rs) => {
            if rs.len() == 0 {
                true
            } else {
                match &rs[0].os_name {
                    None => false,
                    Some(name) => str_eq(name.as_str(), target),
                }
            }
        },
    }
}

/// Selects, in order, the entries applicable to the target platform.
pub fn applicable(entries: &Vec<LibraryEntry>, target: &str) -> (r: Vec<LibraryEntry>)
    ensures
        r@.map_values(|e: LibraryEntry| e@) == spec_applicable(
            entries@.map_values(|e: LibraryEntry| e@),
            target@,
        ),
{
    let ghost all = entries@.map_values(|e: LibraryEntry| e@);
    let mut r: Vec<LibraryEntry> = Vec::new();
    let mut i: usize = 0;
    while i < entries.len()
        invariant
            i <= entries.len(),
            all == entries@.map_values(|e: LibraryEntry| e@),
            r@.map_values(|e: LibraryEntry| e@) == spec_applicable(
                all.subrange(0, i as int),
                target@,
            ),
        decreases entries.len() - i,
    {
        let ghost prefix = all.subrange(0, i as int);
        let ghost prefix1 = all.subrange(0, i as int + 1);
        proof {
            assert(prefix1.drop_last() =~= prefix);
            assert(prefix1.last() == all[i as int]);
        }
        if lib_included(&entries[i], target) {
            let ghost rmap = r@.map_values(|e: LibraryEntry| e@);
            let e = LibraryEntry {
                path: entries[i].path.clone(),
                url: entries[i].url.clone(),
                rules: copy_rules(&entries[i].rules),
            };
            proof {
                assert(e@ == all[i as int]);
            }
            r.push(e);
            proof {
                assert(r@.map_values(|x: LibraryEntry| x@) =~= rmap.push(e@));
            }
        }
        i += 1;
    }
    proof {
        assert(all.subrange(0, entries@.len() as int) =~= all);
    }
    r
}

/// A copy of an optional rule list, rule for rule.
fn copy_rules(rules: &Option<Vec<PlatformRule>>) -> (r: Option<Vec<PlatformRule>>)
    ensures
        r is Some <==> *rules is Some,
        r matches Some(v) ==> (*rules matches Some(w) && v@ == w@),
{
    match rules {
        None => None,
        Some(rs) => {
            let mut out: Vec<PlatformRule> = Vec::new();
            let mut i: usize = 0;
            while i < rs.len()
                invariant
                    i <= rs.len(),
                    out@ == rs@.subrange(0, i as int),
                decreases rs.len() - i,
            {
                let os = match &rs[i].os_name {
                    None => None,
                    Some(s) => Some(s.clone()),
                };
                out.push(PlatformRule { os_name: os });
                proof {
                    assert(out@ =~= rs@.subrange(0, i as int + 1));
                }
                i += 1;
            }
            proof {
                assert(out@ =~= rs@);
            }
            Some(out)
        },
    }
}

} // verus!
