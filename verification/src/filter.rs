//! The prefix filter: selects the declarations that belong to the
//! requested service, preserving their relative order.

use vstd::prelude::*;
use crate::decl::RawDeclaration;
use crate::text::{starts_with, str_starts_with};

verus! {

/// The declaration belongs to the service named by `prefix`.
pub open spec fn has_prefix(d: RawDeclaration, prefix: Seq<char>) -> bool {
    starts_with(d.name@, prefix)
}

/// The subsequence of `s` whose names start with `prefix`, in order.
pub open spec fn filtered_decls(s: Seq<RawDeclaration>, prefix: Seq<char>) -> Seq<RawDeclaration>
    decreases s.len(),
{
    if s.len() == 0 {
        Seq::<RawDeclaration>::empty()
    } else {
        let rest = filtered_decls(s.drop_last(), prefix);
        if has_prefix(s.last(), prefix) {
            rest.push(s.last())
        } else {
            rest
        }
    }
}

/// Every declaration the filter keeps starts with the prefix.
pub proof fn lemma_filtered_prefix(s: Seq<RawDeclaration>, prefix: Seq<char>)
    ensures
        forall|i: int|
            0 <= i < filtered_decls(s, prefix).len() ==> has_prefix(
                #[trigger] filtered_decls(s, prefix)[i],
                prefix,
            ),
    decreases s.len(),
{
    if s.len() > 0 {
        lemma_filtered_prefix(s.drop_last(), prefix);
        let rest = filtered_decls(s.drop_last(), prefix);
        if has_prefix(s.last(), prefix) {
            assert forall|i: int| 0 <= i < filtered_decls(s, prefix).len() implies has_prefix(
                filtered_decls(s, prefix)[i],
                prefix,
            ) by {
                if i < rest.len() {
                    assert(filtered_decls(s, prefix)[i] == rest[i]);
                } else {
                    assert(filtered_decls(s, prefix)[i] == s.last());
                }
            }
        }
    }
}

/// Keeps, in order, the declarations whose name starts with `prefix`.
/// An empty prefix keeps everything: that is the unfiltered raw mode.
pub fn filter_by_prefix(decls: Vec<RawDeclaration>, prefix: &str) -> (r: Vec<RawDeclaration>)
    ensures
        r@ == filtered_decls(decls@, prefix@),
{
    let ghost orig = decls@;
    let mut rest = decls;
    let mut kept: Vec<RawDeclaration> = Vec::new();
    let ghost mut done: int = 0;
    while rest.len() > 0
        invariant
            0 <= done <= orig.len(),
            rest@ == orig.skip(done),
            kept@ == filtered_decls(orig.take(done), prefix@),
        decreases rest.len(),
    {
        let d = rest.remove(0);
        proof {
            assert(d == orig[done]);
            assert(orig.skip(done).remove(0) =~= orig.skip(done + 1));
            assert(orig.take(done + 1).drop_last() =~= orig.take(done));
            assert(orig.take(done + 1).last() == orig[done]);
        }
        if str_starts_with(d.name.as_str(), prefix) {
            kept.push(d);
        }
        proof {
            done = done + 1;
        }
    }
    proof {
        assert(orig.take(done) =~= orig);
    }
    kept
}

} // verus!
