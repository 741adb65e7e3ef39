//! The lifecycle classifier: partitions the filtered declarations into
//! exactly one init member, exactly one exit member, and the call set.

use vstd::prelude::*;
use crate::decl::{GenError, RawDeclaration, ServiceGroup};
use crate::filter::has_prefix;
use crate::text::str_eq;

verus! {

/// The exact names that make a declaration the init member: the prefix
/// followed by `Initialize` or by `Init`, with nothing after it. A longer
/// name that merely ends with one of these suffixes is a regular call.
pub open spec fn is_init_name(name: Seq<char>, prefix: Seq<char>) -> bool {
    name == prefix + "Initialize"@ || name == prefix + "Init"@
}

/// The exact name that makes a declaration the exit member.
pub open spec fn is_exit_name(name: Seq<char>, prefix: Seq<char>) -> bool {
    name == prefix + "Exit"@
}

/// Lifecycle members are never also calls.
pub open spec fn is_lifecycle_name(name: Seq<char>, prefix: Seq<char>) -> bool {
    is_init_name(name, prefix) || is_exit_name(name, prefix)
}

/// No name is at once the exact init name and the exact exit name.
pub proof fn lemma_init_exit_disjoint(name: Seq<char>, prefix: Seq<char>)
    ensures
        !(is_init_name(name, prefix) && is_exit_name(name, prefix)),
{
    reveal_strlit("Initialize");
    reveal_strlit("Init");
    reveal_strlit("Exit");
    if is_init_name(name, prefix) && is_exit_name(name, prefix) {
        if name == prefix + "Initialize"@ {
            assert((prefix + "Initialize"@).len() == prefix.len() + 10);
            assert((prefix + "Exit"@).len() == prefix.len() + 4);
        } else {
            assert((prefix + "Init"@)[prefix.len() as int] == 'I');
            assert((prefix + "Exit"@)[prefix.len() as int] == 'E');
        }
    }
}

/// The first declaration whose name is the exact init name (when
/// `want_init` holds) or the exact exit name (otherwise), if any:
/// with duplicate matches, the first one encountered wins.
pub open spec fn find_named(
    s: Seq<RawDeclaration>,
    prefix: Seq<char>,
    want_init: bool,
) -> Option<RawDeclaration>
    decreases s.len(),
{
    if s.len() == 0 {
        None::<RawDeclaration>
    } else if (if want_init {
        is_init_name(s[0].name@, prefix)
    } else {
        is_exit_name(s[0].name@, prefix)
    }) {
        Some(s[0])
    } else {
        find_named(s.skip(1), prefix, want_init)
    }
}

/// The init member the classifier selects, if any.
pub open spec fn find_init(s: Seq<RawDeclaration>, prefix: Seq<char>) -> Option<RawDeclaration> {
    find_named(s, prefix, true)
}

/// The exit member the classifier selects, if any.
pub open spec fn find_exit(s: Seq<RawDeclaration>, prefix: Seq<char>) -> Option<RawDeclaration> {
    find_named(s, prefix, false)
}

/// How the first match extends when one declaration is appended.
pub proof fn lemma_find_named_push(
    s: Seq<RawDeclaration>,
    d: RawDeclaration,
    prefix: Seq<char>,
    want_init: bool,
)
    ensures
        find_named(s.push(d), prefix, want_init) == (if find_named(s, prefix, want_init) is Some {
            find_named(s, prefix, want_init)
        } else if (if want_init {
            is_init_name(d.name@, prefix)
        } else {
            is_exit_name(d.name@, prefix)
        }) {
            Some(d)
        } else {
            None::<RawDeclaration>
        }),
    decreases s.len(),
{
    let t = s.push(d);
    let matches_d = if want_init {
        is_init_name(d.name@, prefix)
    } else {
        is_exit_name(d.name@, prefix)
    };
    if s.len() == 0 {
        assert(t.len() == 1);
        assert(t[0] == d);
        assert(t.skip(1) =~= Seq::<RawDeclaration>::empty());
        if matches_d {
            assert(find_named(t, prefix, want_init) == Some(d));
        } else {
            assert(find_named(t, prefix, want_init) == find_named(
                Seq::<RawDeclaration>::empty(),
                prefix,
                want_init,
            ));
        }
    } else {
        assert(t[0] == s[0]);
        assert(t.skip(1) =~= s.skip(1).push(d));
        let matches_0 = if want_init {
            is_init_name(s[0].name@, prefix)
        } else {
            is_exit_name(s[0].name@, prefix)
        };
        if matches_0 {
            assert(find_named(t, prefix, want_init) == Some(s[0]));
            assert(find_named(s, prefix, want_init) == Some(s[0]));
        } else {
            assert(find_named(t, prefix, want_init) == find_named(
                s.skip(1).push(d),
                prefix,
                want_init,
            ));
            assert(find_named(s, prefix, want_init) == find_named(s.skip(1), prefix, want_init));
            lemma_find_named_push(s.skip(1), d, prefix, want_init);
        }
    }
}

/// The declarations that are neither init-named nor exit-named, in order.
/// Every declaration matching a lifecycle name pattern is kept out of the
/// call set, so a duplicate lifecycle match is dropped, not re-exposed.
pub open spec fn service_calls(s: Seq<RawDeclaration>, prefix: Seq<char>) -> Seq<RawDeclaration>
    decreases s.len(),
{
    if s.len() == 0 {
        Seq::<RawDeclaration>::empty()
    } else {
        let rest = service_calls(s.drop_last(), prefix);
        if is_lifecycle_name(s.last().name@, prefix) {
            rest
        } else {
            rest.push(s.last())
        }
    }
}

/// The call set inherits the prefix property of its source sequence.
pub proof fn lemma_calls_prefix(s: Seq<RawDeclaration>, prefix: Seq<char>)
    requires
        forall|i: int| 0 <= i < s.len() ==> has_prefix(#[trigger] s[i], prefix),
    ensures
        forall|i: int|
            0 <= i < service_calls(s, prefix).len() ==> has_prefix(
                #[trigger] service_calls(s, prefix)[i],
                prefix,
            ),
    decreases s.len(),
{
    if s.len() > 0 {
        assert(forall|i: int| 0 <= i < s.drop_last().len() ==> has_prefix(#[trigger] s.drop_last()[i], prefix));
        lemma_calls_prefix(s.drop_last(), prefix);
        let rest = service_calls(s.drop_last(), prefix);
        if !is_lifecycle_name(s.last().name@, prefix) {
            assert(has_prefix(s.last(), prefix)) by {
                assert(s[s.len() - 1] == s.last());
            }
            assert forall|i: int| 0 <= i < service_calls(s, prefix).len() implies has_prefix(
                service_calls(s, prefix)[i],
                prefix,
            ) by {
                if i < rest.len() {
                    assert(service_calls(s, prefix)[i] == rest[i]);
                } else {
                    assert(service_calls(s, prefix)[i] == s.last());
                }
            }
        }
    }
}

/// Whether this name is the exact init name for the prefix.
fn name_is_init(name: &str, prefix: &str) -> (r: bool)
    ensures
        r == is_init_name(name@, prefix@),
{
    let full = crate::text::concat_str(prefix, "Initialize");
    if str_eq(name, full.as_str()) {
        return true;
    }
    let short = crate::text::concat_str(prefix, "Init");
    str_eq(name, short.as_str())
}

/// Whether this name is the exact exit name for the prefix.
fn name_is_exit(name: &str, prefix: &str) -> (r: bool)
    ensures
        r == is_exit_name(name@, prefix@),
{
    let full = crate::text::concat_str(prefix, "Exit");
    str_eq(name, full.as_str())
}

/// Scans the filtered declarations once and forms the service group.
/// The first declaration matching the exact init (or exit) name wins;
/// later duplicates are dropped. If either lifecycle member is missing
/// the run fails: a service with no lifecycle pair cannot be emitted,
/// so an empty match set fails the same way.
pub fn classify(decls: Vec<RawDeclaration>, prefix: &str) -> (r: Result<ServiceGroup, GenError>)
    ensures
        match r {
            Ok(g) => {
                &&& find_init(decls@, prefix@) == Some(g.init)
                &&& find_exit(decls@, prefix@) == Some(g.exit)
                &&& g.calls@ == service_calls(decls@, prefix@)
            },
            Err(e) => {
                &&& e == GenError::NoLifecyclePair
                &&& (find_init(decls@, prefix@) is None || find_exit(decls@, prefix@) is None)
            },
        },
{
    let ghost orig = decls@;
    let mut rest = decls;
    let mut init: Option<RawDeclaration> = None;
    let mut exit: Option<RawDeclaration> = None;
    let mut calls: Vec<RawDeclaration> = Vec::new();
    let ghost mut done: int = 0;
    while rest.len() > 0
        invariant
            0 <= done <= orig.len(),
            rest@ == orig.skip(done),
            init == find_init(orig.take(done), prefix@),
            exit == find_exit(orig.take(done), prefix@),
            calls@ == service_calls(orig.take(done), prefix@),
        decreases rest.len(),
    {
        let d = rest.remove(0);
        proof {
            assert(d == orig[done]);
            assert(orig.skip(done).remove(0) =~= orig.skip(done + 1));
            assert(orig.take(done + 1).drop_last() =~= orig.take(done));
            assert(orig.take(done + 1) =~= orig.take(done).push(orig[done]));
            lemma_find_named_push(orig.take(done), d, prefix@, true);
            lemma_find_named_push(orig.take(done), d, prefix@, false);
            lemma_init_exit_disjoint(d.name@, prefix@);
        }
        if name_is_init(d.name.as_str(), prefix) {
            if init.is_none() {
                init = Some(d);
            }
        } else if name_is_exit(d.name.as_str(), prefix) {
            if exit.is_none() {
                exit = Some(d);
            }
        } else {
            calls.push(d);
        }
        proof {
            done = done + 1;
        }
    }
    proof {
        assert(orig.take(done) =~= orig);
    }
    match (init, exit) {
        (Some(i), Some(e)) => Ok(ServiceGroup { init: i, exit: e, calls }),
        _ => Err(GenError::NoLifecyclePair),
    }
}

/// When a sequence holds exactly one init-named declaration, the
/// classifier selects that declaration, whatever its position.
pub proof fn lemma_find_init_unique(s: Seq<RawDeclaration>, prefix: Seq<char>, k: int)
    requires
        0 <= k < s.len(),
        is_init_name(s[k].name@, prefix),
        forall|i: int| 0 <= i < s.len() && i != k ==> !is_init_name(#[trigger] s[i].name@, prefix),
    ensures
        find_init(s, prefix) == Some(s[k]),
    decreases s.len(),
{
    if k == 0 {
    } else {
        assert(!is_init_name(s[0].name@, prefix));
        assert(forall|i: int|
            0 <= i < s.skip(1).len() && i != k - 1 ==> !is_init_name(
                #[trigger] s.skip(1)[i].name@,
                prefix,
            ));
        assert(s.skip(1)[k - 1] == s[k]);
        lemma_find_init_unique(s.skip(1), prefix, k - 1);
    }
}

/// The same, for the exit member.
pub proof fn lemma_find_exit_unique(s: Seq<RawDeclaration>, prefix: Seq<char>, k: int)
    requires
        0 <= k < s.len(),
        is_exit_name(s[k].name@, prefix),
        forall|i: int| 0 <= i < s.len() && i != k ==> !is_exit_name(#[trigger] s[i].name@, prefix),
    ensures
        find_exit(s, prefix) == Some(s[k]),
    decreases s.len(),
{
    if k == 0 {
    } else {
        assert(!is_exit_name(s[0].name@, prefix));
        assert(forall|i: int|
            0 <= i < s.skip(1).len() && i != k - 1 ==> !is_exit_name(
                #[trigger] s.skip(1)[i].name@,
                prefix,
            ));
        assert(s.skip(1)[k - 1] == s[k]);
        lemma_find_exit_unique(s.skip(1), prefix, k - 1);
    }
}

} // verus!
