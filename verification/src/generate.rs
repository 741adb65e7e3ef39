//! The generation pipeline: filter, classify, transform, map and emit,
//! as one pure function from declarations (plus an optional prefix) to
//! the generated source text.

use vstd::prelude::*;
use crate::classify::{classify, find_exit, find_init, service_calls};
use crate::decl::{GenError, RawDeclaration};
use crate::emit::{emit_service, emit_stubs, service_text, stubs_output};
use crate::filter::{filter_by_prefix, filtered_decls, has_prefix, lemma_filtered_prefix};
use crate::classify::lemma_calls_prefix;
use crate::text::{ends_with, str_ends_with};

verus! {

/// A name that merely ends with a lifecycle suffix, whatever its length.
/// Stub emission under an active prefix drops such declarations even
/// when no lifecycle pair is being emitted, so lifecycle functions are
/// not re-exposed as ordinary calls. This is deliberately looser than
/// the exact-length match used for pairing.
pub open spec fn lifecycle_like(name: Seq<char>) -> bool {
    ends_with(name, "Initialize"@) || ends_with(name, "Exit"@)
}

/// The declarations whose names are not lifecycle-like, in order.
pub open spec fn without_lifecycle_like(s: Seq<RawDeclaration>) -> Seq<RawDeclaration>
    decreases s.len(),
{
    if s.len() == 0 {
        Seq::<RawDeclaration>::empty()
    } else {
        let rest = without_lifecycle_like(s.drop_last());
        if lifecycle_like(s.last().name@) {
            rest
        } else {
            rest.push(s.last())
        }
    }
}

/// Dropping lifecycle-like names keeps the prefix property.
pub proof fn lemma_without_lifecycle_prefix(s: Seq<RawDeclaration>, prefix: Seq<char>)
    requires
        forall|i: int| 0 <= i < s.len() ==> has_prefix(#[trigger] s[i], prefix),
    ensures
        forall|i: int|
            0 <= i < without_lifecycle_like(s).len() ==> has_prefix(
                #[trigger] without_lifecycle_like(s)[i],
                prefix,
            ),
    decreases s.len(),
{
    if s.len() > 0 {
        assert(forall|i: int|
            0 <= i < s.drop_last().len() ==> has_prefix(#[trigger] s.drop_last()[i], prefix));
        lemma_without_lifecycle_prefix(s.drop_last(), prefix);
        let rest = without_lifecycle_like(s.drop_last());
        if !lifecycle_like(s.last().name@) {
            assert(has_prefix(s.last(), prefix)) by {
                assert(s[s.len() - 1] == s.last());
            }
            assert forall|i: int|
                0 <= i < without_lifecycle_like(s).len() implies has_prefix(
                without_lifecycle_like(s)[i],
                prefix,
            ) by {
                if i < rest.len() {
                    assert(without_lifecycle_like(s)[i] == rest[i]);
                } else {
                    assert(without_lifecycle_like(s)[i] == s.last());
                }
            }
        }
    }
}

/// Keeps, in order, the declarations whose names are not lifecycle-like.
fn exclude_lifecycle_like(decls: Vec<RawDeclaration>) -> (r: Vec<RawDeclaration>)
    ensures
        r@ == without_lifecycle_like(decls@),
{
    let ghost orig = decls@;
    let mut rest = decls;
    let mut kept: Vec<RawDeclaration> = Vec::new();
    let ghost mut done: int = 0;
    while rest.len() > 0
        invariant
            0 <= done <= orig.len(),
            rest@ == orig.skip(done),
            kept@ == without_lifecycle_like(orig.take(done)),
        decreases rest.len(),
    {
        let d = rest.remove(0);
        proof {
            assert(d == orig[done]);
            assert(orig.skip(done).remove(0) =~= orig.skip(done + 1));
            assert(orig.take(done + 1).drop_last() =~= orig.take(done));
            assert(orig.take(done + 1).last() == orig[done]);
        }
        let init_like = str_ends_with(d.name.as_str(), "Initialize");
        let exit_like = str_ends_with(d.name.as_str(), "Exit");
        if !init_like && !exit_like {
            kept.push(d);
        }
        proof {
            done = done + 1;
        }
    }
    proof {
        assert(orig.take(done) =~= orig);
    }
    kept
}

/// Service-mode generation: selects the declarations carrying `prefix`,
/// classifies them into the lifecycle pair and the call set, and emits
/// the lifecycle-pairing wrapper with one forwarding function per call
/// followed by the re-export block. Fails, producing no output at all,
/// exactly when the filtered set holds no exact-named init or no
/// exact-named exit declaration; a prefix that matches nothing fails the
/// same way.
pub fn generate_service(decls: Vec<RawDeclaration>, prefix: &str) -> (r: Result<String, GenError>)
    ensures
        ({
            let f = filtered_decls(decls@, prefix@);
            match r {
                Ok(out) => {
                    &&& find_init(f, prefix@) is Some
                    &&& find_exit(f, prefix@) is Some
                    &&& out@ == service_text(
                        find_init(f, prefix@)->0,
                        find_exit(f, prefix@)->0,
                        service_calls(f, prefix@),
                        prefix@,
                    )
                },
                Err(e) => {
                    &&& e == GenError::NoLifecyclePair
                    &&& (find_init(f, prefix@) is None || find_exit(f, prefix@) is None)
                },
            }
        }),
{
    let filtered = filter_by_prefix(decls, prefix);
    let ghost f = filtered@;
    proof {
        lemma_filtered_prefix(decls@, prefix@);
        lemma_calls_prefix(f, prefix@);
    }
    match classify(filtered, prefix) {
        Ok(g) => Ok(emit_service(&g, prefix)),
        Err(e) => Err(e),
    }
}

/// Service-mode generation for the live AST front end. Pairing uses the
/// same exact-name rule, but the call set additionally drops every
/// lifecycle-like name, whatever its length: a front end that sees the
/// headers themselves must not re-expose lifecycle functions of nested
/// services as ordinary calls.
pub fn generate_service_ast(decls: Vec<RawDeclaration>, prefix: &str) -> (r: Result<
    String,
    GenError,
>)
    ensures
        ({
            let f = filtered_decls(decls@, prefix@);
            match r {
                Ok(out) => {
                    &&& find_init(f, prefix@) is Some
                    &&& find_exit(f, prefix@) is Some
                    &&& out@ == service_text(
                        find_init(f, prefix@)->0,
                        find_exit(f, prefix@)->0,
                        without_lifecycle_like(service_calls(f, prefix@)),
                        prefix@,
                    )
                },
                Err(e) => {
                    &&& e == GenError::NoLifecyclePair
                    &&& (find_init(f, prefix@) is None || find_exit(f, prefix@) is None)
                },
            }
        }),
{
    let filtered = filter_by_prefix(decls, prefix);
    let ghost f = filtered@;
    proof {
        lemma_filtered_prefix(decls@, prefix@);
        lemma_calls_prefix(f, prefix@);
    }
    match classify(filtered, prefix) {
        Ok(g) => {
            proof {
                lemma_without_lifecycle_prefix(g.calls@, prefix@);
            }
            let calls = exclude_lifecycle_like(g.calls);
            let pruned = crate::decl::ServiceGroup { init: g.init, exit: g.exit, calls };
            Ok(emit_service(&pruned, prefix))
        },
        Err(e) => Err(e),
    }
}

/// Stub-mode generation. With an active prefix the declarations carrying
/// it survive, minus every lifecycle-like name; with no prefix the whole
/// sequence survives unfiltered and names are converted without
/// truncation. One stub per surviving declaration is emitted, then the
/// re-export block. This mode has no fatal conditions: an empty
/// surviving set yields the degenerate empty output.
pub fn generate_stubs(decls: Vec<RawDeclaration>, prefix: Option<&str>) -> (r: String)
    ensures
        match prefix {
            Some(p) => r@ == stubs_output(
                without_lifecycle_like(filtered_decls(decls@, p@)),
                p@,
            ),
            None => r@ == stubs_output(decls@, Seq::<char>::empty()),
        },
{
    match prefix {
        Some(p) => {
            let filtered = filter_by_prefix(decls, p);
            proof {
                lemma_filtered_prefix(decls@, p@);
                lemma_without_lifecycle_prefix(filtered@, p@);
            }
            let kept = exclude_lifecycle_like(filtered);
            emit_stubs(&kept, p)
        },
        None => {
            proof {
                reveal_strlit("");
                assert(""@ =~= Seq::<char>::empty());
                assert forall|i: int|
                    0 <= i < decls@.len() implies crate::text::starts_with(
                    #[trigger] decls@[i].name@,
                    ""@,
                ) by {
                    assert(decls@[i].name@.subrange(0, 0) =~= ""@);
                }
            }
            emit_stubs(&decls, "")
        },
    }
}

} // verus!
