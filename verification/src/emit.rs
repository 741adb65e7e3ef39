//! The code emitter: assembles transformed names, mapped types and
//! argument lists into wrapper source text. Two shapes are produced:
//! plain stubs for bindings to be filled in by hand, and the service
//! shape, which wraps forwarding functions inside a lifecycle-pairing
//! `handle!` construct. Every referenced name outside the mapping table
//! is re-exported at the end so the emitted module is self-contained.

use vstd::prelude::*;
use crate::decl::{Param, RawDeclaration, ServiceGroup, TypeDesc};
use crate::mapping::{exports_of_type, mapped_base, map_base, map_type, rendered_type, ExportSet};
use crate::ident::{transform_ident, transformed_ident};
use crate::text::{starts_with, str_eq, str_starts_with};

verus! {

/// The signature tail for the parameters: one `, name: TYPE` piece per
/// parameter, appended after the implicit `&mut self` receiver.
pub open spec fn params_text(ps: Seq<Param>) -> Seq<char>
    decreases ps.len(),
{
    if ps.len() == 0 {
        Seq::<char>::empty()
    } else {
        params_text(ps.drop_last()) + ", "@ + ps.last().name@ + ": "@ + rendered_type(
            ps.last().ty,
        )
    }
}

/// The forwarded argument list: the original parameter names, unchanged,
/// comma-separated.
pub open spec fn args_text(ps: Seq<Param>) -> Seq<char>
    decreases ps.len(),
{
    if ps.len() == 0 {
        Seq::<char>::empty()
    } else if ps.len() == 1 {
        ps[0].name@
    } else {
        args_text(ps.drop_last()) + ", "@ + ps.last().name@
    }
}

/// Whether a wrapper signature carries a return type at all: a missing
/// return and a plain `void` return are both omitted entirely.
pub open spec fn has_mapped_ret(r: Option<TypeDesc>) -> bool {
    match r {
        None => false,
        Some(t) => !(t.base_name@ == "void"@ && !t.is_pointer),
    }
}

/// The rendered return annotation, empty when none is emitted.
pub open spec fn ret_text(r: Option<TypeDesc>) -> Seq<char> {
    match r {
        None => Seq::<char>::empty(),
        Some(t) => if t.base_name@ == "void"@ && !t.is_pointer {
            Seq::<char>::empty()
        } else {
            " -> "@ + rendered_type(t)
        },
    }
}

/// The default-constructed argument for one lifecycle parameter: a
/// const-aware null for pointers, the default value otherwise.
pub open spec fn default_arg(t: TypeDesc) -> Seq<char> {
    let m = mapped_base(t.base_name@);
    if starts_with(m, "const "@) || (t.is_pointer && t.is_const) {
        "std::ptr::null()"@
    } else if t.is_pointer {
        "std::ptr::null_mut()"@
    } else {
        "Default::default()"@
    }
}

/// The synthesized argument list for an init or exit call.
pub open spec fn default_args_text(ps: Seq<Param>) -> Seq<char>
    decreases ps.len(),
{
    if ps.len() == 0 {
        Seq::<char>::empty()
    } else if ps.len() == 1 {
        default_arg(ps[0].ty)
    } else {
        default_args_text(ps.drop_last()) + ", "@ + default_arg(ps.last().ty)
    }
}

/// The pattern that recognises a successful init call: the literal `0`
/// when the raw return type is the status-result type, a wildcard for
/// any other (or absent) return type.
pub open spec fn init_pattern(r: Option<TypeDesc>) -> Seq<char> {
    match r {
        Some(t) => if t.base_name@ == "Result"@ && !t.is_pointer {
            "0"@
        } else {
            "_"@
        },
        None => "_"@,
    }
}

/// One forwarding function inside the service construct: the transformed
/// display name over the mapped signature, a body that invokes the
/// foreign declaration by its original name with the original argument
/// names, and a conversion of the raw result into the wrapper's return
/// type whenever one is emitted.
pub open spec fn forwarder_text(d: RawDeclaration, prefix: Seq<char>) -> Seq<char> {
    "    pub fn "@ + transformed_ident(d.name@, prefix) + "(&mut self"@ + params_text(d.params@)
        + ")"@ + ret_text(d.ret) + " {\n        unsafe { sys::"@ + d.name@ + "("@ + args_text(
        d.params@,
    ) + ") }"@ + (if has_mapped_ret(d.ret) {
        ".into()"@
    } else {
        Seq::<char>::empty()
    }) + "\n    }\n"@
}

/// The forwarding functions for all calls, blank-line separated.
pub open spec fn forwarders_text(calls: Seq<RawDeclaration>, prefix: Seq<char>) -> Seq<char>
    decreases calls.len(),
{
    if calls.len() == 0 {
        Seq::<char>::empty()
    } else if calls.len() == 1 {
        forwarder_text(calls[0], prefix)
    } else {
        forwarders_text(calls.drop_last(), prefix) + "\n"@ + forwarder_text(calls.last(), prefix)
    }
}

/// One stub: the same signature shape, with a not-yet-implemented body,
/// used when sketching bindings to be filled in by hand.
pub open spec fn stub_text(d: RawDeclaration, prefix: Seq<char>) -> Seq<char> {
    "pub fn "@ + transformed_ident(d.name@, prefix) + "(&mut self"@ + params_text(d.params@) + ")"@
        + ret_text(d.ret) + " {\n    unimplemented!()\n}\n"@
}

/// The stub functions for all surviving declarations, blank-line
/// separated.
pub open spec fn stubs_text(calls: Seq<RawDeclaration>, prefix: Seq<char>) -> Seq<char>
    decreases calls.len(),
{
    if calls.len() == 0 {
        Seq::<char>::empty()
    } else if calls.len() == 1 {
        stub_text(calls[0], prefix)
    } else {
        stubs_text(calls.drop_last(), prefix) + "\n"@ + stub_text(calls.last(), prefix)
    }
}

/// The export names accumulated over one parameter list, left to right.
pub open spec fn exports_of_params(s: Seq<Seq<char>>, ps: Seq<Param>) -> Seq<Seq<char>>
    decreases ps.len(),
{
    if ps.len() == 0 {
        s
    } else {
        exports_of_type(exports_of_params(s, ps.drop_last()), ps.last().ty)
    }
}

/// The export names after one declaration: its parameters in order, then
/// its return type.
pub open spec fn exports_of_decl(s: Seq<Seq<char>>, d: RawDeclaration) -> Seq<Seq<char>> {
    let after = exports_of_params(s, d.params@);
    match d.ret {
        Some(t) => exports_of_type(after, t),
        None => after,
    }
}

/// The export names referenced across all emitted declarations.
pub open spec fn exports_of_calls(s: Seq<Seq<char>>, calls: Seq<RawDeclaration>) -> Seq<Seq<char>>
    decreases calls.len(),
{
    if calls.len() == 0 {
        s
    } else {
        exports_of_decl(exports_of_calls(s, calls.drop_last()), calls.last())
    }
}

/// One re-export line per accumulated name, in first-reference order.
pub open spec fn export_lines(names: Seq<Seq<char>>) -> Seq<char>
    decreases names.len(),
{
    if names.len() == 0 {
        Seq::<char>::empty()
    } else {
        export_lines(names.drop_last()) + "pub use sys::"@ + names.last() + ";\n"@
    }
}

/// The whole service-mode output: the import line, the lifecycle-pairing
/// construct naming the init and exit calls with synthesized default
/// arguments, the forwarding functions, the closing marker, and the
/// re-export block.
pub open spec fn service_text(
    init: RawDeclaration,
    exit: RawDeclaration,
    calls: Seq<RawDeclaration>,
    prefix: Seq<char>,
) -> Seq<char> {
    "use crate::macros::handle;\n\nhandle!("@ + init_pattern(init.ret) + " in "@ + init.name@
        + "("@ + default_args_text(init.params@) + "), "@ + exit.name@ + "("@ + default_args_text(
        exit.params@,
    ) + "), {\n"@ + forwarders_text(calls, prefix) + "});\n"@ + export_lines(
        exports_of_calls(Seq::<Seq<char>>::empty(), calls),
    )
}

/// The whole stub-mode output: the stubs, then the re-export block.
pub open spec fn stubs_output(calls: Seq<RawDeclaration>, prefix: Seq<char>) -> Seq<char> {
    stubs_text(calls, prefix) + export_lines(exports_of_calls(Seq::<Seq<char>>::empty(), calls))
}

/// A declaration's signature references the base name `n`.
pub open spec fn decl_references(d: RawDeclaration, n: Seq<char>) -> bool {
    (exists|j: int| 0 <= j < d.params@.len() && (#[trigger] d.params@[j]).ty.base_name@ == n) || (
    d.ret is Some && d.ret->0.base_name@ == n)
}

/// Some emitted declaration references the base name `n`.
pub open spec fn some_decl_references(calls: Seq<RawDeclaration>, n: Seq<char>) -> bool {
    exists|i: int| 0 <= i < calls.len() && decl_references(#[trigger] calls[i], n)
}

/// The accumulated names hold no duplicates.
pub open spec fn no_dup_names(s: Seq<Seq<char>>) -> bool {
    forall|i: int, j: int| 0 <= i < j < s.len() ==> s[i] != s[j]
}

/// Recording one name keeps membership exact.
proof fn lemma_record_name_member(s: Seq<Seq<char>>, n: Seq<char>, m: Seq<char>)
    ensures
        crate::mapping::record_name(s, n).contains(m) <==> (s.contains(m) || m == n),
{
    let r = crate::mapping::record_name(s, n);
    if s.contains(n) {
        assert(r == s);
    } else {
        assert(r == s.push(n));
        if r.contains(m) && m != n {
            let i = choose|i: int| 0 <= i < r.len() && r[i] == m;
            assert(s[i] == m);
        }
        if s.contains(m) {
            let i = choose|i: int| 0 <= i < s.len() && s[i] == m;
            assert(r[i] == m);
        }
        assert(r[s.len() as int] == n);
    }
}

/// Recording one name adds no duplicate.
proof fn lemma_record_name_nodup(s: Seq<Seq<char>>, n: Seq<char>)
    requires
        no_dup_names(s),
    ensures
        no_dup_names(crate::mapping::record_name(s, n)),
{
    let r = crate::mapping::record_name(s, n);
    if !s.contains(n) {
        assert forall|i: int, j: int| 0 <= i < j < r.len() implies r[i] != r[j] by {
            if j == r.len() - 1 {
                assert(r[i] == s[i]);
            }
        }
    }
}

/// Membership through one parameter list.
proof fn lemma_exports_of_params_member(s: Seq<Seq<char>>, ps: Seq<Param>, m: Seq<char>)
    ensures
        exports_of_params(s, ps).contains(m) <==> (s.contains(m) || (
        crate::mapping::needs_export(m) && exists|j: int|
            0 <= j < ps.len() && (#[trigger] ps[j]).ty.base_name@ == m)),
    decreases ps.len(),
{
    if ps.len() > 0 {
        lemma_exports_of_params_member(s, ps.drop_last(), m);
        let mid = exports_of_params(s, ps.drop_last());
        let t = ps.last().ty;
        if crate::mapping::needs_export(t.base_name@) {
            lemma_record_name_member(mid, t.base_name@, m);
        }
        if mid.contains(m) && !s.contains(m) {
            let j = choose|j: int|
                0 <= j < ps.drop_last().len() && (#[trigger] ps.drop_last()[j]).ty.base_name@ == m;
            assert(ps[j] == ps.drop_last()[j]);
            assert((#[trigger] ps[j]).ty.base_name@ == m);
        }
        if t.base_name@ == m {
            assert(ps[ps.len() - 1].ty.base_name@ == m);
        }
        if !exports_of_params(s, ps).contains(m) && crate::mapping::needs_export(m) && (exists|
        j: int|
            0 <= j < ps.len() && (#[trigger] ps[j]).ty.base_name@ == m) {
            let j = choose|j: int| 0 <= j < ps.len() && (#[trigger] ps[j]).ty.base_name@ == m;
            if j < ps.len() - 1 {
                assert(ps.drop_last()[j] == ps[j]);
                assert(mid.contains(m));
            } else {
                assert(t.base_name@ == m);
            }
            assert(false);
        }
    }
}

/// Distinctness through one parameter list.
proof fn lemma_exports_of_params_nodup(s: Seq<Seq<char>>, ps: Seq<Param>)
    requires
        no_dup_names(s),
    ensures
        no_dup_names(exports_of_params(s, ps)),
    decreases ps.len(),
{
    if ps.len() > 0 {
        lemma_exports_of_params_nodup(s, ps.drop_last());
        let mid = exports_of_params(s, ps.drop_last());
        if crate::mapping::needs_export(ps.last().ty.base_name@) {
            lemma_record_name_nodup(mid, ps.last().ty.base_name@);
        }
    }
}

/// Membership through one declaration.
proof fn lemma_exports_of_decl_member(s: Seq<Seq<char>>, d: RawDeclaration, m: Seq<char>)
    ensures
        exports_of_decl(s, d).contains(m) <==> (s.contains(m) || (crate::mapping::needs_export(m)
            && decl_references(d, m))),
{
    lemma_exports_of_params_member(s, d.params@, m);
    let mid = exports_of_params(s, d.params@);
    match d.ret {
        Some(t) => {
            if crate::mapping::needs_export(t.base_name@) {
                lemma_record_name_member(mid, t.base_name@, m);
            }
        },
        None => {},
    }
}

/// Distinctness through one declaration.
proof fn lemma_exports_of_decl_nodup(s: Seq<Seq<char>>, d: RawDeclaration)
    requires
        no_dup_names(s),
    ensures
        no_dup_names(exports_of_decl(s, d)),
{
    lemma_exports_of_params_nodup(s, d.params@);
    let mid = exports_of_params(s, d.params@);
    match d.ret {
        Some(t) => {
            if crate::mapping::needs_export(t.base_name@) {
                lemma_record_name_nodup(mid, t.base_name@);
            }
        },
        None => {},
    }
}

/// Membership through the whole call sequence.
proof fn lemma_exports_of_calls_member(s: Seq<Seq<char>>, calls: Seq<RawDeclaration>, m: Seq<char>)
    ensures
        exports_of_calls(s, calls).contains(m) <==> (s.contains(m) || (
        crate::mapping::needs_export(m) && some_decl_references(calls, m))),
    decreases calls.len(),
{
    if calls.len() == 0 {
        assert(!some_decl_references(calls, m));
    } else {
        lemma_exports_of_calls_member(s, calls.drop_last(), m);
        let mid = exports_of_calls(s, calls.drop_last());
        lemma_exports_of_decl_member(mid, calls.last(), m);
        if mid.contains(m) && !s.contains(m) {
            let i = choose|i: int|
                0 <= i < calls.drop_last().len() && decl_references(
                    #[trigger] calls.drop_last()[i],
                    m,
                );
            assert(calls[i] == calls.drop_last()[i]);
            assert(decl_references(#[trigger] calls[i], m));
        }
        if decl_references(calls.last(), m) {
            assert(decl_references(#[trigger] calls[calls.len() - 1], m));
        }
        if !exports_of_calls(s, calls).contains(m) && crate::mapping::needs_export(m)
            && some_decl_references(calls, m) {
            let i = choose|i: int| 0 <= i < calls.len() && decl_references(#[trigger] calls[i], m);
            if i < calls.len() - 1 {
                assert(calls.drop_last()[i] == calls[i]);
                assert(decl_references(#[trigger] calls.drop_last()[i], m));
                assert(mid.contains(m));
            } else {
                assert(decl_references(calls.last(), m));
            }
            assert(false);
        }
    }
}

/// Distinctness through the whole call sequence.
proof fn lemma_exports_of_calls_nodup(s: Seq<Seq<char>>, calls: Seq<RawDeclaration>)
    requires
        no_dup_names(s),
    ensures
        no_dup_names(exports_of_calls(s, calls)),
    decreases calls.len(),
{
    if calls.len() > 0 {
        lemma_exports_of_calls_nodup(s, calls.drop_last());
        lemma_exports_of_decl_nodup(exports_of_calls(s, calls.drop_last()), calls.last());
    }
}

/// The law of the export set. Over any emitted call sequence: a name the
/// mapping table covers never appears among the accumulated exports; any
/// other base name appears exactly once — it is present as soon as one
/// signature references it, however many do, and never twice.
pub proof fn lemma_export_set_exact(calls: Seq<RawDeclaration>)
    ensures
        forall|m: Seq<char>|
            #[trigger] exports_of_calls(Seq::<Seq<char>>::empty(), calls).contains(m) <==> (
            crate::mapping::needs_export(m) && some_decl_references(calls, m)),
        no_dup_names(exports_of_calls(Seq::<Seq<char>>::empty(), calls)),
{
    assert forall|m: Seq<char>|
        #[trigger] exports_of_calls(Seq::<Seq<char>>::empty(), calls).contains(m) <==> (
        crate::mapping::needs_export(m) && some_decl_references(calls, m)) by {
        lemma_exports_of_calls_member(Seq::<Seq<char>>::empty(), calls, m);
    }
    lemma_exports_of_calls_nodup(Seq::<Seq<char>>::empty(), calls);
}

/// Whether the wrapper signature carries a return type.
fn ret_is_emitted(r: &Option<TypeDesc>) -> (b: bool)
    ensures
        b == has_mapped_ret(*r),
{
    match r {
        None => false,
        Some(t) => !(str_eq(t.base_name.as_str(), "void") && !t.is_pointer),
    }
}

/// The success pattern for the init call.
fn init_pattern_exec(r: &Option<TypeDesc>) -> (s: &'static str)
    ensures
        s@ == init_pattern(*r),
{
    match r {
        Some(t) => if str_eq(t.base_name.as_str(), "Result") && !t.is_pointer {
            "0"
        } else {
            "_"
        },
        None => "_",
    }
}

/// The default-constructed argument for one lifecycle parameter.
fn default_arg_exec(t: &TypeDesc) -> (s: &'static str)
    ensures
        s@ == default_arg(*t),
{
    let m = map_base(t.base_name.as_str());
    if str_starts_with(m.as_str(), "const ") || (t.is_pointer && t.is_const) {
        "std::ptr::null()"
    } else if t.is_pointer {
        "std::ptr::null_mut()"
    } else {
        "Default::default()"
    }
}

/// Appends the signature tail for the parameters, mapping each type and
/// recording its exports.
fn push_params(out: &mut String, ps: &Vec<Param>, exports: &mut ExportSet)
    requires
        old(exports).wf(),
    ensures
        final(exports).wf(),
        final(out)@ == old(out)@ + params_text(ps@),
        final(exports)@ == exports_of_params(old(exports)@, ps@),
{
    let ghost base = out@;
    let ghost e0 = exports@;
    let mut i: usize = 0;
    while i < ps.len()
        invariant
            i <= ps@.len(),
            exports.wf(),
            out@ == base + params_text(ps@.take(i as int)),
            exports@ == exports_of_params(e0, ps@.take(i as int)),
        decreases ps@.len() - i,
    {
        proof {
            assert(ps@.take(i + 1).drop_last() =~= ps@.take(i as int));
            assert(ps@.take(i + 1).last() == ps@[i as int]);
        }
        out.append(", ");
        out.append(ps[i].name.as_str());
        out.append(": ");
        let ty = map_type(&ps[i].ty, exports);
        out.append(ty.as_str());
        proof {
            assert(out@ =~= base + params_text(ps@.take(i + 1)));
        }
        i += 1;
    }
    proof {
        assert(ps@.take(ps@.len() as int) =~= ps@);
    }
}

/// Appends the forwarded argument list: the original names, unchanged.
fn push_args(out: &mut String, ps: &Vec<Param>)
    ensures
        final(out)@ == old(out)@ + args_text(ps@),
{
    let ghost base = out@;
    let mut i: usize = 0;
    while i < ps.len()
        invariant
            i <= ps@.len(),
            out@ == base + args_text(ps@.take(i as int)),
        decreases ps@.len() - i,
    {
        proof {
            assert(ps@.take(i + 1).drop_last() =~= ps@.take(i as int));
            assert(ps@.take(i + 1).last() == ps@[i as int]);
            if i == 0 {
                assert(ps@.take(1)[0] == ps@[0]);
            }
        }
        if i > 0 {
            out.append(", ");
        }
        out.append(ps[i].name.as_str());
        proof {
            assert(out@ =~= base + args_text(ps@.take(i + 1)));
        }
        i += 1;
    }
    proof {
        assert(ps@.take(ps@.len() as int) =~= ps@);
    }
}

/// Appends the synthesized default arguments for a lifecycle call.
fn push_default_args(out: &mut String, ps: &Vec<Param>)
    ensures
        final(out)@ == old(out)@ + default_args_text(ps@),
{
    let ghost base = out@;
    let mut i: usize = 0;
    while i < ps.len()
        invariant
            i <= ps@.len(),
            out@ == base + default_args_text(ps@.take(i as int)),
        decreases ps@.len() - i,
    {
        proof {
            assert(ps@.take(i + 1).drop_last() =~= ps@.take(i as int));
            assert(ps@.take(i + 1).last() == ps@[i as int]);
            if i == 0 {
                assert(ps@.take(1)[0] == ps@[0]);
            }
        }
        if i > 0 {
            out.append(", ");
        }
        let a = default_arg_exec(&ps[i].ty);
        out.append(a);
        proof {
            assert(out@ =~= base + default_args_text(ps@.take(i + 1)));
        }
        i += 1;
    }
    proof {
        assert(ps@.take(ps@.len() as int) =~= ps@);
    }
}

/// Appends the return annotation, mapping the type and recording its
/// export when one is emitted.
fn push_ret(out: &mut String, r: &Option<TypeDesc>, exports: &mut ExportSet)
    requires
        old(exports).wf(),
    ensures
        final(exports).wf(),
        final(out)@ == old(out)@ + ret_text(*r),
        final(exports)@ == match *r {
            Some(t) => exports_of_type(old(exports)@, t),
            None => old(exports)@,
        },
{
    let ghost base = out@;
    match r {
        None => {
            proof {
                assert(out@ =~= base + ret_text(None::<TypeDesc>));
            }
        },
        Some(t) => {
            if str_eq(t.base_name.as_str(), "void") && !t.is_pointer {
                proof {
                    assert(out@ =~= base + ret_text(*r));
                }
            } else {
                out.append(" -> ");
                let ty = map_type(t, exports);
                out.append(ty.as_str());
                proof {
                    assert(out@ =~= base + ret_text(*r));
                }
            }
        },
    }
}

/// Appends one forwarding function.
fn push_forwarder(out: &mut String, d: &RawDeclaration, prefix: &str, exports: &mut ExportSet)
    requires
        old(exports).wf(),
        starts_with(d.name@, prefix@),
    ensures
        final(exports).wf(),
        final(out)@ == old(out)@ + forwarder_text(*d, prefix@),
        final(exports)@ == exports_of_decl(old(exports)@, *d),
{
    let ghost base = out@;
    out.append("    pub fn ");
    let ident = transform_ident(d.name.as_str(), prefix);
    out.append(ident.as_str());
    out.append("(&mut self");
    push_params(out, &d.params, exports);
    out.append(")");
    push_ret(out, &d.ret, exports);
    out.append(" {\n        unsafe { sys::");
    out.append(d.name.as_str());
    out.append("(");
    push_args(out, &d.params);
    out.append(") }");
    if ret_is_emitted(&d.ret) {
        out.append(".into()");
    }
    out.append("\n    }\n");
    proof {
        assert(out@ =~= base + forwarder_text(*d, prefix@));
    }
}

/// Appends one stub function.
fn push_stub(out: &mut String, d: &RawDeclaration, prefix: &str, exports: &mut ExportSet)
    requires
        old(exports).wf(),
        starts_with(d.name@, prefix@),
    ensures
        final(exports).wf(),
        final(out)@ == old(out)@ + stub_text(*d, prefix@),
        final(exports)@ == exports_of_decl(old(exports)@, *d),
{
    let ghost base = out@;
    out.append("pub fn ");
    let ident = transform_ident(d.name.as_str(), prefix);
    out.append(ident.as_str());
    out.append("(&mut self");
    push_params(out, &d.params, exports);
    out.append(")");
    push_ret(out, &d.ret, exports);
    out.append(" {\n    unimplemented!()\n}\n");
    proof {
        assert(out@ =~= base + stub_text(*d, prefix@));
    }
}

/// Appends the re-export block accumulated by the mapper.
fn push_export_lines(out: &mut String, exports: &ExportSet)
    ensures
        final(out)@ == old(out)@ + export_lines(exports@),
{
    let ghost base = out@;
    let n = exports.len();
    let mut i: usize = 0;
    while i < n
        invariant
            i <= n,
            n == exports@.len(),
            out@ == base + export_lines(exports@.take(i as int)),
        decreases n - i,
    {
        proof {
            assert(exports@.take(i + 1).drop_last() =~= exports@.take(i as int));
            assert(exports@.take(i + 1).last() == exports@[i as int]);
        }
        out.append("pub use sys::");
        out.append(exports.get(i).as_str());
        out.append(";\n");
        proof {
            assert(out@ =~= base + export_lines(exports@.take(i + 1)));
        }
        i += 1;
    }
    proof {
        assert(exports@.take(exports@.len() as int) =~= exports@);
    }
}

/// Renders the whole service-mode output for a classified group.
pub fn emit_service(g: &ServiceGroup, prefix: &str) -> (r: String)
    requires
        forall|i: int| 0 <= i < g.calls@.len() ==> starts_with(#[trigger] g.calls@[i].name@, prefix@),
    ensures
        r@ == service_text(g.init, g.exit, g.calls@, prefix@),
{
    let mut out = String::new();
    out.append("use crate::macros::handle;\n\nhandle!(");
    let pat = init_pattern_exec(&g.init.ret);
    out.append(pat);
    out.append(" in ");
    out.append(g.init.name.as_str());
    out.append("(");
    push_default_args(&mut out, &g.init.params);
    out.append("), ");
    out.append(g.exit.name.as_str());
    out.append("(");
    push_default_args(&mut out, &g.exit.params);
    out.append("), {\n");
    let ghost header = out@;
    let mut exports = ExportSet::new();
    let mut i: usize = 0;
    while i < g.calls.len()
        invariant
            i <= g.calls@.len(),
            exports.wf(),
            out@ == header + forwarders_text(g.calls@.take(i as int), prefix@),
            exports@ == exports_of_calls(Seq::<Seq<char>>::empty(), g.calls@.take(i as int)),
            forall|k: int|
                0 <= k < g.calls@.len() ==> starts_with(#[trigger] g.calls@[k].name@, prefix@),
        decreases g.calls@.len() - i,
    {
        proof {
            assert(g.calls@.take(i + 1).drop_last() =~= g.calls@.take(i as int));
            assert(g.calls@.take(i + 1).last() == g.calls@[i as int]);
            if i == 0 {
                assert(g.calls@.take(1)[0] == g.calls@[0]);
            }
        }
        if i > 0 {
            out.append("\n");
        }
        push_forwarder(&mut out, &g.calls[i], prefix, &mut exports);
        proof {
            assert(out@ =~= header + forwarders_text(g.calls@.take(i + 1), prefix@));
        }
        i += 1;
    }
    proof {
        assert(g.calls@.take(g.calls@.len() as int) =~= g.calls@);
    }
    out.append("});\n");
    push_export_lines(&mut out, &exports);
    proof {
        assert(out@ =~= service_text(g.init, g.exit, g.calls@, prefix@));
    }
    out
}

/// Renders the whole stub-mode output for the surviving declarations.
pub fn emit_stubs(decls: &Vec<RawDeclaration>, prefix: &str) -> (r: String)
    requires
        forall|i: int| 0 <= i < decls@.len() ==> starts_with(#[trigger] decls@[i].name@, prefix@),
    ensures
        r@ == stubs_output(decls@, prefix@),
{
    let mut out = String::new();
    let mut exports = ExportSet::new();
    let mut i: usize = 0;
    while i < decls.len()
        invariant
            i <= decls@.len(),
            exports.wf(),
            out@ == stubs_text(decls@.take(i as int), prefix@),
            exports@ == exports_of_calls(Seq::<Seq<char>>::empty(), decls@.take(i as int)),
            forall|k: int|
                0 <= k < decls@.len() ==> starts_with(#[trigger] decls@[k].name@, prefix@),
        decreases decls@.len() - i,
    {
        proof {
            assert(decls@.take(i + 1).drop_last() =~= decls@.take(i as int));
            assert(decls@.take(i + 1).last() == decls@[i as int]);
            if i == 0 {
                assert(decls@.take(1)[0] == decls@[0]);
            }
        }
        if i > 0 {
            out.append("\n");
        }
        push_stub(&mut out, &decls[i], prefix, &mut exports);
        proof {
            assert(out@ =~= stubs_text(decls@.take(i + 1), prefix@));
        }
        i += 1;
    }
    proof {
        assert(decls@.take(decls@.len() as int) =~= decls@);
    }
    push_export_lines(&mut out, &exports);
    proof {
        assert(out@ =~= stubs_output(decls@, prefix@));
    }
    out
}

} // verus!
