//! The type mapper: converts a C type descriptor into a target-language
//! type expression, and accumulates the names that fall outside the
//! built-in table so the emitted module can re-export them.

use vstd::prelude::*;
use crate::decl::TypeDesc;
use crate::text::{starts_with, str_eq, str_starts_with};

verus! {

/// Names the table passes through unchanged and never re-exports.
pub open spec fn is_identity_name(b: Seq<char>) -> bool {
    ||| b == "u8"@
    ||| b == "u16"@
    ||| b == "u32"@
    ||| b == "u64"@
    ||| b == "i8"@
    ||| b == "i16"@
    ||| b == "i32"@
    ||| b == "i64"@
    ||| b == "char"@
    ||| b == "const char"@
}

/// The exact-name, case-sensitive mapping table applied to a base name.
/// `Result` becomes the status-wrapper newtype, `int` the signed 32-bit
/// type, `void` the unit type; every other name passes through unchanged.
pub open spec fn mapped_base(b: Seq<char>) -> Seq<char> {
    if b == "Result"@ {
        "LibraryResult"@
    } else if b == "int"@ {
        "i32"@
    } else if b == "void"@ {
        "()"@
    } else {
        b
    }
}

/// A base name outside the whole table: identity-mapped, and recorded so
/// the emitted module re-exports it from the raw layer.
pub open spec fn needs_export(b: Seq<char>) -> bool {
    b != "Result"@ && b != "int"@ && b != "void"@ && !is_identity_name(b)
}

/// The full rendering of a descriptor. When the mapped name itself begins
/// with the const marker, the type is an immutable raw pointer to the
/// rest of that name: the name's own const-ness decides mutability, and a
/// double `const` is avoided. Otherwise the descriptor's flags decide:
/// a const pointer renders immutably, a plain pointer mutably, and a
/// non-pointer renders the mapped name alone.
pub open spec fn rendered_type(t: TypeDesc) -> Seq<char> {
    let m = mapped_base(t.base_name@);
    if starts_with(m, "const "@) {
        "*const "@ + m.skip("const "@.len() as int)
    } else if t.is_pointer && t.is_const {
        "*const "@ + m
    } else if t.is_pointer {
        "*mut "@ + m
    } else {
        m
    }
}

/// Adds `n` to the accumulated names unless it is already there.
pub open spec fn record_name(s: Seq<Seq<char>>, n: Seq<char>) -> Seq<Seq<char>> {
    if s.contains(n) {
        s
    } else {
        s.push(n)
    }
}

/// The export names after one descriptor has been mapped.
pub open spec fn exports_of_type(s: Seq<Seq<char>>, t: TypeDesc) -> Seq<Seq<char>> {
    if needs_export(t.base_name@) {
        record_name(s, t.base_name@)
    } else {
        s
    }
}

/// The set of distinct unmapped type names referenced so far, in first-
/// reference order.
pub struct ExportSet {
    names: Vec<String>,
}

impl View for ExportSet {
    type V = Seq<Seq<char>>;

    closed spec fn view(&self) -> Seq<Seq<char>> {
        self.names@.map_values(|s: String| s@)
    }
}

impl ExportSet {
    /// The accumulated names hold no duplicates.
    pub open spec fn wf(self) -> bool {
        forall|i: int, j: int| 0 <= i < j < self@.len() ==> self@[i] != self@[j]
    }

    /// An empty accumulator.
    pub fn new() -> (r: ExportSet)
        ensures
            r@ == Seq::<Seq<char>>::empty(),
            r.wf(),
    {
        let r = ExportSet { names: Vec::new() };
        proof {
            assert(r@ =~= Seq::<Seq<char>>::empty());
        }
        r
    }

    /// How many distinct names have been recorded.
    pub fn len(&self) -> (r: usize)
        ensures
            r == self@.len(),
    {
        self.names.len()
    }

    /// The recorded name at position `i`.
    pub fn get(&self, i: usize) -> (r: &String)
        requires
            i < self@.len(),
        ensures
            r@ == self@[i as int],
    {
        &self.names[i]
    }

    /// Records one referenced name, keeping the accumulation idempotent:
    /// a name already present is not added again.
    pub fn record(&mut self, name: &str)
        requires
            old(self).wf(),
        ensures
            final(self).wf(),
            final(self)@ == record_name(old(self)@, name@),
    {
        let n = self.names.len();
        let mut i: usize = 0;
        while i < n
            invariant
                i <= n,
                n == self@.len(),
                self@ == old(self)@,
                self.wf(),
                self.names == old(self).names,
                forall|j: int| 0 <= j < i ==> self@[j] != name@,
            decreases n - i,
        {
            if str_eq(self.names[i].as_str(), name) {
                assert(self@.contains(name@)) by {
                    assert(self@[i as int] == name@);
                }
                return ;
            }
            i += 1;
        }
        assert(!self@.contains(name@));
        let ghost before = self@;
        self.names.push(name.to_owned());
        proof {
            assert(self@ =~= before.push(name@));
            assert forall|i2: int, j2: int| 0 <= i2 < j2 < self@.len() implies self@[i2]
                != self@[j2] by {
                if j2 == self@.len() - 1 {
                    assert(!before.contains(self@[j2]));
                    assert(before[i2] == self@[i2]);
                }
            }
        }
    }
}

/// Whether the exec name falls outside the whole mapping table.
pub fn base_needs_export(b: &str) -> (r: bool)
    ensures
        r == needs_export(b@),
{
    !str_eq(b, "Result") && !str_eq(b, "int") && !str_eq(b, "void") && !str_eq(b, "u8") && !str_eq(
        b,
        "u16",
    ) && !str_eq(b, "u32") && !str_eq(b, "u64") && !str_eq(b, "i8") && !str_eq(b, "i16") && !str_eq(
        b,
        "i32",
    ) && !str_eq(b, "i64") && !str_eq(b, "char") && !str_eq(b, "const char")
}

/// Applies the mapping table to a base name.
pub fn map_base(b: &str) -> (r: String)
    ensures
        r@ == mapped_base(b@),
{
    if str_eq(b, "Result") {
        "LibraryResult".to_owned()
    } else if str_eq(b, "int") {
        "i32".to_owned()
    } else if str_eq(b, "void") {
        "()".to_owned()
    } else {
        b.to_owned()
    }
}

/// Maps one descriptor to its target type expression, recording the base
/// name in `exports` when it is not covered by the table.
pub fn map_type(t: &TypeDesc, exports: &mut ExportSet) -> (r: String)
    requires
        old(exports).wf(),
    ensures
        final(exports).wf(),
        r@ == rendered_type(*t),
        final(exports)@ == exports_of_type(old(exports)@, *t),
{
    if base_needs_export(t.base_name.as_str()) {
        exports.record(t.base_name.as_str());
    }
    let m = map_base(t.base_name.as_str());
    if str_starts_with(m.as_str(), "const ") {
        proof {
            reveal_strlit("const ");
        }
        let rest = m.as_str().substring_char(6, m.as_str().unicode_len());
        proof {
            assert(rest@ =~= mapped_base(t.base_name@).skip("const "@.len() as int));
        }
        crate::text::concat_str("*const ", rest)
    } else if t.is_pointer && t.is_const {
        crate::text::concat_str("*const ", m.as_str())
    } else if t.is_pointer {
        crate::text::concat_str("*mut ", m.as_str())
    } else {
        m
    }
}

/// The status type maps to the status-wrapper newtype whatever the
/// pointer and const flags on the descriptor say, in parameter position
/// and in return position alike: the flags only decide which pointer
/// shape wraps the `LibraryResult` name.
pub proof fn lemma_result_maps_to_wrapper(t: TypeDesc)
    requires
        t.base_name@ == "Result"@,
    ensures
        mapped_base(t.base_name@) == "LibraryResult"@,
        rendered_type(t) == if t.is_pointer && t.is_const {
            "*const "@ + "LibraryResult"@
        } else if t.is_pointer {
            "*mut "@ + "LibraryResult"@
        } else {
            "LibraryResult"@
        },
        !needs_export(t.base_name@),
{
    reveal_strlit("LibraryResult");
    reveal_strlit("const ");
    assert(!starts_with("LibraryResult"@, "const "@)) by {
        assert("LibraryResult"@[0] == 'L');
        assert("const "@[0] == 'c');
    }
}

} // verus!
