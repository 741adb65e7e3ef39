use service_gen::decl::TypeDesc;
use service_gen::ident::transform_ident;
use service_gen::mapping::{map_type, ExportSet};

fn ty(base: &str, is_pointer: bool, is_const: bool) -> TypeDesc {
    TypeDesc { base_name: base.to_string(), is_pointer, is_const }
}

fn map_fresh(t: TypeDesc) -> (String, Vec<String>) {
    let mut exports = ExportSet::new();
    let mapped = map_type(&t, &mut exports);
    let mut names = Vec::new();
    let mut i = 0;
    while i < exports.len() {
        names.push(exports.get(i).clone());
        i += 1;
    }
    (mapped, names)
}

#[test]
fn status_type_maps_to_wrapper_in_every_position() {
    assert_eq!(map_fresh(ty("Result", false, false)).0, "LibraryResult");
    assert_eq!(map_fresh(ty("Result", true, false)).0, "*mut LibraryResult");
    assert_eq!(map_fresh(ty("Result", true, true)).0, "*const LibraryResult");
}

#[test]
fn int_maps_to_signed_32_bit() {
    assert_eq!(map_fresh(ty("int", false, false)).0, "i32");
    assert_eq!(map_fresh(ty("int", true, false)).0, "*mut i32");
}

#[test]
fn void_maps_to_unit_and_pointers_to_unit() {
    assert_eq!(map_fresh(ty("void", false, false)).0, "()");
    assert_eq!(map_fresh(ty("void", true, false)).0, "*mut ()");
    assert_eq!(map_fresh(ty("void", true, true)).0, "*const ()");
}

#[test]
fn identity_names_pass_through_unexported() {
    for name in ["u8", "u16", "u32", "u64", "i8", "i16", "i32", "i64", "char"] {
        let (mapped, names) = map_fresh(ty(name, false, false));
        assert_eq!(mapped, name);
        assert!(names.is_empty());
    }
}

#[test]
fn textually_const_name_avoids_double_const() {
    let (mapped, names) = map_fresh(ty("const char", true, true));
    assert_eq!(mapped, "*const char");
    assert!(names.is_empty());
}

#[test]
fn unknown_name_is_identity_mapped_and_recorded() {
    let (mapped, names) = map_fresh(ty("MyOpaqueHandle", true, false));
    assert_eq!(mapped, "*mut MyOpaqueHandle");
    assert_eq!(names, vec!["MyOpaqueHandle".to_string()]);
}

#[test]
fn export_accumulation_is_idempotent() {
    let mut exports = ExportSet::new();
    map_type(&ty("Widget", true, false), &mut exports);
    map_type(&ty("Widget", false, false), &mut exports);
    map_type(&ty("Gadget", true, true), &mut exports);
    assert_eq!(exports.len(), 2);
    assert_eq!(exports.get(0), "Widget");
    assert_eq!(exports.get(1), "Gadget");
}

#[test]
fn transform_strips_prefix_and_snake_cases() {
    assert_eq!(transform_ident("FooDoThing", "Foo"), "do_thing");
    assert_eq!(transform_ident("FooHTTPServer", "Foo"), "http_server");
    assert_eq!(transform_ident("BarInitialize", ""), "bar_initialize");
}

#[test]
fn transform_is_pure() {
    let a = transform_ident("FooDoThing", "Foo");
    let b = transform_ident("FooDoThing", "Foo");
    assert_eq!(a, b);
    assert_ne!(a, "DoThing");
}
