use service_gen::decl::{GenError, Param, RawDeclaration, TypeDesc};
use service_gen::generate::{generate_service, generate_service_ast, generate_stubs};

fn ty(base: &str, is_pointer: bool, is_const: bool) -> TypeDesc {
    TypeDesc { base_name: base.to_string(), is_pointer, is_const }
}

fn param(name: &str, t: TypeDesc) -> Param {
    Param { name: name.to_string(), ty: t }
}

fn decl(name: &str, params: Vec<Param>, ret: Option<TypeDesc>) -> RawDeclaration {
    RawDeclaration { name: name.to_string(), params, ret }
}

#[test]
fn service_scenario_const_void_pointer() {
    let decls = vec![
        decl("FooInitialize", vec![], Some(ty("Result", false, false))),
        decl("FooExit", vec![], None),
        decl(
            "FooDoThing",
            vec![param("x", ty("void", true, true))],
            Some(ty("Result", false, false)),
        ),
    ];
    let out = generate_service(decls, "Foo").unwrap();
    let expected = "use crate::macros::handle;\n\nhandle!(0 in FooInitialize(), FooExit(), {\n    pub fn do_thing(&mut self, x: *const ()) -> LibraryResult {\n        unsafe { sys::FooDoThing(x) }.into()\n    }\n});\n";
    assert_eq!(out, expected);
    assert!(!out.contains("pub use sys::"));
}

#[test]
fn raw_stub_run_keeps_lifecycle_names() {
    let decls = vec![
        decl("BarInitialize", vec![], None),
        decl("BarExit", vec![], None),
    ];
    let out = generate_stubs(decls, None);
    let expected = "pub fn bar_initialize(&mut self) {\n    unimplemented!()\n}\n\npub fn bar_exit(&mut self) {\n    unimplemented!()\n}\n";
    assert_eq!(out, expected);
}

#[test]
fn opaque_handle_is_reexported_once() {
    let decls = vec![
        decl("FooInitialize", vec![], Some(ty("Result", false, false))),
        decl("FooExit", vec![], None),
        decl("FooOpen", vec![param("h", ty("MyOpaqueHandle", true, false))], None),
        decl("FooClose", vec![param("h", ty("MyOpaqueHandle", true, false))], None),
    ];
    let out = generate_service(decls, "Foo").unwrap();
    assert!(out.contains("h: *mut MyOpaqueHandle"));
    let line = "pub use sys::MyOpaqueHandle;\n";
    assert_eq!(out.matches(line).count(), 1);
}

#[test]
fn classification_preserves_call_order() {
    let decls = vec![
        decl("FooAlpha", vec![], None),
        decl("FooInitialize", vec![], None),
        decl("FooBeta", vec![], None),
        decl("FooExit", vec![], None),
        decl("FooGamma", vec![], None),
    ];
    let out = generate_service(decls, "Foo").unwrap();
    let a = out.find("pub fn alpha").unwrap();
    let b = out.find("pub fn beta").unwrap();
    let g = out.find("pub fn gamma").unwrap();
    assert!(a < b && b < g);
}

#[test]
fn short_init_form_is_recognised() {
    let decls = vec![
        decl("FooInit", vec![], None),
        decl("FooExit", vec![], None),
    ];
    let out = generate_service(decls, "Foo").unwrap();
    assert!(out.contains("handle!(_ in FooInit(), FooExit(), {"));
}

#[test]
fn longer_name_is_a_call_not_a_lifecycle_member() {
    let decls = vec![
        decl("FooInitialize", vec![], None),
        decl("FooExit", vec![], None),
        decl("FooBarInitialize", vec![], None),
    ];
    let out = generate_service(decls, "Foo").unwrap();
    assert!(out.contains("pub fn bar_initialize(&mut self)"));
    assert!(out.contains("unsafe { sys::FooBarInitialize() }"));
}

#[test]
fn ast_front_end_drops_lifecycle_like_calls() {
    let decls = vec![
        decl("FooInitialize", vec![], None),
        decl("FooExit", vec![], None),
        decl("FooBarInitialize", vec![], None),
        decl("FooThing", vec![], None),
    ];
    let out = generate_service_ast(decls, "Foo").unwrap();
    assert!(out.contains("pub fn thing(&mut self)"));
    assert!(!out.contains("bar_initialize"));
}

#[test]
fn duplicate_lifecycle_match_first_wins_and_is_not_a_call() {
    let decls = vec![
        decl("FooInitialize", vec![param("a", ty("int", false, false))], None),
        decl("FooInitialize", vec![], None),
        decl("FooExit", vec![], None),
    ];
    let out = generate_service(decls, "Foo").unwrap();
    assert!(out.contains("FooInitialize(Default::default())"));
    assert!(!out.contains("pub fn initialize"));
}

#[test]
fn missing_exit_aborts() {
    let decls = vec![decl("FooInitialize", vec![], None), decl("FooThing", vec![], None)];
    assert_eq!(generate_service(decls, "Foo"), Err(GenError::NoLifecyclePair));
}

#[test]
fn empty_match_set_aborts_in_service_mode() {
    let decls = vec![decl("QuxThing", vec![], None)];
    assert_eq!(generate_service(decls, "Foo"), Err(GenError::NoLifecyclePair));
}

#[test]
fn filter_drops_foreign_prefixes() {
    let decls = vec![
        decl("FooInitialize", vec![], None),
        decl("FooExit", vec![], None),
        decl("QuxThing", vec![], None),
    ];
    let out = generate_service(decls, "Foo").unwrap();
    assert!(!out.contains("QuxThing"));
}

#[test]
fn prefixed_stub_run_drops_lifecycle_like_names() {
    let decls = vec![
        decl("FooInitialize", vec![], None),
        decl("FooExit", vec![], None),
        decl("FooBarInitialize", vec![], None),
        decl("FooThing", vec![], None),
        decl("QuxThing", vec![], None),
    ];
    let out = generate_stubs(decls, Some("Foo"));
    let expected = "pub fn thing(&mut self) {\n    unimplemented!()\n}\n";
    assert_eq!(out, expected);
}

#[test]
fn init_defaults_are_const_aware() {
    let decls = vec![
        decl(
            "FooInitialize",
            vec![
                param("n", ty("int", false, false)),
                param("buf", ty("Buf", true, false)),
                param("cfg", ty("Cfg", true, true)),
            ],
            Some(ty("Result", false, false)),
        ),
        decl("FooExit", vec![], None),
    ];
    let out = generate_service(decls, "Foo").unwrap();
    assert!(out.contains(
        "handle!(0 in FooInitialize(Default::default(), std::ptr::null_mut(), std::ptr::null()), FooExit(), {"
    ));
    // Lifecycle parameters are synthesized, not emitted: their type names
    // are not re-exported.
    assert!(!out.contains("pub use sys::Buf;"));
    assert!(!out.contains("pub use sys::Cfg;"));
}

#[test]
fn non_status_init_return_pattern_is_wildcard() {
    let decls = vec![
        decl("FooInitialize", vec![], Some(ty("u32", false, false))),
        decl("FooExit", vec![], None),
    ];
    let out = generate_service(decls, "Foo").unwrap();
    assert!(out.contains("handle!(_ in FooInitialize(), FooExit(), {"));
}

#[test]
fn void_return_is_omitted_and_result_is_not_converted() {
    let decls = vec![
        decl("FooInitialize", vec![], None),
        decl("FooExit", vec![], None),
        decl("FooPing", vec![], Some(ty("void", false, false))),
    ];
    let out = generate_service(decls, "Foo").unwrap();
    assert!(out.contains("pub fn ping(&mut self) {\n        unsafe { sys::FooPing() }\n    }\n"));
    assert!(!out.contains("ping(&mut self) ->"));
}
