//! Tests of the reflection core: extraction, naming, the flag store and
//! the gating layer, around the geometry scenario of one file holding
//! `struct Point { x, y }` and `trait Shape: Any { fn area(&self) }`.

use structure_scan::extract::{declarations_of, extract_file, scan_file};
use structure_scan::gate::{
    require_enum, require_function, require_impl_const, require_impl_for_trait,
    require_impl_function, require_impl_method, require_impl_type, require_struct,
    require_struct_or_fail, require_trait, require_trait_const, require_trait_function,
    require_trait_function_or_fail, require_trait_method, require_trait_or_fail,
    require_trait_supertrait, require_trait_supertrait_or_fail, require_trait_type, Invocation,
};
use structure_scan::model::{
    AssocItem, AssocKind, DeclKind, FieldDecl, MemberKind, ParsedItem,
};
use structure_scan::naming::{decl_flag, member_flag};
use structure_scan::store::FlagStore;

fn geometry_module() -> Vec<String> {
    vec!["geometry".to_string()]
}

fn geometry_items() -> Vec<ParsedItem> {
    vec![
        ParsedItem::Struct {
            name: "Point".to_string(),
            fields: vec![
                FieldDecl { name: Some("x".to_string()) },
                FieldDecl { name: Some("y".to_string()) },
            ],
        },
        ParsedItem::Trait {
            name: "Shape".to_string(),
            supertraits: vec!["Any".to_string()],
            members: vec![AssocItem {
                kind: AssocKind::Function,
                name: "area".to_string(),
                has_self_receiver: true,
            }],
        },
    ]
}

fn geometry_store() -> FlagStore {
    let mut store = FlagStore::new();
    scan_file(&mut store, &geometry_module(), &geometry_items());
    store
}

#[test]
fn test_geometry_scenario_flags() {
    let flags = extract_file(&geometry_module(), &geometry_items());
    let expected = vec![
        "structure_geometry_struct_Point",
        "structure_geometry_struct_Point_field_x",
        "structure_geometry_struct_Point_field_y",
        "structure_geometry_trait_Shape",
        "structure_geometry_trait_Shape_supertrait_Any",
        "structure_geometry_trait_Shape_fn_area",
        "structure_geometry_trait_Shape_method_area",
    ];
    assert_eq!(flags, expected);
}

#[test]
fn test_geometry_scenario_lookup() {
    let store = geometry_store();
    assert!(matches!(require_struct(&store, "geometry::Point"), Ok(true)));
    assert!(matches!(require_trait(&store, "geometry::Shape"), Ok(true)));
    assert!(matches!(
        require_trait_supertrait(&store, "geometry::Shape : Any"),
        Ok(true)
    ));
    // a field-exists lookup recomputes the member flag through the naming
    // scheme and asks the store
    let module = geometry_module();
    assert!(store.is_set(&member_flag(&module, "struct", "Point", "field", "x")));
    assert!(!store.is_set(&member_flag(&module, "struct", "Point", "field", "z")));
}

#[test]
fn test_extractor_and_gating_agree_on_flags() {
    // the extractor-side and gating-side computations of one declaration's
    // flag must be byte-for-byte identical
    let module = geometry_module();
    let extractor_side = decl_flag(&module, "struct", "Point");
    assert_eq!(extractor_side, "structure_geometry_struct_Point");
    let store = geometry_store();
    assert!(store.is_set(&extractor_side));
}

#[test]
fn test_scan_idempotent() {
    let mut store = geometry_store();
    let flags = extract_file(&geometry_module(), &geometry_items());
    // scanning the same file again publishes the same flags; the store's
    // contents stay the same set
    scan_file(&mut store, &geometry_module(), &geometry_items());
    for flag in &flags {
        assert!(store.is_set(flag));
    }
    assert!(!store.is_set(&"structure_geometry_struct_Square".to_string()));
}

#[test]
fn test_positional_fields_yield_no_member_flags() {
    let module = geometry_module();
    let items = vec![ParsedItem::Struct {
        name: "Pair".to_string(),
        fields: vec![FieldDecl { name: None }, FieldDecl { name: None }],
    }];
    let flags = extract_file(&module, &items);
    assert_eq!(flags, vec!["structure_geometry_struct_Pair"]);
}

#[test]
fn test_enum_union_function_and_impl_flags() {
    let module = vec!["shapes".to_string(), "kinds".to_string()];
    let items = vec![
        ParsedItem::Enum {
            name: "Kind".to_string(),
            variants: vec!["Round".to_string(), "Square".to_string()],
        },
        ParsedItem::Union {
            name: "Raw".to_string(),
            fields: vec![FieldDecl { name: Some("bits".to_string()) }],
        },
        ParsedItem::Function { name: "draw".to_string() },
        ParsedItem::TraitImpl {
            trait_name: "Shape".to_string(),
            self_type: "Kind".to_string(),
        },
        ParsedItem::InherentImpl {
            self_type: "Kind".to_string(),
            members: vec![
                AssocItem {
                    kind: AssocKind::Const,
                    name: "MAX".to_string(),
                    has_self_receiver: false,
                },
                AssocItem {
                    kind: AssocKind::Function,
                    name: "new".to_string(),
                    has_self_receiver: false,
                },
                AssocItem {
                    kind: AssocKind::Function,
                    name: "area".to_string(),
                    has_self_receiver: true,
                },
                AssocItem {
                    kind: AssocKind::TypeAlias,
                    name: "Unit".to_string(),
                    has_self_receiver: false,
                },
            ],
        },
    ];
    let flags = extract_file(&module, &items);
    let expected = vec![
        "structure_shapes_kinds_enum_Kind",
        "structure_shapes_kinds_enum_Kind_variant_Round",
        "structure_shapes_kinds_enum_Kind_variant_Square",
        "structure_shapes_kinds_union_Raw",
        "structure_shapes_kinds_union_Raw_field_bits",
        "structure_shapes_kinds_fn_draw",
        "structure_shapes_kinds_impl_Shape_for_Kind",
        "structure_shapes_kinds_impl_Kind_const_MAX",
        "structure_shapes_kinds_impl_Kind_fn_new",
        "structure_shapes_kinds_impl_Kind_fn_area",
        "structure_shapes_kinds_impl_Kind_method_area",
        "structure_shapes_kinds_impl_Kind_type_Unit",
    ];
    assert_eq!(flags, expected);

    let mut store = FlagStore::new();
    scan_file(&mut store, &module, &items);
    assert!(matches!(
        require_impl_for_trait(&store, "shapes::kinds::Kind::Shape"),
        Ok(true)
    ));
    assert!(matches!(
        require_impl_function(&store, "shapes::kinds::Kind::new"),
        Ok(true)
    ));
    assert!(matches!(
        require_impl_method(&store, "shapes::kinds::Kind::area"),
        Ok(true)
    ));
    assert!(matches!(
        require_impl_method(&store, "shapes::kinds::Kind::new"),
        Ok(false)
    ));
    assert!(matches!(require_function(&store, "shapes::kinds::draw"), Ok(true)));
}

#[test]
fn test_trait_member_and_remaining_gates() {
    let module = vec!["geometry".to_string()];
    let items = vec![
        ParsedItem::Enum {
            name: "Corner".to_string(),
            variants: vec!["Sharp".to_string()],
        },
        ParsedItem::Trait {
            name: "Measurable".to_string(),
            supertraits: Vec::new(),
            members: vec![
                AssocItem {
                    kind: AssocKind::Const,
                    name: "DIM".to_string(),
                    has_self_receiver: false,
                },
                AssocItem {
                    kind: AssocKind::TypeAlias,
                    name: "Unit".to_string(),
                    has_self_receiver: false,
                },
                AssocItem {
                    kind: AssocKind::Function,
                    name: "measure".to_string(),
                    has_self_receiver: true,
                },
                AssocItem {
                    kind: AssocKind::Function,
                    name: "origin".to_string(),
                    has_self_receiver: false,
                },
            ],
        },
        ParsedItem::InherentImpl {
            self_type: "Corner".to_string(),
            members: vec![
                AssocItem {
                    kind: AssocKind::Const,
                    name: "COUNT".to_string(),
                    has_self_receiver: false,
                },
                AssocItem {
                    kind: AssocKind::TypeAlias,
                    name: "Angle".to_string(),
                    has_self_receiver: false,
                },
            ],
        },
    ];
    let mut store = FlagStore::new();
    scan_file(&mut store, &module, &items);

    assert!(matches!(require_enum(&store, "geometry::Corner"), Ok(true)));
    assert!(matches!(require_enum(&store, "geometry::Measurable"), Ok(false)));
    assert!(matches!(
        require_trait_const(&store, "geometry::Measurable::DIM"),
        Ok(true)
    ));
    assert!(matches!(
        require_trait_type(&store, "geometry::Measurable::Unit"),
        Ok(true)
    ));
    assert!(matches!(
        require_trait_function(&store, "geometry::Measurable::measure"),
        Ok(true)
    ));
    assert!(matches!(
        require_trait_method(&store, "geometry::Measurable::measure"),
        Ok(true)
    ));
    assert!(matches!(
        require_trait_function(&store, "geometry::Measurable::origin"),
        Ok(true)
    ));
    // a member function without a receiver gets no method flag
    assert!(matches!(
        require_trait_method(&store, "geometry::Measurable::origin"),
        Ok(false)
    ));
    assert!(matches!(
        require_impl_const(&store, "geometry::Corner::COUNT"),
        Ok(true)
    ));
    assert!(matches!(
        require_impl_type(&store, "geometry::Corner::Angle"),
        Ok(true)
    ));
    let gate = require_trait_function_or_fail(&store, "geometry::Measurable::missing").unwrap();
    assert!(!gate.present);
    assert_eq!(gate.failure_message, "missing geometry::Measurable::missing");
}

#[test]
fn test_declaration_model() {
    let decls = declarations_of(&geometry_module(), &geometry_items());
    assert_eq!(decls.len(), 2);
    assert_eq!(decls[0].kind, DeclKind::Struct);
    assert_eq!(decls[0].name, "Point");
    assert_eq!(decls[0].module, vec!["geometry".to_string()]);
    assert_eq!(decls[0].members.len(), 2);
    assert_eq!(decls[0].members[0].member_kind, MemberKind::Field);
    assert_eq!(decls[0].members[0].name, "x");
    assert_eq!(decls[1].kind, DeclKind::Trait);
    assert_eq!(decls[1].supertypes, vec!["Any".to_string()]);
    assert_eq!(decls[1].members[0].member_kind, MemberKind::Method);
    assert!(decls[1].members[0].has_self_receiver);
}

#[test]
fn test_supertype_pair_lookup_absent() {
    let store = geometry_store();
    assert!(matches!(
        require_trait_supertrait(&store, "geometry::Shape : Sized"),
        Ok(false)
    ));
}

#[test]
fn test_item_mode_omission_and_retention() {
    let store = geometry_store();
    // present flag: the declaration is retained
    assert!(matches!(require_struct(&store, "geometry::Point"), Ok(true)));
    // absent flag: the declaration is omitted, with no error raised
    assert!(matches!(require_struct(&store, "geometry::Circle"), Ok(false)));
    assert!(matches!(require_trait(&store, "geometry::Point"), Ok(false)));
}

#[test]
fn test_function_fallback_messages() {
    let store = geometry_store();
    let gate = require_struct_or_fail(&store, "geometry::Circle").unwrap();
    assert!(!gate.present);
    assert_eq!(gate.failure_message, "missing geometry::Circle");
    match gate.invoke() {
        Invocation::Fail(message) => assert_eq!(message, "missing geometry::Circle"),
        Invocation::RunOriginal => panic!("an absent flag must fail at invocation"),
    }

    let gate = require_struct_or_fail(&store, "geometry::Point").unwrap();
    assert!(gate.present);
    assert!(matches!(gate.invoke(), Invocation::RunOriginal));

    let gate = require_trait_supertrait_or_fail(&store, "geometry::Shape : Any").unwrap();
    assert!(gate.present);
    assert_eq!(gate.failure_message, "missing supertrait Any of geometry::Shape");

    let gate = require_trait_or_fail(&store, "geometry::sub::Deep").unwrap();
    assert!(!gate.present);
    assert_eq!(gate.failure_message, "missing geometry::sub::Deep");
}
