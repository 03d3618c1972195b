//! Tests of the specification grammar, its failure messages, and the tree
//! walker's module-path computation.

use structure_scan::gate::{
    parse_supertrait_spec, parse_symbol_path, require_impl_const, require_struct,
    require_trait_supertrait,
};
use structure_scan::naming::{
    make_cfg_struct, make_cfg_trait_supertrait, split_path, split_path2,
};
use structure_scan::store::FlagStore;
use structure_scan::walk::module_segments;

#[test]
fn test_parse_symbol_path_segments() {
    let path = parse_symbol_path("sort_strategy::SortStrategy").unwrap();
    assert_eq!(path.segments, vec!["sort_strategy", "SortStrategy"]);
    let path = parse_symbol_path("lone").unwrap();
    assert_eq!(path.segments, vec!["lone"]);
    let path = parse_symbol_path("a1::b2::c3").unwrap();
    assert_eq!(path.segments, vec!["a1", "b2", "c3"]);
}

#[test]
fn test_parse_symbol_path_rejects_malformed() {
    for bad in ["", "::", "a::", "::a", "a:::b", "a::::b", "9lives", "a b", "a::b c", "a-b"] {
        let err = parse_symbol_path(bad).unwrap_err();
        assert_eq!(
            err.message,
            "expected a symbol path: identifier segments separated by '::'"
        );
    }
}

#[test]
fn test_parse_supertrait_spec_forms() {
    let st = parse_supertrait_spec("sort_strategy::SortStrategy : Any").unwrap();
    assert_eq!(st.module, "sort_strategy");
    assert_eq!(st.trait_name, "SortStrategy");
    assert_eq!(st.supertrait, "Any");

    // spaces around the colon are optional, and the supertrait may itself
    // be path-qualified, in which case its last segment names it
    let st = parse_supertrait_spec("a::b::T:std::any::Any").unwrap();
    assert_eq!(st.module, "a_b");
    assert_eq!(st.trait_name, "T");
    assert_eq!(st.supertrait, "Any");

    let st = parse_supertrait_spec("T : Y").unwrap();
    assert_eq!(st.module, "");
    assert_eq!(st.trait_name, "T");
    assert_eq!(st.supertrait, "Y");
}

#[test]
fn test_parse_supertrait_spec_rejects_malformed() {
    for bad in ["no colon", "a::b :", ": Any", "a::b : 9x", "a : b : c"] {
        let err = parse_supertrait_spec(bad).unwrap_err();
        assert_eq!(err.message, "expected a pair 'module::Trait : Supertrait'");
    }
}

#[test]
fn test_member_path_needs_two_segments() {
    let store = FlagStore::new();
    let err = require_impl_const(&store, "lone").unwrap_err();
    assert_eq!(err.message, "expected a symbol path of at least two segments");
    let err = require_struct(&store, "").unwrap_err();
    assert_eq!(
        err.message,
        "expected a symbol path: identifier segments separated by '::'"
    );
    let err = require_trait_supertrait(&store, "nopair").unwrap_err();
    assert_eq!(err.message, "expected a pair 'module::Trait : Supertrait'");
}

#[test]
fn test_make_cfg_from_parsed_paths() {
    let path = parse_symbol_path("geometry::Point").unwrap();
    assert_eq!(make_cfg_struct(&path), "structure_geometry_struct_Point");

    let (module, name) = split_path(&path);
    assert_eq!(module, "geometry");
    assert_eq!(name, "Point");

    let path = parse_symbol_path("a::b::Type::member").unwrap();
    let (module, first, second) = split_path2(&path);
    assert_eq!(module, "a_b");
    assert_eq!(first, "Type");
    assert_eq!(second, "member");

    let st = parse_supertrait_spec("geometry::Shape : Any").unwrap();
    assert_eq!(
        make_cfg_trait_supertrait(&st),
        "structure_geometry_trait_Shape_supertrait_Any"
    );
}

#[test]
fn test_describe_round_trip() {
    // a parsed path renders back to its written form, so a failure message
    // names exactly the symbol the annotation was given
    for spec in ["lone", "a::b", "sort_strategy::SortStrategy", "a::b::c::d"] {
        let path = parse_symbol_path(spec).unwrap();
        assert_eq!(structure_scan::gate::describe_path(&path), spec);
    }
}

#[test]
fn test_module_segments_of_paths() {
    assert_eq!(module_segments("context.rs").unwrap(), vec!["context"]);
    assert_eq!(
        module_segments("src/nested/sort.rs").unwrap(),
        vec!["src", "nested", "sort"]
    );
    assert_eq!(module_segments("a/b.tar.rs").unwrap(), vec!["a", "b.tar"]);
    assert!(module_segments("README.md").is_none());
    assert!(module_segments(".rs").is_none());
    assert!(module_segments("dir/.rs").is_none());
    assert!(module_segments("norust").is_none());
}
