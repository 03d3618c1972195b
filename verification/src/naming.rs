//! The naming scheme: the one shared, pure mapping from a symbol (module
//! path, kind, name, optional member or second name) to its canonical flag
//! string.
//!
//! Both the extractor and the gating layer build every flag through the
//! functions of this module, so the two phases agree on flag identity by
//! construction; the agreement lemmas at the end state that fact explicitly.
//!
//! Flag grammar: `structure_` + module segments joined by `_` + `_` + kind
//! tag + `_` + name, with `_` + member tag + `_` + member name appended for
//! member-level facts.

use vstd::prelude::*;
use vstd::string::*;

verus! {

/// Module path segments joined with `_`.
pub open spec fn join_path(segs: Seq<Seq<char>>) -> Seq<char>
    decreases segs.len(),
{
    if segs.len() == 0 {
        Seq::empty()
    } else if segs.len() == 1 {
        segs[0]
    } else {
        segs[0] + "_"@ + join_path(segs.subrange(1, segs.len() as int))
    }
}

/// A declaration-level flag, from an already-joined module string.
pub open spec fn spec_flag_joined(module_joined: Seq<char>, tag: Seq<char>, name: Seq<char>) -> Seq<
    char,
> {
    "structure_"@ + module_joined + "_"@ + tag + "_"@ + name
}

/// A member-level flag, from an already-joined module string.
pub open spec fn spec_member_flag_joined(
    module_joined: Seq<char>,
    tag: Seq<char>,
    name: Seq<char>,
    member_tag: Seq<char>,
    member_name: Seq<char>,
) -> Seq<char> {
    spec_flag_joined(module_joined, tag, name) + "_"@ + member_tag + "_"@ + member_name
}

/// The flag for a declaration-level fact: `structure_{module}_{tag}_{name}`.
pub open spec fn spec_flag(module: Seq<Seq<char>>, tag: Seq<char>, name: Seq<char>) -> Seq<char> {
    spec_flag_joined(join_path(module), tag, name)
}

/// The flag for a member-level fact:
/// `structure_{module}_{tag}_{name}_{member_tag}_{member_name}`.
pub open spec fn spec_member_flag(
    module: Seq<Seq<char>>,
    tag: Seq<char>,
    name: Seq<char>,
    member_tag: Seq<char>,
    member_name: Seq<char>,
) -> Seq<char> {
    spec_member_flag_joined(join_path(module), tag, name, member_tag, member_name)
}

proof fn lemma_join_path_push(s: Seq<Seq<char>>, x: Seq<char>)
    requires
        s.len() >= 1,
    ensures
        join_path(s.push(x)) == join_path(s) + "_"@ + x,
    decreases s.len(),
{
    if s.len() == 1 {
        assert(s.push(x).subrange(1, 2) =~= seq![x]);
        assert(join_path(seq![x]) == x);
    } else {
        assert(s.push(x).subrange(1, s.push(x).len() as int) =~= s.subrange(
            1,
            s.len() as int,
        ).push(x));
        lemma_join_path_push(s.subrange(1, s.len() as int), x);
        assert(s.push(x)[0] == s[0]);
        assert(join_path(s.push(x)) == s[0] + "_"@ + (join_path(s.subrange(1, s.len() as int))
            + "_"@ + x));
    }
}

/// Joins the first `end` segments with `_`.
fn join_prefix(segments: &Vec<String>, end: usize) -> (r: String)
    requires
        end <= segments.len(),
    ensures
        r@ == join_path(segments.deep_view().take(end as int)),
{
    let ghost dv = segments.deep_view();
    if end == 0 {
        let r = String::new();
        assert(dv.take(0) =~= Seq::<Seq<char>>::empty());
        return r;
    }
    let mut r: String = segments[0].clone();
    assert(dv.take(1) =~= seq![dv[0]]);
    assert(join_path(seq![dv[0]]) == dv[0]);
    let mut i: usize = 1;
    while i < end
        invariant
            1 <= i <= end <= segments.len(),
            dv == segments.deep_view(),
            dv.len() == segments.len(),
            r@ == join_path(dv.take(i as int)),
        decreases end - i,
    {
        r.append("_");
        r.append(segments[i].as_str());
        proof {
            lemma_join_path_push(dv.take(i as int), dv[i as int]);
            assert(dv.take(i as int + 1) =~= dv.take(i as int).push(dv[i as int]));
        }
        i += 1;
    }
    r
}

/// Joins all module path segments with `_`, as they appear inside a flag.
pub fn join_underscore(segments: &Vec<String>) -> (r: String)
    ensures
        r@ == join_path(segments.deep_view()),
{
    let r = join_prefix(segments, segments.len());
    proof {
        assert(segments.deep_view().take(segments.len() as int) =~= segments.deep_view());
    }
    r
}

/// Concatenates a flag from an already-joined module string.
fn assemble_flag(module_joined: &String, tag: &str, name: &str) -> (r: String)
    ensures
        r@ == "structure_"@ + module_joined@ + "_"@ + tag@ + "_"@ + name@,
{
    let mut r = String::from_str("structure_");
    r.append(module_joined.as_str());
    r.append("_");
    r.append(tag);
    r.append("_");
    r.append(name);
    r
}

/// The flag for a declaration-level fact, from module path segments.
pub fn decl_flag(module: &Vec<String>, tag: &str, name: &str) -> (r: String)
    ensures
        r@ == spec_flag(module.deep_view(), tag@, name@),
{
    let joined = join_underscore(module);
    assemble_flag(&joined, tag, name)
}

/// A parsed symbol path: module segments followed by one or two trailing
/// identifiers, as written in a gating annotation (`module::Type` or
/// `module::Type::member`).
#[derive(Debug)]
pub struct SymbolPath {
    pub segments: Vec<String>,
}

impl View for SymbolPath {
    type V = Seq<Seq<char>>;

    open spec fn view(&self) -> Seq<Seq<char>> {
        self.segments.deep_view()
    }
}

/// A parsed supertype-pair specification: the module-qualified trait on the
/// left of the colon and the supertrait name on the right.  The module part
/// is stored already joined, as it appears inside a flag.
#[derive(Debug)]
pub struct SuperTraitSpec {
    pub module: String,
    pub trait_name: String,
    pub supertrait: String,
}

/// Ghost model of a `SuperTraitSpec`.
#[verifier::ext_equal]
pub struct SuperTraitModel {
    pub module: Seq<char>,
    pub trait_name: Seq<char>,
    pub supertrait: Seq<char>,
}

impl View for SuperTraitSpec {
    type V = SuperTraitModel;

    open spec fn view(&self) -> SuperTraitModel {
        SuperTraitModel {
            module: self.module@,
            trait_name: self.trait_name@,
            supertrait: self.supertrait@,
        }
    }
}

/// The supertype flag a pair specification maps to.
pub open spec fn spec_supertrait_flag(st: SuperTraitModel) -> Seq<char> {
    spec_member_flag_joined(st.module, "trait"@, st.trait_name, "supertrait"@, st.supertrait)
}

/// Splits a symbol path into its module part, joined as it appears inside a
/// flag, and its trailing identifier.
pub fn split_path(path: &SymbolPath) -> (r: (String, String))
    requires
        path@.len() >= 1,
    ensures
        r.0@ == join_path(path@.drop_last()),
        r.1@ == path@.last(),
{
    let n = path.segments.len();
    let joined = join_prefix(&path.segments, n - 1);
    let name = path.segments[n - 1].clone();
    proof {
        assert(path@.drop_last() =~= path.segments.deep_view().take(n - 1));
        assert(path@.last() == path.segments@[n - 1].deep_view());
    }
    (joined, name)
}

/// Splits a symbol path into its module part and its two trailing
/// identifiers.
pub fn split_path2(path: &SymbolPath) -> (r: (String, String, String))
    requires
        path@.len() >= 2,
    ensures
        r.0@ == join_path(path@.take(path@.len() - 2)),
        r.1@ == path@[path@.len() - 2],
        r.2@ == path@.last(),
{
    let n = path.segments.len();
    let joined = join_prefix(&path.segments, n - 2);
    let first = path.segments[n - 2].clone();
    let second = path.segments[n - 1].clone();
    proof {
        assert(path@[path@.len() - 2] == path.segments@[n - 2].deep_view());
        assert(path@.last() == path.segments@[n - 1].deep_view());
    }
    (joined, first, second)
}

/// Concatenates a member-level flag from an already-joined module string.
fn assemble_member_flag(
    module_joined: &String,
    tag: &str,
    name: &str,
    member_tag: &str,
    member_name: &str,
) -> (r: String)
    ensures
        r@ == spec_member_flag_joined(module_joined@, tag@, name@, member_tag@, member_name@),
{
    let mut r = assemble_flag(module_joined, tag, name);
    r.append("_");
    r.append(member_tag);
    r.append("_");
    r.append(member_name);
    r
}

/// The flag a `module::Name` path maps to for a struct-exists fact.
pub fn make_cfg_struct(path: &SymbolPath) -> (r: String)
    requires
        path@.len() >= 1,
    ensures
        r@ == spec_flag(path@.drop_last(), "struct"@, path@.last()),
{
    let (module_joined, name) = split_path(path);
    assemble_flag(&module_joined, "struct", name.as_str())
}

/// The flag a `module::Name` path maps to for a trait-exists fact.
pub fn make_cfg_trait(path: &SymbolPath) -> (r: String)
    requires
        path@.len() >= 1,
    ensures
        r@ == spec_flag(path@.drop_last(), "trait"@, path@.last()),
{
    let (module_joined, name) = split_path(path);
    assemble_flag(&module_joined, "trait", name.as_str())
}

/// The flag a `module::Name` path maps to for an enum-exists fact.
pub fn make_cfg_enum(path: &SymbolPath) -> (r: String)
    requires
        path@.len() >= 1,
    ensures
        r@ == spec_flag(path@.drop_last(), "enum"@, path@.last()),
{
    let (module_joined, name) = split_path(path);
    assemble_flag(&module_joined, "enum", name.as_str())
}

/// The flag a `module::name` path maps to for a function-exists fact.
pub fn make_cfg_function(path: &SymbolPath) -> (r: String)
    requires
        path@.len() >= 1,
    ensures
        r@ == spec_flag(path@.drop_last(), "fn"@, path@.last()),
{
    let (module_joined, name) = split_path(path);
    assemble_flag(&module_joined, "fn", name.as_str())
}

/// The flag a `module::Type::Trait` path maps to for a trait-impl fact.
pub fn make_cfg_impl_for_trait(path: &SymbolPath) -> (r: String)
    requires
        path@.len() >= 2,
    ensures
        r@ == ({
            let p = path@;
            spec_member_flag(p.take(p.len() - 2), "impl"@, p.last(), "for"@, p[p.len() - 2])
        }),
{
    let (module_joined, self_type, trait_name) = split_path2(path);
    assemble_member_flag(&module_joined, "impl", trait_name.as_str(), "for", self_type.as_str())
}

/// The flag a `module::Type::name` path maps to for an inherent
/// associated-function fact.
pub fn make_cfg_impl_function(path: &SymbolPath) -> (r: String)
    requires
        path@.len() >= 2,
    ensures
        r@ == spec_member_flag(path@.take(path@.len() - 2), "impl"@, path@[path@.len() - 2], "fn"@,
            path@.last(),
        ),
{
    let (module_joined, self_type, name) = split_path2(path);
    assemble_member_flag(&module_joined, "impl", self_type.as_str(), "fn", name.as_str())
}

/// The flag a `module::Type::name` path maps to for an inherent method
/// fact.
pub fn make_cfg_impl_method(path: &SymbolPath) -> (r: String)
    requires
        path@.len() >= 2,
    ensures
        r@ == spec_member_flag(path@.take(path@.len() - 2), "impl"@, path@[path@.len() - 2],
            "method"@, path@.last()),
{
    let (module_joined, self_type, name) = split_path2(path);
    assemble_member_flag(&module_joined, "impl", self_type.as_str(), "method", name.as_str())
}

/// The flag a `module::Type::NAME` path maps to for an inherent associated
/// constant fact.
pub fn make_cfg_impl_const(path: &SymbolPath) -> (r: String)
    requires
        path@.len() >= 2,
    ensures
        r@ == spec_member_flag(path@.take(path@.len() - 2), "impl"@, path@[path@.len() - 2],
            "const"@, path@.last()),
{
    let (module_joined, self_type, name) = split_path2(path);
    assemble_member_flag(&module_joined, "impl", self_type.as_str(), "const", name.as_str())
}

/// The flag a `module::Type::Name` path maps to for an inherent associated
/// type fact.
pub fn make_cfg_impl_type(path: &SymbolPath) -> (r: String)
    requires
        path@.len() >= 2,
    ensures
        r@ == spec_member_flag(path@.take(path@.len() - 2), "impl"@, path@[path@.len() - 2],
            "type"@, path@.last()),
{
    let (module_joined, self_type, name) = split_path2(path);
    assemble_member_flag(&module_joined, "impl", self_type.as_str(), "type", name.as_str())
}

/// The flag a `module::Trait::name` path maps to for a trait
/// associated-function fact.
pub fn make_cfg_trait_function(path: &SymbolPath) -> (r: String)
    requires
        path@.len() >= 2,
    ensures
        r@ == spec_member_flag(path@.take(path@.len() - 2), "trait"@, path@[path@.len() - 2],
            "fn"@, path@.last()),
{
    let (module_joined, trait_name, name) = split_path2(path);
    assemble_member_flag(&module_joined, "trait", trait_name.as_str(), "fn", name.as_str())
}

/// The flag a `module::Trait::name` path maps to for a trait method fact.
pub fn make_cfg_trait_method(path: &SymbolPath) -> (r: String)
    requires
        path@.len() >= 2,
    ensures
        r@ == spec_member_flag(path@.take(path@.len() - 2), "trait"@, path@[path@.len() - 2],
            "method"@, path@.last()),
{
    let (module_joined, trait_name, name) = split_path2(path);
    assemble_member_flag(&module_joined, "trait", trait_name.as_str(), "method", name.as_str())
}

/// The flag a `module::Trait::NAME` path maps to for a trait associated
/// constant fact.
pub fn make_cfg_trait_const(path: &SymbolPath) -> (r: String)
    requires
        path@.len() >= 2,
    ensures
        r@ == spec_member_flag(path@.take(path@.len() - 2), "trait"@, path@[path@.len() - 2],
            "const"@, path@.last()),
{
    let (module_joined, trait_name, name) = split_path2(path);
    assemble_member_flag(&module_joined, "trait", trait_name.as_str(), "const", name.as_str())
}

/// The flag a `module::Trait::Name` path maps to for a trait associated
/// type fact.
pub fn make_cfg_trait_type(path: &SymbolPath) -> (r: String)
    requires
        path@.len() >= 2,
    ensures
        r@ == spec_member_flag(path@.take(path@.len() - 2), "trait"@, path@[path@.len() - 2],
            "type"@, path@.last()),
{
    let (module_joined, trait_name, name) = split_path2(path);
    assemble_member_flag(&module_joined, "trait", trait_name.as_str(), "type", name.as_str())
}

/// The flag a supertype-pair specification maps to.
pub fn make_cfg_trait_supertrait(st: &SuperTraitSpec) -> (r: String)
    ensures
        r@ == spec_supertrait_flag(st@),
{
    assemble_member_flag(
        &st.module,
        "trait",
        st.trait_name.as_str(),
        "supertrait",
        st.supertrait.as_str(),
    )
}

/// Extractor/gating agreement for declaration-level facts: the flag the
/// extractor emits for a declaration named `name` in module `module` is the
/// flag the naming scheme computes from that declaration's symbol path
/// `module::name`.
pub proof fn lemma_decl_flag_agreement(module: Seq<Seq<char>>, tag: Seq<char>, name: Seq<char>)
    ensures
        spec_flag(module, tag, name) == spec_flag(
            module.push(name).drop_last(),
            tag,
            module.push(name).last(),
        ),
{
    assert(module.push(name).drop_last() =~= module);
}

/// Extractor/gating agreement for member-level facts: the flag the
/// extractor emits for member `member_name` of owner `owner` in module
/// `module` is the flag the naming scheme computes from the symbol path
/// `module::owner::member_name`.
pub proof fn lemma_member_flag_agreement(
    module: Seq<Seq<char>>,
    tag: Seq<char>,
    owner: Seq<char>,
    member_tag: Seq<char>,
    member_name: Seq<char>,
)
    ensures
        spec_member_flag(module, tag, owner, member_tag, member_name) == ({
            let path = module.push(owner).push(member_name);
            spec_member_flag(path.take(path.len() - 2), tag, path[path.len() - 2], member_tag,
                path.last(),
            )
        }),
{
    let path = module.push(owner).push(member_name);
    assert(path.take(path.len() - 2) =~= module);
}

/// Extractor/gating agreement for supertype facts: the flag the extractor
/// emits for supertype `sup` of trait `name` in module `module` equals the
/// flag the naming scheme computes from the parsed pair specification.
pub proof fn lemma_supertrait_flag_agreement(
    module: Seq<Seq<char>>,
    name: Seq<char>,
    sup: Seq<char>,
)
    ensures
        spec_member_flag(module, "trait"@, name, "supertrait"@, sup) == spec_supertrait_flag(
            SuperTraitModel { module: join_path(module), trait_name: name, supertrait: sup },
        ),
{
}

/// The flag for a member-level fact, from module path segments.
pub fn member_flag(
    module: &Vec<String>,
    tag: &str,
    name: &str,
    member_tag: &str,
    member_name: &str,
) -> (r: String)
    ensures
        r@ == spec_member_flag(module.deep_view(), tag@, name@, member_tag@, member_name@),
{
    let mut r = decl_flag(module, tag, name);
    r.append("_");
    r.append(member_tag);
    r.append("_");
    r.append(member_name);
    r
}

} // verus!
