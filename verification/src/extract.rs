//! The extractor: turns the parsed items of one file into normalized
//! declarations and their canonical flags.
//!
//! For each top-level declaration the extractor emits one declaration-level
//! flag, then one flag per named field, variant, supertype relation or
//! associated member; a member function whose first parameter is a receiver
//! gets a method flag in addition to its function flag.  A trait impl block
//! contributes one relation flag; an inherent impl block attributes its
//! members to the self type and gets no declaration-level flag of its own.
//! Every flag is built through the naming scheme of [`crate::naming`].

use vstd::prelude::*;
use vstd::string::*;

use crate::model::AssocItem;
use crate::model::AssocKind;
use crate::model::AssocModel;
use crate::model::DeclKind;
use crate::model::Declaration;
use crate::model::DeclarationModel;
use crate::model::FieldDecl;
use crate::model::FieldModel;
use crate::model::ItemModel;
use crate::model::Member;
use crate::model::MemberKind;
use crate::model::MemberModel;
use crate::model::ParsedItem;
use crate::naming::decl_flag;
use crate::naming::member_flag;
use crate::naming::spec_flag;
use crate::naming::spec_member_flag;
use crate::store::FlagStore;

verus! {

/// The kind tag that appears inside a declaration-level flag.
pub open spec fn decl_tag(kind: DeclKind) -> Seq<char> {
    match kind {
        DeclKind::Struct => "struct"@,
        DeclKind::Enum => "enum"@,
        DeclKind::Union => "union"@,
        DeclKind::Trait => "trait"@,
        DeclKind::Function => "fn"@,
    }
}

/// The flags one member contributes under its owner: one flag for most
/// kinds, a function flag plus a method flag for a method.
pub open spec fn spec_one_member_flags(
    module: Seq<Seq<char>>,
    tag: Seq<char>,
    owner: Seq<char>,
    m: MemberModel,
) -> Seq<Seq<char>> {
    match m.member_kind {
        MemberKind::Field => seq![spec_member_flag(module, tag, owner, "field"@, m.name)],
        MemberKind::Variant => seq![spec_member_flag(module, tag, owner, "variant"@, m.name)],
        MemberKind::Const => seq![spec_member_flag(module, tag, owner, "const"@, m.name)],
        MemberKind::Function => seq![spec_member_flag(module, tag, owner, "fn"@, m.name)],
        MemberKind::Method => seq![
            spec_member_flag(module, tag, owner, "fn"@, m.name),
            spec_member_flag(module, tag, owner, "method"@, m.name),
        ],
        MemberKind::TypeAlias => seq![spec_member_flag(module, tag, owner, "type"@, m.name)],
    }
}

/// The member flags of a whole member list, in order.
pub open spec fn spec_members_flags(
    module: Seq<Seq<char>>,
    tag: Seq<char>,
    owner: Seq<char>,
    members: Seq<MemberModel>,
) -> Seq<Seq<char>>
    decreases members.len(),
{
    if members.len() == 0 {
        Seq::empty()
    } else {
        spec_members_flags(module, tag, owner, members.drop_last()) + spec_one_member_flags(
            module,
            tag,
            owner,
            members.last(),
        )
    }
}

/// One supertype flag per declared supertype relation of a trait.
pub open spec fn spec_supertype_flags(
    module: Seq<Seq<char>>,
    name: Seq<char>,
    supertypes: Seq<Seq<char>>,
) -> Seq<Seq<char>>
    decreases supertypes.len(),
{
    if supertypes.len() == 0 {
        Seq::empty()
    } else {
        spec_supertype_flags(module, name, supertypes.drop_last()) + seq![
            spec_member_flag(module, "trait"@, name, "supertrait"@, supertypes.last()),
        ]
    }
}

/// All flags of one normalized declaration: the declaration-level flag,
/// then its supertype flags, then its member flags.
pub open spec fn spec_declaration_flags(d: DeclarationModel) -> Seq<Seq<char>> {
    seq![spec_flag(d.module, decl_tag(d.kind), d.name)] + spec_supertype_flags(
        d.module,
        d.name,
        d.supertypes,
    ) + spec_members_flags(d.module, decl_tag(d.kind), d.name, d.members)
}

/// The members a field list contributes: one `Field` member per named
/// field, skipping positional fields.
pub open spec fn field_members(fields: Seq<FieldModel>) -> Seq<MemberModel>
    decreases fields.len(),
{
    if fields.len() == 0 {
        Seq::empty()
    } else {
        field_members(fields.drop_last()) + match fields.last().name {
            Some(n) => seq![
                MemberModel { member_kind: MemberKind::Field, name: n, has_self_receiver: false },
            ],
            None => Seq::empty(),
        }
    }
}

/// The members an enum's variant list contributes.
pub open spec fn variant_members(variants: Seq<Seq<char>>) -> Seq<MemberModel>
    decreases variants.len(),
{
    if variants.len() == 0 {
        Seq::empty()
    } else {
        variant_members(variants.drop_last()) + seq![
            MemberModel {
                member_kind: MemberKind::Variant,
                name: variants.last(),
                has_self_receiver: false,
            },
        ]
    }
}

/// Classification of one associated item: a function with a receiver is a
/// method, everything else keeps its parsed kind.
pub open spec fn assoc_member(a: AssocModel) -> MemberModel {
    match a.kind {
        AssocKind::Const => MemberModel {
            member_kind: MemberKind::Const,
            name: a.name,
            has_self_receiver: false,
        },
        AssocKind::TypeAlias => MemberModel {
            member_kind: MemberKind::TypeAlias,
            name: a.name,
            has_self_receiver: false,
        },
        AssocKind::Function => if a.has_self_receiver {
            MemberModel { member_kind: MemberKind::Method, name: a.name, has_self_receiver: true }
        } else {
            MemberModel {
                member_kind: MemberKind::Function,
                name: a.name,
                has_self_receiver: false,
            }
        },
    }
}

/// Classification of a whole associated-item list.
pub open spec fn assoc_members(ms: Seq<AssocModel>) -> Seq<MemberModel>
    decreases ms.len(),
{
    if ms.len() == 0 {
        Seq::empty()
    } else {
        assoc_members(ms.drop_last()) + seq![assoc_member(ms.last())]
    }
}

/// The normalized declaration one parsed item yields; impl blocks yield
/// none (their facts are emitted directly as flags).
pub open spec fn spec_item_declaration(module: Seq<Seq<char>>, item: ItemModel) -> Option<
    DeclarationModel,
> {
    match item {
        ItemModel::Struct { name, fields } => Some(
            DeclarationModel {
                kind: DeclKind::Struct,
                module,
                name,
                members: field_members(fields),
                supertypes: Seq::empty(),
            },
        ),
        ItemModel::Enum { name, variants } => Some(
            DeclarationModel {
                kind: DeclKind::Enum,
                module,
                name,
                members: variant_members(variants),
                supertypes: Seq::empty(),
            },
        ),
        ItemModel::Union { name, fields } => Some(
            DeclarationModel {
                kind: DeclKind::Union,
                module,
                name,
                members: field_members(fields),
                supertypes: Seq::empty(),
            },
        ),
        ItemModel::Function { name } => Some(
            DeclarationModel {
                kind: DeclKind::Function,
                module,
                name,
                members: Seq::empty(),
                supertypes: Seq::empty(),
            },
        ),
        ItemModel::Trait { name, supertraits, members } => Some(
            DeclarationModel {
                kind: DeclKind::Trait,
                module,
                name,
                members: assoc_members(members),
                supertypes: supertraits,
            },
        ),
        ItemModel::TraitImpl { .. } => None,
        ItemModel::InherentImpl { .. } => None,
    }
}

/// All flags one parsed item contributes.
pub open spec fn spec_item_flags(module: Seq<Seq<char>>, item: ItemModel) -> Seq<Seq<char>> {
    match item {
        ItemModel::TraitImpl { trait_name, self_type } => seq![
            spec_member_flag(module, "impl"@, trait_name, "for"@, self_type),
        ],
        ItemModel::InherentImpl { self_type, members } => spec_members_flags(
            module,
            "impl"@,
            self_type,
            assoc_members(members),
        ),
        _ => spec_declaration_flags(spec_item_declaration(module, item).unwrap()),
    }
}

/// All flags of one parsed file, in item order.
pub open spec fn spec_file_flags(module: Seq<Seq<char>>, items: Seq<ItemModel>) -> Seq<Seq<char>>
    decreases items.len(),
{
    if items.len() == 0 {
        Seq::empty()
    } else {
        spec_file_flags(module, items.drop_last()) + spec_item_flags(module, items.last())
    }
}

/// The normalized declarations of one parsed file, in item order.
pub open spec fn spec_file_declarations(module: Seq<Seq<char>>, items: Seq<ItemModel>) -> Seq<
    DeclarationModel,
>
    decreases items.len(),
{
    if items.len() == 0 {
        Seq::empty()
    } else {
        spec_file_declarations(module, items.drop_last()) + match spec_item_declaration(
            module,
            items.last(),
        ) {
            Some(d) => seq![d],
            None => Seq::empty(),
        }
    }
}

/// The kind tag of a declaration-level flag, as the extractor writes it.
pub fn decl_tag_str(kind: DeclKind) -> (r: &'static str)
    ensures
        r@ == decl_tag(kind),
{
    match kind {
        DeclKind::Struct => "struct",
        DeclKind::Enum => "enum",
        DeclKind::Union => "union",
        DeclKind::Trait => "trait",
        DeclKind::Function => "fn",
    }
}

fn clone_module(v: &Vec<String>) -> (r: Vec<String>)
    ensures
        r@ == v@,
{
    let mut r: Vec<String> = Vec::new();
    let mut i: usize = 0;
    while i < v.len()
        invariant
            0 <= i <= v.len(),
            r@ =~= v@.take(i as int),
        decreases v.len() - i,
    {
        r.push(v[i].clone());
        i += 1;
    }
    proof {
        assert(v@.take(v.len() as int) =~= v@);
    }
    r
}

/// Classifies one associated item into a normalized member.
pub fn member_of_assoc(a: &AssocItem) -> (r: Member)
    ensures
        r@ == assoc_member(a@),
{
    match a.kind {
        AssocKind::Const => Member {
            member_kind: MemberKind::Const,
            name: a.name.clone(),
            has_self_receiver: false,
        },
        AssocKind::TypeAlias => Member {
            member_kind: MemberKind::TypeAlias,
            name: a.name.clone(),
            has_self_receiver: false,
        },
        AssocKind::Function => {
            if a.has_self_receiver {
                Member {
                    member_kind: MemberKind::Method,
                    name: a.name.clone(),
                    has_self_receiver: true,
                }
            } else {
                Member {
                    member_kind: MemberKind::Function,
                    name: a.name.clone(),
                    has_self_receiver: false,
                }
            }
        },
    }
}

fn field_member_vec(fields: &Vec<FieldDecl>) -> (r: Vec<Member>)
    ensures
        r.deep_view() == field_members(fields.deep_view()),
{
    let ghost fdv = fields.deep_view();
    let mut r: Vec<Member> = Vec::new();
    let mut i: usize = 0;
    while i < fields.len()
        invariant
            0 <= i <= fields.len(),
            fdv == fields.deep_view(),
            fdv.len() == fields.len(),
            r.deep_view() == field_members(fdv.take(i as int)),
        decreases fields.len() - i,
    {
        let ghost r0 = r.deep_view();
        proof {
            assert(fdv[i as int] == fields@[i as int].deep_view());
            assert(fdv.take(i as int + 1).drop_last() =~= fdv.take(i as int));
            assert(fdv.take(i as int + 1).last() == fdv[i as int]);
        }
        match &fields[i].name {
            Some(n) => {
                r.push(
                    Member {
                        member_kind: MemberKind::Field,
                        name: n.clone(),
                        has_self_receiver: false,
                    },
                );
                proof {
                    assert(r.deep_view() =~= field_members(fdv.take(i as int + 1)));
                }
            },
            None => {
                proof {
                    assert(r.deep_view() =~= field_members(fdv.take(i as int + 1)));
                }
            },
        }
        i += 1;
    }
    proof {
        assert(fdv.take(fields.len() as int) =~= fdv);
    }
    r
}

fn variant_member_vec(variants: &Vec<String>) -> (r: Vec<Member>)
    ensures
        r.deep_view() == variant_members(variants.deep_view()),
{
    let ghost vdv = variants.deep_view();
    let mut r: Vec<Member> = Vec::new();
    let mut i: usize = 0;
    while i < variants.len()
        invariant
            0 <= i <= variants.len(),
            vdv == variants.deep_view(),
            vdv.len() == variants.len(),
            r.deep_view() == variant_members(vdv.take(i as int)),
        decreases variants.len() - i,
    {
        proof {
            assert(vdv[i as int] == variants@[i as int].deep_view());
            assert(vdv.take(i as int + 1).drop_last() =~= vdv.take(i as int));
            assert(vdv.take(i as int + 1).last() == vdv[i as int]);
        }
        r.push(
            Member {
                member_kind: MemberKind::Variant,
                name: variants[i].clone(),
                has_self_receiver: false,
            },
        );
        proof {
            assert(r.deep_view() =~= variant_members(vdv.take(i as int + 1)));
        }
        i += 1;
    }
    proof {
        assert(vdv.take(variants.len() as int) =~= vdv);
    }
    r
}

fn assoc_member_vec(ms: &Vec<AssocItem>) -> (r: Vec<Member>)
    ensures
        r.deep_view() == assoc_members(ms.deep_view()),
{
    let ghost adv = ms.deep_view();
    let mut r: Vec<Member> = Vec::new();
    let mut i: usize = 0;
    while i < ms.len()
        invariant
            0 <= i <= ms.len(),
            adv == ms.deep_view(),
            adv.len() == ms.len(),
            r.deep_view() == assoc_members(adv.take(i as int)),
        decreases ms.len() - i,
    {
        proof {
            assert(adv[i as int] == ms@[i as int].deep_view());
            assert(adv.take(i as int + 1).drop_last() =~= adv.take(i as int));
            assert(adv.take(i as int + 1).last() == adv[i as int]);
        }
        let m = member_of_assoc(&ms[i]);
        r.push(m);
        proof {
            assert(r.deep_view() =~= assoc_members(adv.take(i as int + 1)));
        }
        i += 1;
    }
    proof {
        assert(adv.take(ms.len() as int) =~= adv);
    }
    r
}

/// Builds the normalized declaration of one parsed item; impl blocks yield
/// `None`.
pub fn item_to_declaration(module: &Vec<String>, item: &ParsedItem) -> (r: Option<Declaration>)
    ensures
        (r is Some) == (spec_item_declaration(module.deep_view(), item@) is Some),
        r is Some ==> r.unwrap()@ == spec_item_declaration(module.deep_view(), item@).unwrap(),
{
    let ghost mdv = module.deep_view();
    match item {
        ParsedItem::Struct { name, fields } => {
            let d = Declaration {
                kind: DeclKind::Struct,
                module: clone_module(module),
                name: name.clone(),
                members: field_member_vec(fields),
                supertypes: Vec::new(),
            };
            proof {
                assert(d@ =~= spec_item_declaration(mdv, item@).unwrap());
            }
            Some(d)
        },
        ParsedItem::Enum { name, variants } => {
            let d = Declaration {
                kind: DeclKind::Enum,
                module: clone_module(module),
                name: name.clone(),
                members: variant_member_vec(variants),
                supertypes: Vec::new(),
            };
            proof {
                assert(d@ =~= spec_item_declaration(mdv, item@).unwrap());
            }
            Some(d)
        },
        ParsedItem::Union { name, fields } => {
            let d = Declaration {
                kind: DeclKind::Union,
                module: clone_module(module),
                name: name.clone(),
                members: field_member_vec(fields),
                supertypes: Vec::new(),
            };
            proof {
                assert(d@ =~= spec_item_declaration(mdv, item@).unwrap());
            }
            Some(d)
        },
        ParsedItem::Function { name } => {
            let d = Declaration {
                kind: DeclKind::Function,
                module: clone_module(module),
                name: name.clone(),
                members: Vec::new(),
                supertypes: Vec::new(),
            };
            proof {
                assert(d@ =~= spec_item_declaration(mdv, item@).unwrap());
            }
            Some(d)
        },
        ParsedItem::Trait { name, supertraits, members } => {
            let d = Declaration {
                kind: DeclKind::Trait,
                module: clone_module(module),
                name: name.clone(),
                members: assoc_member_vec(members),
                supertypes: clone_module(supertraits),
            };
            proof {
                assert(d@ =~= spec_item_declaration(mdv, item@).unwrap());
            }
            Some(d)
        },
        ParsedItem::TraitImpl { .. } => None,
        ParsedItem::InherentImpl { .. } => None,
    }
}

fn push_one_member_flags(
    flags: &mut Vec<String>,
    module: &Vec<String>,
    tag: &str,
    owner: &str,
    m: &Member,
)
    ensures
        final(flags).deep_view() == old(flags).deep_view() + spec_one_member_flags(
            module.deep_view(),
            tag@,
            owner@,
            m@,
        ),
{
    let ghost dv0 = flags.deep_view();
    match m.member_kind {
        MemberKind::Field => {
            let f = member_flag(module, tag, owner, "field", m.name.as_str());
            flags.push(f);
        },
        MemberKind::Variant => {
            let f = member_flag(module, tag, owner, "variant", m.name.as_str());
            flags.push(f);
        },
        MemberKind::Const => {
            let f = member_flag(module, tag, owner, "const", m.name.as_str());
            flags.push(f);
        },
        MemberKind::Function => {
            let f = member_flag(module, tag, owner, "fn", m.name.as_str());
            flags.push(f);
        },
        MemberKind::Method => {
            let f = member_flag(module, tag, owner, "fn", m.name.as_str());
            flags.push(f);
            let g = member_flag(module, tag, owner, "method", m.name.as_str());
            flags.push(g);
        },
        MemberKind::TypeAlias => {
            let f = member_flag(module, tag, owner, "type", m.name.as_str());
            flags.push(f);
        },
    }
    proof {
        assert(flags.deep_view() =~= dv0 + spec_one_member_flags(
            module.deep_view(),
            tag@,
            owner@,
            m@,
        ));
    }
}

/// Computes the flags of one normalized declaration, in the order the
/// extractor registers them.
pub fn declaration_flags(d: &Declaration) -> (flags: Vec<String>)
    ensures
        flags.deep_view() == spec_declaration_flags(d@),
{
    let ghost dm = d@;
    let mut flags: Vec<String> = Vec::new();
    let tag = decl_tag_str(d.kind);
    let head = decl_flag(&d.module, tag, d.name.as_str());
    let ghost head_seq = seq![spec_flag(dm.module, decl_tag(dm.kind), dm.name)];
    flags.push(head);
    proof {
        assert(flags.deep_view() =~= head_seq);
    }
    let ghost sdv = d.supertypes.deep_view();
    let mut i: usize = 0;
    while i < d.supertypes.len()
        invariant
            0 <= i <= d.supertypes.len(),
            dm == d@,
            sdv == d.supertypes.deep_view(),
            sdv.len() == d.supertypes.len(),
            flags.deep_view() == head_seq + spec_supertype_flags(dm.module, dm.name, sdv.take(
                i as int,
            )),
        decreases d.supertypes.len() - i,
    {
        proof {
            assert(sdv[i as int] == d.supertypes@[i as int].deep_view());
            assert(sdv.take(i as int + 1).drop_last() =~= sdv.take(i as int));
            assert(sdv.take(i as int + 1).last() == sdv[i as int]);
        }
        let ghost dv0 = flags.deep_view();
        let s = d.supertypes[i].as_str();
        let f = member_flag(&d.module, "trait", d.name.as_str(), "supertrait", s);
        let ghost fv = f@;
        flags.push(f);
        proof {
            assert(flags.deep_view() =~= dv0.push(fv));
            assert(spec_supertype_flags(dm.module, dm.name, sdv.take(i as int + 1))
                == spec_supertype_flags(dm.module, dm.name, sdv.take(i as int)) + seq![fv]);
            assert(dv0.push(fv) =~= head_seq + spec_supertype_flags(
                dm.module,
                dm.name,
                sdv.take(i as int + 1),
            ));
        }
        i += 1;
    }
    proof {
        assert(sdv.take(d.supertypes.len() as int) =~= sdv);
    }
    let ghost mid = head_seq + spec_supertype_flags(dm.module, dm.name, dm.supertypes);
    let ghost mdv = d.members.deep_view();
    let mut j: usize = 0;
    while j < d.members.len()
        invariant
            0 <= j <= d.members.len(),
            dm == d@,
            mdv == d.members.deep_view(),
            mdv.len() == d.members.len(),
            tag@ == decl_tag(dm.kind),
            flags.deep_view() == mid + spec_members_flags(dm.module, decl_tag(dm.kind), dm.name,
                mdv.take(j as int),
            ),
        decreases d.members.len() - j,
    {
        proof {
            assert(mdv[j as int] == d.members@[j as int].deep_view());
            assert(mdv.take(j as int + 1).drop_last() =~= mdv.take(j as int));
            assert(mdv.take(j as int + 1).last() == mdv[j as int]);
        }
        push_one_member_flags(&mut flags, &d.module, tag, d.name.as_str(), &d.members[j]);
        proof {
            assert(flags.deep_view() =~= mid + spec_members_flags(
                dm.module,
                decl_tag(dm.kind),
                dm.name,
                mdv.take(j as int + 1),
            ));
        }
        j += 1;
    }
    proof {
        assert(mdv.take(d.members.len() as int) =~= mdv);
        assert(flags.deep_view() =~= spec_declaration_flags(dm));
    }
    flags
}

/// Computes the flags of one parsed item: its declaration's flags, or the
/// relation or member flags of an impl block.
pub fn item_flags(module: &Vec<String>, item: &ParsedItem) -> (flags: Vec<String>)
    ensures
        flags.deep_view() == spec_item_flags(module.deep_view(), item@),
{
    let ghost mdv = module.deep_view();
    match item {
        ParsedItem::TraitImpl { trait_name, self_type } => {
            let mut flags: Vec<String> = Vec::new();
            let f = member_flag(module, "impl", trait_name.as_str(), "for", self_type.as_str());
            flags.push(f);
            proof {
                assert(flags.deep_view() =~= spec_item_flags(mdv, item@));
            }
            flags
        },
        ParsedItem::InherentImpl { self_type, members } => {
            let ghost adv = members.deep_view();
            let mut flags: Vec<String> = Vec::new();
            let mut i: usize = 0;
            while i < members.len()
                invariant
                    0 <= i <= members.len(),
                    adv == members.deep_view(),
                    adv.len() == members.len(),
                    flags.deep_view() == spec_members_flags(
                        module.deep_view(),
                        "impl"@,
                        self_type@,
                        assoc_members(adv.take(i as int)),
                    ),
                decreases members.len() - i,
            {
                proof {
                    assert(adv[i as int] == members@[i as int].deep_view());
                    assert(adv.take(i as int + 1).drop_last() =~= adv.take(i as int));
                    assert(adv.take(i as int + 1).last() == adv[i as int]);
                }
                let m = member_of_assoc(&members[i]);
                push_one_member_flags(&mut flags, module, "impl", self_type.as_str(), &m);
                proof {
                    let s1 = assoc_members(adv.take(i as int + 1));
                    assert(s1.drop_last() =~= assoc_members(adv.take(i as int)));
                    assert(s1.last() == assoc_member(adv[i as int]));
                    assert(flags.deep_view() =~= spec_members_flags(
                        module.deep_view(),
                        "impl"@,
                        self_type@,
                        s1,
                    ));
                }
                i += 1;
            }
            proof {
                assert(adv.take(members.len() as int) =~= adv);
            }
            flags
        },
        _ => {
            let d_opt = item_to_declaration(module, item);
            match d_opt {
                Some(d) => declaration_flags(&d),
                None => {
                    proof {
                        assert(false);
                    }
                    Vec::new()
                },
            }
        },
    }
}

/// Computes every flag of one parsed file, in item order.
pub fn extract_file(module: &Vec<String>, items: &Vec<ParsedItem>) -> (flags: Vec<String>)
    ensures
        flags.deep_view() == spec_file_flags(module.deep_view(), items.deep_view()),
{
    let ghost mdv = module.deep_view();
    let ghost idv = items.deep_view();
    let mut flags: Vec<String> = Vec::new();
    let mut i: usize = 0;
    while i < items.len()
        invariant
            0 <= i <= items.len(),
            mdv == module.deep_view(),
            idv == items.deep_view(),
            idv.len() == items.len(),
            flags.deep_view() == spec_file_flags(mdv, idv.take(i as int)),
        decreases items.len() - i,
    {
        let ghost dv0 = flags.deep_view();
        proof {
            assert(idv[i as int] == items@[i as int].deep_view());
            assert(idv.take(i as int + 1).drop_last() =~= idv.take(i as int));
            assert(idv.take(i as int + 1).last() == idv[i as int]);
        }
        let mut fs = item_flags(module, &items[i]);
        let ghost fs_dv = fs.deep_view();
        flags.append(&mut fs);
        proof {
            assert(flags.deep_view() =~= dv0 + fs_dv);
            assert(flags.deep_view() =~= spec_file_flags(mdv, idv.take(i as int + 1)));
        }
        i += 1;
    }
    proof {
        assert(idv.take(items.len() as int) =~= idv);
    }
    flags
}

/// Builds the normalized declarations of one parsed file.
pub fn declarations_of(module: &Vec<String>, items: &Vec<ParsedItem>) -> (decls: Vec<Declaration>)
    ensures
        decls.deep_view() == spec_file_declarations(module.deep_view(), items.deep_view()),
{
    let ghost mdv = module.deep_view();
    let ghost idv = items.deep_view();
    let mut decls: Vec<Declaration> = Vec::new();
    let mut i: usize = 0;
    while i < items.len()
        invariant
            0 <= i <= items.len(),
            mdv == module.deep_view(),
            idv == items.deep_view(),
            idv.len() == items.len(),
            decls.deep_view() == spec_file_declarations(mdv, idv.take(i as int)),
        decreases items.len() - i,
    {
        proof {
            assert(idv[i as int] == items@[i as int].deep_view());
            assert(idv.take(i as int + 1).drop_last() =~= idv.take(i as int));
            assert(idv.take(i as int + 1).last() == idv[i as int]);
        }
        match item_to_declaration(module, &items[i]) {
            Some(d) => {
                decls.push(d);
            },
            None => {},
        }
        proof {
            assert(decls.deep_view() =~= spec_file_declarations(mdv, idv.take(i as int + 1)));
        }
        i += 1;
    }
    proof {
        assert(idv.take(items.len() as int) =~= idv);
    }
    decls
}

/// Scans one file: extracts its flags and publishes them into the store.
pub fn scan_file(store: &mut FlagStore, module: &Vec<String>, items: &Vec<ParsedItem>)
    ensures
        final(store)@ == old(store)@ + spec_file_flags(
            module.deep_view(),
            items.deep_view(),
        ).to_set(),
{
    let flags = extract_file(module, items);
    store.publish_all(&flags);
}

proof fn lemma_field_flags_all_named(
    module: Seq<Seq<char>>,
    tag: Seq<char>,
    name: Seq<char>,
    fields: Seq<FieldModel>,
)
    requires
        forall|i: int| 0 <= i < fields.len() ==> (#[trigger] fields[i]).name is Some,
    ensures
        spec_members_flags(module, tag, name, field_members(fields)).len() == fields.len(),
        forall|i: int|
            0 <= i < fields.len() ==> spec_members_flags(module, tag, name, field_members(fields))
                .index(i) == spec_member_flag(module, tag, name, "field"@,
                (#[trigger] fields.index(i)).name.unwrap()),
    decreases fields.len(),
{
    if fields.len() > 0 {
        lemma_field_flags_all_named(module, tag, name, fields.drop_last());
        let fm = field_members(fields);
        assert(fields.last().name is Some);
        assert(fm.drop_last() =~= field_members(fields.drop_last()));
        assert(fm.last().member_kind is Field);
        assert(forall|i: int| 0 <= i < fields.len() - 1 ==> fields.drop_last()[i] == fields[i]);
    }
}

proof fn lemma_field_flags_none_named(
    module: Seq<Seq<char>>,
    tag: Seq<char>,
    name: Seq<char>,
    fields: Seq<FieldModel>,
)
    requires
        forall|i: int| 0 <= i < fields.len() ==> (#[trigger] fields[i]).name is None,
    ensures
        spec_members_flags(module, tag, name, field_members(fields)).len() == 0,
    decreases fields.len(),
{
    if fields.len() > 0 {
        lemma_field_flags_none_named(module, tag, name, fields.drop_last());
        assert(forall|i: int| 0 <= i < fields.len() - 1 ==> fields.drop_last()[i] == fields[i]);
        assert(fields.last().name is None);
        assert(field_members(fields) =~= field_members(fields.drop_last()));
    }
}

/// Field enumeration: a struct whose fields are all named yields its
/// declaration flag followed by exactly one member flag per field, in
/// order and named for the field; a struct with only positional fields
/// yields the declaration flag alone.
pub proof fn lemma_struct_field_flags(module: Seq<Seq<char>>, name: Seq<char>, fields: Seq<
    FieldModel,
>)
    ensures
        (forall|i: int| 0 <= i < fields.len() ==> (#[trigger] fields[i]).name is Some) ==> ({
            let flags = spec_item_flags(module, ItemModel::Struct { name, fields });
            &&& flags.len() == 1 + fields.len()
            &&& flags[0] == spec_flag(module, "struct"@, name)
            &&& forall|i: int|
                0 <= i < fields.len() ==> flags[i + 1] == spec_member_flag(module, "struct"@,
                    name, "field"@, (#[trigger] fields[i]).name.unwrap())
        }),
        (forall|i: int| 0 <= i < fields.len() ==> (#[trigger] fields[i]).name is None) ==> ({
            let flags = spec_item_flags(module, ItemModel::Struct { name, fields });
            flags =~= seq![spec_flag(module, "struct"@, name)]
        }),
{
    let flags = spec_item_flags(module, ItemModel::Struct { name, fields });
    let d = spec_item_declaration(module, ItemModel::Struct { name, fields }).unwrap();
    assert(spec_supertype_flags(module, name, Seq::empty()) =~= Seq::empty());
    if forall|i: int| 0 <= i < fields.len() ==> (#[trigger] fields[i]).name is Some {
        lemma_field_flags_all_named(module, "struct"@, name, fields);
    }
    if forall|i: int| 0 <= i < fields.len() ==> (#[trigger] fields[i]).name is None {
        lemma_field_flags_none_named(module, "struct"@, name, fields);
        assert(flags =~= seq![spec_flag(module, "struct"@, name)]);
    }
}

/// Supertype enumeration: a trait declared with supertypes yields exactly
/// one supertype flag per declared relation, named for the supertype.
pub proof fn lemma_trait_supertype_flags(
    module: Seq<Seq<char>>,
    name: Seq<char>,
    supertypes: Seq<Seq<char>>,
)
    ensures
        spec_supertype_flags(module, name, supertypes).len() == supertypes.len(),
        forall|i: int|
            0 <= i < supertypes.len() ==> spec_supertype_flags(module, name, supertypes)[i]
                == spec_member_flag(module, "trait"@, name, "supertrait"@, #[trigger] supertypes[i]),
    decreases supertypes.len(),
{
    if supertypes.len() > 0 {
        lemma_trait_supertype_flags(module, name, supertypes.drop_last());
        assert(forall|i: int|
            0 <= i < supertypes.len() - 1 ==> supertypes.drop_last()[i] == supertypes[i]);
    }
}

proof fn lemma_member_flag_tag_disequal(
    module: Seq<Seq<char>>,
    tag: Seq<char>,
    owner: Seq<char>,
    mt1: Seq<char>,
    nm1: Seq<char>,
    mt2: Seq<char>,
    nm2: Seq<char>,
)
    requires
        mt1.len() > 0,
        mt2.len() > 0,
        mt1[0] != mt2[0],
    ensures
        spec_member_flag(module, tag, owner, mt1, nm1) != spec_member_flag(
            module,
            tag,
            owner,
            mt2,
            nm2,
        ),
{
    let pre = crate::naming::spec_flag(module, tag, owner) + "_"@;
    let f1 = spec_member_flag(module, tag, owner, mt1, nm1);
    let f2 = spec_member_flag(module, tag, owner, mt2, nm2);
    reveal_strlit("_");
    assert(f1[pre.len() as int] == mt1[0]);
    assert(f2[pre.len() as int] == mt2[0]);
}

proof fn lemma_member_flag_same_tag_name(
    module: Seq<Seq<char>>,
    tag: Seq<char>,
    owner: Seq<char>,
    mt: Seq<char>,
    nm1: Seq<char>,
    nm2: Seq<char>,
)
    requires
        spec_member_flag(module, tag, owner, mt, nm1) == spec_member_flag(
            module,
            tag,
            owner,
            mt,
            nm2,
        ),
    ensures
        nm1 == nm2,
{
    let pre = crate::naming::spec_flag(module, tag, owner) + "_"@ + mt + "_"@;
    assert((pre + nm1).skip(pre.len() as int) =~= nm1);
    assert((pre + nm2).skip(pre.len() as int) =~= nm2);
    assert(spec_member_flag(module, tag, owner, mt, nm1) =~= pre + nm1);
    assert(spec_member_flag(module, tag, owner, mt, nm2) =~= pre + nm2);
}

proof fn lemma_assoc_flags_not_supertrait(
    module: Seq<Seq<char>>,
    tag: Seq<char>,
    owner: Seq<char>,
    ms: Seq<AssocModel>,
    sup: Seq<char>,
)
    ensures
        !spec_members_flags(module, tag, owner, assoc_members(ms)).contains(
            spec_member_flag(module, tag, owner, "supertrait"@, sup),
        ),
    decreases ms.len(),
{
    reveal_strlit("supertrait");
    reveal_strlit("fn");
    reveal_strlit("method");
    reveal_strlit("const");
    reveal_strlit("type");
    let target = spec_member_flag(module, tag, owner, "supertrait"@, sup);
    let flags = spec_members_flags(module, tag, owner, assoc_members(ms));
    if ms.len() == 0 {
        assert(assoc_members(ms) =~= Seq::<MemberModel>::empty());
        if flags.contains(target) {
            let i = choose|i: int| 0 <= i < flags.len() && flags[i] == target;
            assert(false);
        }
    } else {
        lemma_assoc_flags_not_supertrait(module, tag, owner, ms.drop_last(), sup);
        let m = assoc_member(ms.last());
        let am = assoc_members(ms);
        assert(am.drop_last() =~= assoc_members(ms.drop_last()));
        assert(am.last() == m);
        let prev = spec_members_flags(module, tag, owner, assoc_members(ms.drop_last()));
        assert(flags == prev + spec_one_member_flags(module, tag, owner, m));
        lemma_member_flag_tag_disequal(module, tag, owner, "fn"@, m.name, "supertrait"@, sup);
        lemma_member_flag_tag_disequal(module, tag, owner, "method"@, m.name, "supertrait"@, sup);
        lemma_member_flag_tag_disequal(module, tag, owner, "const"@, m.name, "supertrait"@, sup);
        lemma_member_flag_tag_disequal(module, tag, owner, "type"@, m.name, "supertrait"@, sup);
        if flags.contains(target) {
            let i = choose|i: int| 0 <= i < flags.len() && flags[i] == target;
            if i < prev.len() {
                assert(prev.contains(target));
            }
            assert(false);
        }
    }
}

/// Supertype lookup: among the flags of one scanned trait declaration, the
/// supertype flag for `sup` occurs exactly when the trait was declared with
/// `sup` as a supertype.  Within one declaration's flags the encoding is
/// injective; across declarations the scheme relies on the kind tags and
/// the full module path, as the naming scheme's construction shows.
pub proof fn lemma_supertype_lookup(
    module: Seq<Seq<char>>,
    name: Seq<char>,
    supertraits: Seq<Seq<char>>,
    members: Seq<AssocModel>,
    sup: Seq<char>,
)
    ensures
        spec_item_flags(module, ItemModel::Trait { name, supertraits, members }).to_set().contains(
            spec_member_flag(module, "trait"@, name, "supertrait"@, sup),
        ) <==> supertraits.contains(sup),
{
    let flags = spec_item_flags(module, ItemModel::Trait { name, supertraits, members });
    let target = spec_member_flag(module, "trait"@, name, "supertrait"@, sup);
    let decl = spec_flag(module, "trait"@, name);
    let sst = spec_supertype_flags(module, name, supertraits);
    let mfl = spec_members_flags(module, "trait"@, name, assoc_members(members));
    assert(flags == seq![decl] + sst + mfl);
    lemma_trait_supertype_flags(module, name, supertraits);
    reveal_strlit("supertrait");
    reveal_strlit("_");
    if supertraits.contains(sup) {
        let i = choose|i: int| 0 <= i < supertraits.len() && supertraits[i] == sup;
        assert(flags[1 + i] == target);
        assert(flags.contains(target));
    }
    if flags.to_set().contains(target) {
        assert(flags.contains(target));
        let i = choose|i: int| 0 <= i < flags.len() && flags[i] == target;
        if i == 0 {
            assert(target.len() > decl.len());
            assert(false);
        } else if i < 1 + sst.len() {
            assert(flags[i] == sst[i - 1]);
            lemma_member_flag_same_tag_name(
                module,
                "trait"@,
                name,
                "supertrait"@,
                supertraits[i - 1],
                sup,
            );
            assert(supertraits.contains(sup));
        } else {
            assert(flags[i] == mfl[i - 1 - sst.len()]);
            assert(mfl.contains(target));
            lemma_assoc_flags_not_supertrait(module, "trait"@, name, members, sup);
            assert(false);
        }
    }
}

proof fn lemma_item_flags_in_file(module: Seq<Seq<char>>, items: Seq<ItemModel>, i: int)
    requires
        0 <= i < items.len(),
    ensures
        forall|f: Seq<char>|
            spec_item_flags(module, items[i]).contains(f) ==> spec_file_flags(
                module,
                items,
            ).contains(f),
    decreases items.len(),
{
    let whole = spec_file_flags(module, items);
    let prev = spec_file_flags(module, items.drop_last());
    let lastf = spec_item_flags(module, items.last());
    if i == items.len() - 1 {
        assert forall|f: Seq<char>| lastf.contains(f) implies whole.contains(f) by {
            let k = choose|k: int| 0 <= k < lastf.len() && lastf[k] == f;
            assert(whole[prev.len() + k] == f);
        }
    } else {
        lemma_item_flags_in_file(module, items.drop_last(), i);
        assert(items.drop_last()[i] == items[i]);
        assert forall|f: Seq<char>|
            spec_item_flags(module, items[i]).contains(f) implies whole.contains(f) by {
            assert(prev.contains(f));
            let k = choose|k: int| 0 <= k < prev.len() && prev[k] == f;
            assert(whole[k] == f);
        }
    }
}

/// A scanned declaration is found: after a file is scanned into a store,
/// the declaration-level flag of every declaration in it is set, so an
/// item-mode lookup through the naming scheme reports it present.
pub proof fn lemma_scanned_declaration_found(
    base: Set<Seq<char>>,
    module: Seq<Seq<char>>,
    items: Seq<ItemModel>,
    i: int,
)
    requires
        0 <= i < items.len(),
        spec_item_declaration(module, items[i]) is Some,
    ensures
        ({
            let d = spec_item_declaration(module, items[i]).unwrap();
            (base + spec_file_flags(module, items).to_set()).contains(
                spec_flag(module, decl_tag(d.kind), d.name),
            )
        }),
{
    let d = spec_item_declaration(module, items[i]).unwrap();
    let target = spec_flag(module, decl_tag(d.kind), d.name);
    let fl = spec_item_flags(module, items[i]);
    assert(fl[0] == target);
    assert(fl.contains(target));
    lemma_item_flags_in_file(module, items, i);
}

/// Scanning the same file a second time leaves the store's contents exactly
/// as one scan left them: the extractor is a pure function of the parsed
/// items, and the store's contents are a set, so re-publishing the same
/// flags adds nothing.
pub proof fn lemma_scan_idempotent(
    base: Set<Seq<char>>,
    module: Seq<Seq<char>>,
    items: Seq<ItemModel>,
)
    ensures
        (base + spec_file_flags(module, items).to_set()) + spec_file_flags(module, items).to_set()
            == base + spec_file_flags(module, items).to_set(),
{
    assert((base + spec_file_flags(module, items).to_set()) + spec_file_flags(
        module,
        items,
    ).to_set() =~= base + spec_file_flags(module, items).to_set());
}

} // verus!
