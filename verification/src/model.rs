//! The declaration model: what one parsed file contains, and the normalized
//! record the extractor builds for each scanned declaration.
//!
//! `ParsedItem` is the shape in which the external parser's output reaches
//! the library: one entry per top-level item of a file, already reduced to
//! plain names.  `Declaration` is the extractor's normalized record of one
//! declaration (kind, module path, name, members, supertypes).  Each
//! executable type has a ghost model (`ItemModel`, `DeclarationModel`, ...)
//! that the contracts speak about.

use vstd::prelude::*;

verus! {

/// The kind of a scanned top-level declaration.
#[derive(Clone, Copy, PartialEq, Eq, Structural, Debug)]
pub enum DeclKind {
    Struct,
    Enum,
    Union,
    Trait,
    Function,
}

/// The kind of one member of a declaration.  An associated function is
/// classified as `Method` exactly when its first parameter is a receiver;
/// both granularities of lookup are served by emitting a function flag for
/// methods as well.
#[derive(Clone, Copy, PartialEq, Eq, Structural, Debug)]
pub enum MemberKind {
    Field,
    Variant,
    Const,
    Function,
    Method,
    TypeAlias,
}

/// The kind of an associated item as the parser reports it, before
/// function/method classification.
#[derive(Clone, Copy, PartialEq, Eq, Structural, Debug)]
pub enum AssocKind {
    Const,
    Function,
    TypeAlias,
}

/// One field of a struct or union as the parser reports it; a positional
/// field carries no name.
pub struct FieldDecl {
    pub name: Option<String>,
}

/// Ghost model of a `FieldDecl`.
#[verifier::ext_equal]
pub struct FieldModel {
    pub name: Option<Seq<char>>,
}

impl View for FieldDecl {
    type V = FieldModel;

    open spec fn view(&self) -> FieldModel {
        FieldModel { name: self.name.deep_view() }
    }
}

impl DeepView for FieldDecl {
    type V = FieldModel;

    open spec fn deep_view(&self) -> FieldModel {
        self.view()
    }
}

/// One associated item of a trait or of an inherent impl block as the
/// parser reports it.
pub struct AssocItem {
    pub kind: AssocKind,
    pub name: String,
    pub has_self_receiver: bool,
}

/// Ghost model of an `AssocItem`.
#[verifier::ext_equal]
pub struct AssocModel {
    pub kind: AssocKind,
    pub name: Seq<char>,
    pub has_self_receiver: bool,
}

impl View for AssocItem {
    type V = AssocModel;

    open spec fn view(&self) -> AssocModel {
        AssocModel { kind: self.kind, name: self.name@, has_self_receiver: self.has_self_receiver }
    }
}

impl DeepView for AssocItem {
    type V = AssocModel;

    open spec fn deep_view(&self) -> AssocModel {
        self.view()
    }
}

/// One top-level item of a parsed file.  Impl blocks appear here although
/// they are not stored as declarations: a trait impl contributes a single
/// relation fact, an inherent impl attributes its members to the self type.
pub enum ParsedItem {
    Struct { name: String, fields: Vec<FieldDecl> },
    Enum { name: String, variants: Vec<String> },
    Union { name: String, fields: Vec<FieldDecl> },
    Function { name: String },
    Trait { name: String, supertraits: Vec<String>, members: Vec<AssocItem> },
    TraitImpl { trait_name: String, self_type: String },
    InherentImpl { self_type: String, members: Vec<AssocItem> },
}

/// Ghost model of a `ParsedItem`.
#[verifier::ext_equal]
pub enum ItemModel {
    Struct { name: Seq<char>, fields: Seq<FieldModel> },
    Enum { name: Seq<char>, variants: Seq<Seq<char>> },
    Union { name: Seq<char>, fields: Seq<FieldModel> },
    Function { name: Seq<char> },
    Trait { name: Seq<char>, supertraits: Seq<Seq<char>>, members: Seq<AssocModel> },
    TraitImpl { trait_name: Seq<char>, self_type: Seq<char> },
    InherentImpl { self_type: Seq<char>, members: Seq<AssocModel> },
}

impl View for ParsedItem {
    type V = ItemModel;

    open spec fn view(&self) -> ItemModel {
        match self {
            ParsedItem::Struct { name, fields } => ItemModel::Struct {
                name: name@,
                fields: fields.deep_view(),
            },
            ParsedItem::Enum { name, variants } => ItemModel::Enum {
                name: name@,
                variants: variants.deep_view(),
            },
            ParsedItem::Union { name, fields } => ItemModel::Union {
                name: name@,
                fields: fields.deep_view(),
            },
            ParsedItem::Function { name } => ItemModel::Function { name: name@ },
            ParsedItem::Trait { name, supertraits, members } => ItemModel::Trait {
                name: name@,
                supertraits: supertraits.deep_view(),
                members: members.deep_view(),
            },
            ParsedItem::TraitImpl { trait_name, self_type } => ItemModel::TraitImpl {
                trait_name: trait_name@,
                self_type: self_type@,
            },
            ParsedItem::InherentImpl { self_type, members } => ItemModel::InherentImpl {
                self_type: self_type@,
                members: members.deep_view(),
            },
        }
    }
}

impl DeepView for ParsedItem {
    type V = ItemModel;

    open spec fn deep_view(&self) -> ItemModel {
        self.view()
    }
}

/// One member of a normalized declaration.
pub struct Member {
    pub member_kind: MemberKind,
    pub name: String,
    pub has_self_receiver: bool,
}

/// Ghost model of a `Member`.
#[verifier::ext_equal]
pub struct MemberModel {
    pub member_kind: MemberKind,
    pub name: Seq<char>,
    pub has_self_receiver: bool,
}

impl View for Member {
    type V = MemberModel;

    open spec fn view(&self) -> MemberModel {
        MemberModel {
            member_kind: self.member_kind,
            name: self.name@,
            has_self_receiver: self.has_self_receiver,
        }
    }
}

impl DeepView for Member {
    type V = MemberModel;

    open spec fn deep_view(&self) -> MemberModel {
        self.view()
    }
}

impl MemberModel {
    /// A member is classified as `Method` exactly when it has a receiver;
    /// no other member kind carries one.
    pub open spec fn wf(self) -> bool {
        self.has_self_receiver <==> self.member_kind is Method
    }
}

/// The normalized record of one scanned declaration.  The module path is
/// derived solely from the file's location under the scanned root, never
/// from file contents.
pub struct Declaration {
    pub kind: DeclKind,
    pub module: Vec<String>,
    pub name: String,
    pub members: Vec<Member>,
    pub supertypes: Vec<String>,
}

/// Ghost model of a `Declaration`.
#[verifier::ext_equal]
pub struct DeclarationModel {
    pub kind: DeclKind,
    pub module: Seq<Seq<char>>,
    pub name: Seq<char>,
    pub members: Seq<MemberModel>,
    pub supertypes: Seq<Seq<char>>,
}

impl View for Declaration {
    type V = DeclarationModel;

    open spec fn view(&self) -> DeclarationModel {
        DeclarationModel {
            kind: self.kind,
            module: self.module.deep_view(),
            name: self.name@,
            members: self.members.deep_view(),
            supertypes: self.supertypes.deep_view(),
        }
    }
}

impl DeepView for Declaration {
    type V = DeclarationModel;

    open spec fn deep_view(&self) -> DeclarationModel {
        self.view()
    }
}

impl DeclarationModel {
    /// Which member kinds a declaration of each kind may hold; only traits
    /// carry supertypes.
    pub open spec fn wf(self) -> bool {
        &&& (forall|i: int| 0 <= i < self.members.len() ==> (#[trigger] self.members[i]).wf())
        &&& match self.kind {
            DeclKind::Struct | DeclKind::Union => {
                &&& self.supertypes.len() == 0
                &&& forall|i: int|
                    0 <= i < self.members.len() ==> (#[trigger] self.members[i]).member_kind
                        is Field
            },
            DeclKind::Enum => {
                &&& self.supertypes.len() == 0
                &&& forall|i: int|
                    0 <= i < self.members.len() ==> (#[trigger] self.members[i]).member_kind
                        is Variant
            },
            DeclKind::Function => self.supertypes.len() == 0 && self.members.len() == 0,
            DeclKind::Trait => forall|i: int|
                0 <= i < self.members.len() ==> !((#[trigger] self.members[i]).member_kind
                    is Field) && !(self.members[i].member_kind is Variant),
        }
    }
}

} // verus!
