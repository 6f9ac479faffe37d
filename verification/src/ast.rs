//! The statement-list model the transform works on, and the shapes it emits.
//!
//! An input module is a list of items: import statements, given with their
//! source specifier and binding specifiers, and opaque non-import items. An
//! output item is either one input item kept unchanged (named by its index),
//! a generated concrete import, or a generated constant declaration binding a
//! name to an ordered array of elements.

use vstd::prelude::*;

verus! {

/// One binding specifier of an import statement. A named specifier carries
/// the imported name and the local alias; `import { x } from ...` is
/// modelled with `imported` equal to `local`.
pub enum Binding {
    DefaultImport { local: String },
    NamespaceImport { local: String },
    NamedImport { imported: String, local: String },
}

/// Mathematical value of a `Binding`.
pub enum BindingV {
    DefaultImport { local: Seq<char> },
    NamespaceImport { local: Seq<char> },
    NamedImport { imported: Seq<char>, local: Seq<char> },
}

impl View for Binding {
    type V = BindingV;

    open spec fn view(&self) -> BindingV {
        match self {
            Binding::DefaultImport { local } => BindingV::DefaultImport { local: local@ },
            Binding::NamespaceImport { local } => BindingV::NamespaceImport { local: local@ },
            Binding::NamedImport { imported, local } => BindingV::NamedImport {
                imported: imported@,
                local: local@,
            },
        }
    }
}

/// An import statement: its source specifier and its binding specifiers,
/// in source order.
pub struct ImportStmt {
    pub src: String,
    pub specifiers: Vec<Binding>,
}

/// Mathematical value of an `ImportStmt`.
pub struct ImportStmtV {
    pub src: Seq<char>,
    pub specifiers: Seq<BindingV>,
}

impl View for ImportStmt {
    type V = ImportStmtV;

    open spec fn view(&self) -> ImportStmtV {
        ImportStmtV { src: self.src@, specifiers: self.specifiers@.map_values(|b: Binding| b@) }
    }
}

/// One item of the input module: an import statement, or any other item,
/// which the transform never inspects.
pub enum ModuleItem {
    Import { stmt: ImportStmt },
    Other,
}

/// Mathematical value of a `ModuleItem`.
pub enum ModuleItemV {
    Import { stmt: ImportStmtV },
    Other,
}

impl View for ModuleItem {
    type V = ModuleItemV;

    open spec fn view(&self) -> ModuleItemV {
        match self {
            ModuleItem::Import { stmt } => ModuleItemV::Import { stmt: stmt@ },
            ModuleItem::Other => ModuleItemV::Other,
        }
    }
}

/// The input module: its items in source order.
pub struct Module {
    pub body: Vec<ModuleItem>,
}

/// Mathematical value of a `Module`.
pub struct ModuleV {
    pub body: Seq<ModuleItemV>,
}

impl View for Module {
    type V = ModuleV;

    open spec fn view(&self) -> ModuleV {
        ModuleV { body: self.body@.map_values(|it: ModuleItem| it@) }
    }
}

/// How a generated import binds the matched file's value content: mirroring
/// the original statement's default, namespace, or named value specifier.
pub enum ValueKind {
    DefaultValue,
    NamespaceValue,
    NamedValue { imported: String },
}

/// Mathematical value of a `ValueKind`.
pub enum ValueKindV {
    DefaultValue,
    NamespaceValue,
    NamedValue { imported: Seq<char> },
}

impl View for ValueKind {
    type V = ValueKindV;

    open spec fn view(&self) -> ValueKindV {
        match self {
            ValueKind::DefaultValue => ValueKindV::DefaultValue,
            ValueKind::NamespaceValue => ValueKindV::NamespaceValue,
            ValueKind::NamedValue { imported } => ValueKindV::NamedValue { imported: imported@ },
        }
    }
}

/// A generated concrete import statement: a fresh local identifier bound to
/// one matched file's module content.
pub struct GenImport {
    pub local: String,
    pub kind: ValueKind,
    pub src: String,
}

/// Mathematical value of a `GenImport`.
pub struct GenImportV {
    pub local: Seq<char>,
    pub kind: ValueKindV,
    pub src: Seq<char>,
}

impl View for GenImport {
    type V = GenImportV;

    open spec fn view(&self) -> GenImportV {
        GenImportV { local: self.local@, kind: self.kind@, src: self.src@ }
    }
}

/// The two path renderings of one matched file: its on-disk absolute path
/// and the specifier under which it is imported.
pub struct ImportPaths {
    pub absolute_path: String,
    pub imported_path: String,
}

/// Mathematical value of an `ImportPaths`.
pub struct ImportPathsV {
    pub absolute_path: Seq<char>,
    pub imported_path: Seq<char>,
}

impl View for ImportPaths {
    type V = ImportPathsV;

    open spec fn view(&self) -> ImportPathsV {
        ImportPathsV { absolute_path: self.absolute_path@, imported_path: self.imported_path@ }
    }
}

/// One element of a generated aggregate array: a reference to a generated
/// import's identifier, or an object literal with the fields `absolutePath`
/// and `importedPath` describing one matched file.
pub enum Elem {
    Ref { ident: String },
    Meta { paths: ImportPaths },
}

/// Mathematical value of an `Elem`.
pub enum ElemV {
    Ref { ident: Seq<char> },
    Meta { paths: ImportPathsV },
}

impl View for Elem {
    type V = ElemV;

    open spec fn view(&self) -> ElemV {
        match self {
            Elem::Ref { ident } => ElemV::Ref { ident: ident@ },
            Elem::Meta { paths } => ElemV::Meta { paths: paths@ },
        }
    }
}

/// One destination binding name together with its collected array elements,
/// one per matched file, in match order.
pub struct AggregationGroup {
    pub name: String,
    pub elems: Vec<Elem>,
}

/// Mathematical value of an `AggregationGroup`.
pub struct AggregationGroupV {
    pub name: Seq<char>,
    pub elems: Seq<ElemV>,
}

impl View for AggregationGroup {
    type V = AggregationGroupV;

    open spec fn view(&self) -> AggregationGroupV {
        AggregationGroupV { name: self.name@, elems: self.elems@.map_values(|e: Elem| e@) }
    }
}

/// A generated constant declaration `const name = [elems...];`.
pub struct ConstDecl {
    pub name: String,
    pub elems: Vec<Elem>,
}

/// Mathematical value of a `ConstDecl`.
pub struct ConstDeclV {
    pub name: Seq<char>,
    pub elems: Seq<ElemV>,
}

impl View for ConstDecl {
    type V = ConstDeclV;

    open spec fn view(&self) -> ConstDeclV {
        ConstDeclV { name: self.name@, elems: self.elems@.map_values(|e: Elem| e@) }
    }
}

/// One item of the rewritten module: an input item kept unchanged (named by
/// its index in the input body), a generated import, or a generated constant
/// declaration.
pub enum OutItem {
    Keep { idx: usize },
    Import { import: GenImport },
    Decl { decl: ConstDecl },
}

/// Mathematical value of an `OutItem`.
pub enum OutItemV {
    Keep { idx: int },
    Import { import: GenImportV },
    Decl { decl: ConstDeclV },
}

impl View for OutItem {
    type V = OutItemV;

    open spec fn view(&self) -> OutItemV {
        match self {
            OutItem::Keep { idx } => OutItemV::Keep { idx: *idx as int },
            OutItem::Import { import } => OutItemV::Import { import: import@ },
            OutItem::Decl { decl } => OutItemV::Decl { decl: decl@ },
        }
    }
}

/// The views of a list of strings.
pub open spec fn view_strings(s: Seq<String>) -> Seq<Seq<char>> {
    s.map_values(|x: String| x@)
}

/// The views of a list of string lists.
pub open spec fn view_string_lists(s: Seq<Vec<String>>) -> Seq<Seq<Seq<char>>> {
    s.map_values(|v: Vec<String>| view_strings(v@))
}

/// The views of a list of aggregation groups.
pub open spec fn view_groups(s: Seq<AggregationGroup>) -> Seq<AggregationGroupV> {
    s.map_values(|g: AggregationGroup| g@)
}

/// The views of a list of generated imports.
pub open spec fn view_gen_imports(s: Seq<GenImport>) -> Seq<GenImportV> {
    s.map_values(|g: GenImport| g@)
}

/// The views of a list of constant declarations.
pub open spec fn view_const_decls(s: Seq<ConstDecl>) -> Seq<ConstDeclV> {
    s.map_values(|d: ConstDecl| d@)
}

/// The views of a list of output items.
pub open spec fn view_out_items(s: Seq<OutItem>) -> Seq<OutItemV> {
    s.map_values(|o: OutItem| o@)
}

/// The views of a list of matched-file path pairs.
pub open spec fn view_paths_list(s: Seq<ImportPaths>) -> Seq<ImportPathsV> {
    s.map_values(|p: ImportPaths| p@)
}

} // verus!
