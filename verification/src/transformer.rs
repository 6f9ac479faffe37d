//! Expansion of one qualifying glob-import statement: one generated import
//! per resolved matched file, under a fresh synthetic identifier, and the
//! aggregation groups that regroup the per-file values and metadata into
//! constant declarations.

use vstd::prelude::*;

use crate::ast::AggregationGroup;
use crate::ast::AggregationGroupV;
use crate::ast::Binding;
use crate::ast::BindingV;
use crate::ast::ConstDecl;
use crate::ast::ConstDeclV;
use crate::ast::Elem;
use crate::ast::ElemV;
use crate::ast::GenImport;
use crate::ast::GenImportV;
use crate::ast::ImportPathsV;
use crate::ast::ImportStmt;
use crate::ast::ImportStmtV;
use crate::ast::OutItemV;
use crate::ast::ValueKind;
use crate::ast::ValueKindV;
use crate::ast::view_const_decls;
use crate::ast::view_gen_imports;
use crate::ast::view_groups;
use crate::ast::view_paths_list;
use crate::ast::view_strings;
use crate::ident::spec_dec;
use crate::plugin::ImportGlobArrayPlugin;
use crate::plugin::spec_resolved_list;
use crate::utils::decls_of_groups;
use crate::utils::get_import_map_expr;
use crate::utils::get_local_specifier_name;
use crate::utils::is_specifier_import_meta_decl;
use crate::utils::spec_is_meta;
use crate::utils::spec_local;
use crate::utils::spec_upsert_one;
use crate::utils::to_var_decls;
use crate::utils::upsert_map;

verus! {

/// The fixed prefix of every synthetic identifier.
pub open spec fn spec_id_prefix() -> Seq<char> {
    "_globImport"@
}

/// The fixed prefix of every synthetic identifier.
pub fn id_prefix() -> (r: &'static str)
    ensures
        r@ == spec_id_prefix(),
{
    "_globImport"
}

/// The synthetic identifier of the `k`-th resolved file of an expansion
/// that starts with the counter at `counter`.
pub open spec fn spec_slot_id(counter: nat, k: int) -> Seq<char> {
    spec_id_prefix() + spec_dec((counter + k + 1) as nat)
}

/// The binding kind a value specifier asks for.
pub open spec fn spec_binding_value_kind(b: BindingV) -> ValueKindV {
    match b {
        BindingV::DefaultImport { local: _ } => ValueKindV::DefaultValue,
        BindingV::NamespaceImport { local: _ } => ValueKindV::NamespaceValue,
        BindingV::NamedImport { imported, local: _ } => ValueKindV::NamedValue { imported },
    }
}

/// The binding kind generated imports mirror: that of the statement's first
/// value specifier, or a default binding under a throwaway name when every
/// specifier is the metadata pseudo-binding.
pub open spec fn spec_stmt_value_kind(specs: Seq<BindingV>) -> ValueKindV
    decreases specs.len(),
{
    if specs.len() == 0 {
        ValueKindV::DefaultValue
    } else if !spec_is_meta(specs.first()) {
        spec_binding_value_kind(specs.first())
    } else {
        spec_stmt_value_kind(specs.drop_first())
    }
}

/// The array element a specifier contributes for one resolved file: a
/// reference to the file's synthetic import for a value specifier, the
/// file's metadata object for the metadata pseudo-binding.
pub open spec fn spec_slot(b: BindingV, r: ImportPathsV, ident: Seq<char>) -> ElemV {
    if spec_is_meta(b) {
        ElemV::Meta { paths: r }
    } else {
        ElemV::Ref { ident }
    }
}

/// The elements specifier `b` contributes, one per resolved file, in match
/// order.
pub open spec fn spec_elems_for(b: BindingV, resolved: Seq<ImportPathsV>, counter: nat) -> Seq<
    ElemV,
> {
    Seq::new(resolved.len(), |k: int| spec_slot(b, resolved[k], spec_slot_id(counter, k)))
}

/// `groups0` after upserting specifier `b`'s elements for the first `n`
/// resolved files, in match order.
pub open spec fn spec_groups_files(
    groups0: Seq<AggregationGroupV>,
    b: BindingV,
    resolved: Seq<ImportPathsV>,
    counter: nat,
    n: int,
) -> Seq<AggregationGroupV>
    decreases n,
{
    if n <= 0 {
        groups0
    } else {
        spec_upsert_one(
            spec_groups_files(groups0, b, resolved, counter, n - 1),
            spec_local(b),
            spec_slot(b, resolved[n - 1], spec_slot_id(counter, n - 1)),
        )
    }
}

/// The aggregation groups of the specifiers on one side of the
/// value/metadata split, keyed by their local binding names, built in
/// specifier order with elements in match order.
pub open spec fn spec_groups(
    specs: Seq<BindingV>,
    resolved: Seq<ImportPathsV>,
    counter: nat,
    want_meta: bool,
) -> Seq<AggregationGroupV>
    decreases specs.len(),
{
    if specs.len() == 0 {
        Seq::empty()
    } else {
        let front = spec_groups(specs.drop_last(), resolved, counter, want_meta);
        if spec_is_meta(specs.last()) == want_meta {
            spec_groups_files(front, specs.last(), resolved, counter, resolved.len() as int)
        } else {
            front
        }
    }
}

/// The generated import statements of one expansion: the `k`-th binds the
/// `k`-th resolved file's specifier under the `k`-th synthetic identifier.
pub open spec fn spec_gen_imports(
    stmt: ImportStmtV,
    resolved: Seq<ImportPathsV>,
    counter: nat,
) -> Seq<GenImportV> {
    Seq::new(
        resolved.len(),
        |k: int|
            GenImportV {
                local: spec_slot_id(counter, k),
                kind: spec_stmt_value_kind(stmt.specifiers),
                src: resolved[k].imported_path,
            },
    )
}

/// The replacement span of one qualifying statement: its generated imports,
/// then its value constant declarations, then its metadata constant
/// declarations; an empty span when no matched file resolved.
pub open spec fn spec_expansion(
    stmt: ImportStmtV,
    resolved: Seq<ImportPathsV>,
    counter: nat,
) -> Seq<OutItemV> {
    if resolved.len() == 0 {
        Seq::empty()
    } else {
        spec_gen_imports(stmt, resolved, counter).map_values(
            |g: GenImportV| OutItemV::Import { import: g },
        ) + decls_of_groups(spec_groups(stmt.specifiers, resolved, counter, false)).map_values(
            |d: ConstDeclV| OutItemV::Decl { decl: d },
        ) + decls_of_groups(spec_groups(stmt.specifiers, resolved, counter, true)).map_values(
            |d: ConstDeclV| OutItemV::Decl { decl: d },
        )
    }
}

/// A copy of a binding kind.
fn clone_value_kind(k: &ValueKind) -> (r: ValueKind)
    ensures
        r@ == k@,
{
    match k {
        ValueKind::DefaultValue => ValueKind::DefaultValue,
        ValueKind::NamespaceValue => ValueKind::NamespaceValue,
        ValueKind::NamedValue { imported } => ValueKind::NamedValue { imported: imported.clone() },
    }
}

/// The binding kind the statement's generated imports mirror.
fn stmt_value_kind(specifiers: &Vec<Binding>) -> (r: ValueKind)
    ensures
        r@ == spec_stmt_value_kind(specifiers@.map_values(|b: Binding| b@)),
{
    let ghost sv = specifiers@.map_values(|b: Binding| b@);
    proof {
        assert(sv.skip(0) =~= sv);
    }
    let mut i: usize = 0;
    while i < specifiers.len()
        invariant
            i <= specifiers.len(),
            sv == specifiers@.map_values(|b: Binding| b@),
            spec_stmt_value_kind(sv) == spec_stmt_value_kind(sv.skip(i as int)),
        decreases specifiers.len() - i,
    {
        let b = &specifiers[i];
        let is_meta = match is_specifier_import_meta_decl(b) {
            Some(m) => m,
            None => false,
        };
        proof {
            assert(sv.skip(i as int).first() == sv[i as int]);
            assert(sv[i as int] == specifiers@[i as int]@);
        }
        if !is_meta {
            return clone_value_kind_of_binding(b);
        }
        proof {
            assert(sv.skip(i as int).drop_first() =~= sv.skip(i as int + 1));
        }
        i += 1;
    }
    proof {
        assert(sv.skip(i as int) =~= Seq::<BindingV>::empty());
    }
    ValueKind::DefaultValue
}

/// The binding kind one value specifier asks for.
fn clone_value_kind_of_binding(b: &Binding) -> (r: ValueKind)
    ensures
        r@ == spec_binding_value_kind(b@),
{
    match b {
        Binding::DefaultImport { local: _ } => ValueKind::DefaultValue,
        Binding::NamespaceImport { local: _ } => ValueKind::NamespaceValue,
        Binding::NamedImport { imported, local: _ } => ValueKind::NamedValue {
            imported: imported.clone(),
        },
    }
}

/// Expand one qualifying glob-import statement against its matched paths.
///
/// Matched paths that do not resolve are silently skipped; the identifier
/// counter moves up once per resolved file. The result is `None`, and the
/// statement's replacement span empty, exactly when no matched file
/// resolved; otherwise it carries the generated imports, the value constant
/// declarations, and the metadata constant declarations.
pub fn transform_import_decl(
    plugin: &mut ImportGlobArrayPlugin,
    import_decl: &ImportStmt,
    matched_paths: &Vec<String>,
) -> (r: Option<(Vec<GenImport>, Vec<ConstDecl>, Vec<ConstDecl>)>)
    requires
        old(plugin).wf(),
        old(plugin).id_counter + matched_paths@.len() <= u64::MAX,
    ensures
        final(plugin).cwd == old(plugin).cwd,
        final(plugin).filename == old(plugin).filename,
        ({
            let resolved = spec_resolved_list(
                old(plugin).cwd@,
                old(plugin).filename@,
                view_strings(matched_paths@),
            );
            let c0 = old(plugin).id_counter as nat;
            &&& final(plugin).id_counter == old(plugin).id_counter + resolved.len()
            &&& match r {
                Some(t) => resolved.len() > 0 && view_gen_imports(t.0@) == spec_gen_imports(
                    import_decl@,
                    resolved,
                    c0,
                ) && view_const_decls(t.1@) == decls_of_groups(
                    spec_groups(import_decl@.specifiers, resolved, c0, false),
                ) && view_const_decls(t.2@) == decls_of_groups(
                    spec_groups(import_decl@.specifiers, resolved, c0, true),
                ),
                None => resolved.len() == 0,
            }
        }),
{
    let ghost cwd0 = old(plugin).cwd@;
    let ghost f0 = old(plugin).filename@;
    let ghost c0 = old(plugin).id_counter;
    let ghost pathsv = view_strings(matched_paths@);
    let ghost stmtv = import_decl@;

    let kind = stmt_value_kind(&import_decl.specifiers);
    let prefix = id_prefix();
    let mut resolved: Vec<crate::ast::ImportPaths> = Vec::new();
    let mut imports: Vec<GenImport> = Vec::new();

    let mut i: usize = 0;
    while i < matched_paths.len()
        invariant
            i <= matched_paths@.len(),
            pathsv == view_strings(matched_paths@),
            stmtv == import_decl@,
            plugin.cwd == old(plugin).cwd,
            plugin.filename == old(plugin).filename,
            plugin.wf(),
            cwd0 == plugin.cwd@,
            f0 == plugin.filename@,
            c0 == old(plugin).id_counter,
            c0 + pathsv.len() <= u64::MAX,
            resolved@.len() <= i,
            imports@.len() == resolved@.len(),
            plugin.id_counter == c0 + resolved@.len(),
            view_paths_list(resolved@) == spec_resolved_list(cwd0, f0, pathsv.take(i as int)),
            view_gen_imports(imports@) == spec_gen_imports(
                stmtv,
                view_paths_list(resolved@),
                c0 as nat,
            ),
            kind@ == spec_stmt_value_kind(stmtv.specifiers),
            prefix@ == spec_id_prefix(),
        decreases matched_paths@.len() - i,
    {
        let ghost r0 = resolved@;
        let ghost i0 = imports@;
        let path = &matched_paths[i];
        proof {
            assert(pathsv[i as int] == matched_paths@[i as int]@);
            assert(pathsv.take(i as int + 1).drop_last() =~= pathsv.take(i as int));
            assert(pathsv.take(i as int + 1).last() == pathsv[i as int]);
        }
        match plugin.get_paths(path) {
            Some(ip) => {
                let ghost ipv = ip@;
                let ident = plugin.next_id(prefix);
                let k2 = clone_value_kind(&kind);
                let src2 = ip.imported_path.clone();
                imports.push(GenImport { local: ident, kind: k2, src: src2 });
                resolved.push(ip);
                proof {
                    assert(view_paths_list(resolved@) =~= view_paths_list(r0).push(ipv));
                    assert(view_paths_list(resolved@) == spec_resolved_list(
                        cwd0,
                        f0,
                        pathsv.take(i as int + 1),
                    ));
                    let rv = view_paths_list(resolved@);
                    let gi = spec_gen_imports(stmtv, rv, c0 as nat);
                    assert forall|k: int| 0 <= k < imports@.len() implies view_gen_imports(
                        imports@,
                    )[k] == gi[k] by {
                        assert(view_gen_imports(imports@)[k] == imports@[k]@);
                        if k < i0.len() {
                            assert(imports@[k] == i0[k]);
                            assert(view_gen_imports(i0)[k] == i0[k]@);
                            assert(rv[k] == view_paths_list(r0)[k]);
                        } else {
                            assert(rv[k] == ipv);
                        }
                    }
                    assert(view_gen_imports(imports@) =~= gi);
                }
            },
            None => {
            },
        }
        i += 1;
    }
    proof {
        assert(pathsv.take(i as int) =~= pathsv);
    }

    if resolved.len() == 0 {
        return None;
    }

    let ghost p1 = *plugin;
    let ghost rv = view_paths_list(resolved@);
    let ghost c0n = c0 as nat;
    let ghost specv = stmtv.specifiers;

    let mut value_groups: Vec<AggregationGroup> = Vec::new();
    let mut meta_groups: Vec<AggregationGroup> = Vec::new();
    let mut s: usize = 0;
    while s < import_decl.specifiers.len()
        invariant
            s <= import_decl.specifiers@.len(),
            stmtv == import_decl@,
            specv == stmtv.specifiers,
            *plugin == p1,
            rv == view_paths_list(resolved@),
            rv.len() == resolved@.len(),
            imports@.len() == resolved@.len(),
            view_gen_imports(imports@) == spec_gen_imports(stmtv, rv, c0n),
            view_groups(value_groups@) == spec_groups(specv.take(s as int), rv, c0n, false),
            view_groups(meta_groups@) == spec_groups(specv.take(s as int), rv, c0n, true),
        decreases import_decl.specifiers@.len() - s,
    {
        let b = &import_decl.specifiers[s];
        let ghost bv = b@;
        proof {
            assert(specv[s as int] == bv);
            assert(specv.take(s as int + 1).drop_last() =~= specv.take(s as int));
            assert(specv.take(s as int + 1).last() == bv);
        }
        let local = get_local_specifier_name(b);
        let is_meta = match is_specifier_import_meta_decl(b) {
            Some(m) => m,
            None => false,
        };
        let ghost front_false = spec_groups(specv.take(s as int), rv, c0n, false);
        let ghost front_true = spec_groups(specv.take(s as int), rv, c0n, true);
        let mut k: usize = 0;
        if is_meta {
            while k < resolved.len()
                invariant
                    k <= resolved@.len(),
                    is_meta == spec_is_meta(bv),
                    is_meta,
                    bv == b@,
                    local@ == spec_local(bv),
                    rv == view_paths_list(resolved@),
                    rv.len() == resolved@.len(),
                    view_groups(meta_groups@) == spec_groups_files(
                        front_true,
                        bv,
                        rv,
                        c0n,
                        k as int,
                    ),
                decreases resolved@.len() - k,
            {
                let elem = get_import_map_expr(&resolved[k]);
                proof {
                    assert(rv[k as int] == resolved@[k as int]@);
                    assert(elem@ == spec_slot(bv, rv[k as int], spec_slot_id(c0n, k as int)));
                }
                upsert_map(&mut meta_groups, &local, elem);
                k += 1;
            }
        } else {
            while k < resolved.len()
                invariant
                    k <= resolved@.len(),
                    is_meta == spec_is_meta(bv),
                    !is_meta,
                    bv == b@,
                    local@ == spec_local(bv),
                    rv == view_paths_list(resolved@),
                    rv.len() == resolved@.len(),
                    imports@.len() == resolved@.len(),
                    view_gen_imports(imports@) == spec_gen_imports(stmtv, rv, c0n),
                    view_groups(value_groups@) == spec_groups_files(
                        front_false,
                        bv,
                        rv,
                        c0n,
                        k as int,
                    ),
                decreases resolved@.len() - k,
            {
                let ident = imports[k].local.clone();
                proof {
                    assert(view_gen_imports(imports@)[k as int] == imports@[k as int]@);
                    assert(ident@ == spec_slot_id(c0n, k as int));
                }
                let elem = Elem::Ref { ident };
                proof {
                    assert(elem@ == spec_slot(bv, rv[k as int], spec_slot_id(c0n, k as int)));
                }
                upsert_map(&mut value_groups, &local, elem);
                k += 1;
            }
        }
        proof {
            if is_meta {
                assert(view_groups(meta_groups@) == spec_groups(
                    specv.take(s as int + 1),
                    rv,
                    c0n,
                    true,
                ));
                assert(view_groups(value_groups@) == spec_groups(
                    specv.take(s as int + 1),
                    rv,
                    c0n,
                    false,
                ));
            } else {
                assert(view_groups(value_groups@) == spec_groups(
                    specv.take(s as int + 1),
                    rv,
                    c0n,
                    false,
                ));
                assert(view_groups(meta_groups@) == spec_groups(
                    specv.take(s as int + 1),
                    rv,
                    c0n,
                    true,
                ));
            }
        }
        s += 1;
    }
    proof {
        assert(specv.take(s as int) =~= specv);
    }

    let value_decls = to_var_decls(value_groups);
    let meta_decls = to_var_decls(meta_groups);
    Some((imports, value_decls, meta_decls))
}

} // verus!
