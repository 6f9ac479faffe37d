//! Helpers shared by the declaration synthesizer: the metadata sentinel, the
//! local name of a specifier, metadata array elements, and the keyed upsert
//! that collects array elements into aggregation groups.

use vstd::prelude::*;

use crate::ast::AggregationGroup;
use crate::ast::AggregationGroupV;
use crate::ast::Binding;
use crate::ast::BindingV;
use crate::ast::ConstDecl;
use crate::ast::ConstDeclV;
use crate::ast::Elem;
use crate::ast::ElemV;
use crate::ast::ImportPaths;
use crate::ast::view_const_decls;
use crate::ast::view_groups;
use crate::paths::str_eq;

verus! {

/// The sentinel imported name that requests per-file metadata.
pub open spec fn spec_import_meta_name() -> Seq<char> {
    "_importMeta"@
}

/// The sentinel imported name that requests per-file metadata.
pub fn import_meta_name() -> (r: &'static str)
    ensures
        r@ == spec_import_meta_name(),
{
    "_importMeta"
}

/// The local binding name of a specifier: its alias when renamed.
pub open spec fn spec_local(b: BindingV) -> Seq<char> {
    match b {
        BindingV::DefaultImport { local } => local,
        BindingV::NamespaceImport { local } => local,
        BindingV::NamedImport { imported: _, local } => local,
    }
}

/// Whether a specifier is the metadata pseudo-binding: a named specifier
/// whose imported name is the sentinel.
pub open spec fn spec_is_meta(b: BindingV) -> bool {
    match b {
        BindingV::NamedImport { imported, local: _ } => imported == spec_import_meta_name(),
        _ => false,
    }
}

/// Get the "local" import symbol name: the name a default or namespace
/// specifier binds, or the (possibly renamed) alias of a named specifier.
pub fn get_local_specifier_name(specifier: &Binding) -> (r: String)
    ensures
        r@ == spec_local(specifier@),
{
    match specifier {
        Binding::DefaultImport { local } => local.clone(),
        Binding::NamespaceImport { local } => local.clone(),
        Binding::NamedImport { imported: _, local } => local.clone(),
    }
}

/// Whether a named specifier's imported name equals the metadata sentinel;
/// `None` for default and namespace specifiers, which import no name.
pub fn is_specifier_import_meta_decl(specifier: &Binding) -> (r: Option<bool>)
    ensures
        r == (match specifier@ {
            BindingV::NamedImport { imported: _, local: _ } => Some(spec_is_meta(specifier@)),
            _ => Option::<bool>::None,
        }),
{
    match specifier {
        Binding::NamedImport { imported, local: _ } => Some(
            str_eq(imported.as_str(), import_meta_name()),
        ),
        _ => None,
    }
}

/// An array element carrying one matched file's metadata: an object literal
/// with the fields `absolutePath` and `importedPath`, taken from
/// `import_paths`.
pub fn get_import_map_expr(import_paths: &ImportPaths) -> (r: Elem)
    ensures
        r@ == (ElemV::Meta { paths: import_paths@ }),
{
    Elem::Meta {
        paths: ImportPaths {
            absolute_path: import_paths.absolute_path.clone(),
            imported_path: import_paths.imported_path.clone(),
        },
    }
}

/// Index of the first group named `name`, or `groups.len()` if none is.
pub open spec fn key_index(groups: Seq<AggregationGroupV>, name: Seq<char>) -> int
    decreases groups.len(),
{
    if groups.len() == 0 {
        0
    } else if groups.first().name == name {
        0
    } else {
        1 + key_index(groups.drop_first(), name)
    }
}

/// `key_index` finds the first group with the given name, and runs off the
/// end exactly when no group has it.
pub proof fn lemma_key_index(groups: Seq<AggregationGroupV>, name: Seq<char>)
    ensures
        0 <= key_index(groups, name) <= groups.len(),
        key_index(groups, name) < groups.len() ==> groups[key_index(groups, name)].name == name,
        forall|j: int| 0 <= j < key_index(groups, name) ==> groups[j].name != name,
    decreases groups.len(),
{
    if groups.len() > 0 && groups.first().name != name {
        let rest = groups.drop_first();
        lemma_key_index(rest, name);
        let ki = key_index(groups, name);
        assert(ki == 1 + key_index(rest, name));
        if ki < groups.len() {
            assert(groups[ki] == rest[ki - 1]);
        }
        assert forall|j: int| 1 <= j < ki implies groups[j].name != name by {
            assert(groups[j] == rest[j - 1]);
        }
    }
}

/// `groups` with `v` appended to the elements of the first group named
/// `name`, or extended by a fresh one-element group when none is.
pub open spec fn spec_upsert_one(
    groups: Seq<AggregationGroupV>,
    name: Seq<char>,
    v: ElemV,
) -> Seq<AggregationGroupV> {
    let i = key_index(groups, name);
    if i < groups.len() {
        groups.update(i, AggregationGroupV { name, elems: groups[i].elems.push(v) })
    } else {
        groups.push(AggregationGroupV { name, elems: seq![v] })
    }
}

/// When no group is named `name`, the upsert appends a fresh group.
pub proof fn lemma_upsert_fresh(groups: Seq<AggregationGroupV>, name: Seq<char>, v: ElemV)
    requires
        forall|j: int| 0 <= j < groups.len() ==> groups[j].name != name,
    ensures
        spec_upsert_one(groups, name, v) == groups.push(
            AggregationGroupV { name, elems: seq![v] },
        ),
{
    lemma_key_index(groups, name);
}

/// When only the last group is named `name`, the upsert appends to it.
pub proof fn lemma_upsert_hit_last(groups: Seq<AggregationGroupV>, name: Seq<char>, v: ElemV)
    requires
        groups.len() > 0,
        groups.last().name == name,
        forall|j: int| 0 <= j < groups.len() - 1 ==> groups[j].name != name,
    ensures
        spec_upsert_one(groups, name, v) == groups.update(
            groups.len() - 1,
            AggregationGroupV { name, elems: groups.last().elems.push(v) },
        ),
{
    lemma_key_index(groups, name);
    let ki = key_index(groups, name);
    if ki < groups.len() - 1 {
        assert(groups[ki].name != name);
    }
}

/// Update the group named `key` within `map`, first adding an empty group
/// under that key if none is there yet, then pushing `value` to its
/// elements.
pub fn upsert_map(map: &mut Vec<AggregationGroup>, key: &String, value: Elem)
    ensures
        view_groups(final(map)@) == spec_upsert_one(view_groups(old(map)@), key@, value@),
{
    let n = map.len();
    let mut i: usize = 0;
    while i < n
        invariant
            i <= n,
            n == map.len(),
            map@ == old(map)@,
            forall|j: int| 0 <= j < i ==> view_groups(map@)[j].name != key@,
        decreases n - i,
    {
        if str_eq(map[i].name.as_str(), key.as_str()) {
            let ghost m0 = map@;
            let ghost pre = view_groups(m0);
            proof {
                assert(pre[i as int] == m0[i as int]@);
                lemma_key_index(pre, key@);
                if key_index(pre, key@) < i {
                    assert(pre[key_index(pre, key@)].name == key@);
                }
                assert(key_index(pre, key@) == i);
            }
            map[i].elems.push(value);
            proof {
                let post = view_groups(map@);
                let target = spec_upsert_one(pre, key@, value@);
                assert(map@[i as int].elems@ == m0[i as int].elems@.push(value));
                assert forall|j: int| 0 <= j < post.len() implies post[j] == target[j] by {
                    assert(post[j] == map@[j]@);
                    assert(pre[j] == m0[j]@);
                    if j == i {
                        assert(map@[j]@.elems =~= pre[j].elems.push(value@));
                    } else {
                        assert(map@[j] == m0[j]);
                    }
                }
                assert(post =~= target);
            }
            return ;
        }
        i += 1;
    }
    let ghost m0 = map@;
    let ghost pre = view_groups(m0);
    map.push(AggregationGroup { name: key.clone(), elems: vec![value] });
    proof {
        lemma_key_index(pre, key@);
        assert(key_index(pre, key@) == pre.len());
        let post = view_groups(map@);
        let target = spec_upsert_one(pre, key@, value@);
        assert forall|j: int| 0 <= j < post.len() implies post[j] == target[j] by {
            assert(post[j] == map@[j]@);
            if j < pre.len() {
                assert(map@[j] == m0[j]);
                assert(pre[j] == m0[j]@);
            } else {
                assert(map@[j].elems@ =~= seq![value]);
                assert(map@[j]@.elems =~= seq![value@]);
            }
        }
        assert(post =~= target);
    }
}

/// The constant declaration each aggregation group becomes.
pub open spec fn decls_of_groups(gs: Seq<AggregationGroupV>) -> Seq<ConstDeclV> {
    gs.map_values(|g: AggregationGroupV| ConstDeclV { name: g.name, elems: g.elems })
}

/// Transform aggregation groups into constant declarations, one per group,
/// each binding the group's name to the array of its collected elements.
pub fn to_var_decls(map: Vec<AggregationGroup>) -> (r: Vec<ConstDecl>)
    ensures
        view_const_decls(r@) == decls_of_groups(view_groups(map@)),
{
    let ghost orig = map@;
    let mut rest = map;
    let mut r: Vec<ConstDecl> = Vec::new();
    while rest.len() > 0
        invariant
            r@.len() + rest@.len() == orig.len(),
            rest@ == orig.skip(r@.len() as int),
            forall|j: int| 0 <= j < r@.len() ==> r@[j]@ == (ConstDeclV {
                name: orig[j]@.name,
                elems: orig[j]@.elems,
            }),
        decreases rest.len(),
    {
        let ghost k = r@.len() as int;
        let g = rest.remove(0);
        proof {
            assert(g == orig.skip(k)[0]);
            assert(orig.skip(k)[0] == orig[k]);
            assert(rest@ =~= orig.skip(k + 1));
        }
        r.push(ConstDecl { name: g.name, elems: g.elems });
    }
    proof {
        assert(view_const_decls(r@) =~= view_groups(orig).map_values(
            |g: AggregationGroupV| ConstDeclV { name: g.name, elems: g.elems },
        ));
    }
    r
}

} // verus!
