//! Laws of the transform, stated and proved over the same spec functions
//! the executable functions' contracts use.

use vstd::prelude::*;

use crate::ast::AggregationGroupV;
use crate::ast::BindingV;
use crate::ast::ElemV;
use crate::ast::ImportPathsV;
use crate::ast::ImportStmtV;
use crate::ast::ModuleItemV;
use crate::ast::OutItemV;
use crate::plugin::count_qualifying;
use crate::plugin::ids_consumed;
use crate::plugin::item_qualifies;
use crate::plugin::spec_item_out;
use crate::plugin::spec_transform;
use crate::transformer::spec_elems_for;
use crate::transformer::spec_expansion;
use crate::transformer::spec_gen_imports;
use crate::transformer::spec_groups;
use crate::transformer::spec_groups_files;
use crate::transformer::spec_slot;
use crate::transformer::spec_slot_id;
use crate::utils::lemma_upsert_fresh;
use crate::utils::lemma_upsert_hit_last;
use crate::utils::spec_is_meta;
use crate::utils::spec_upsert_one;
use crate::utils::spec_local;

verus! {

/// No two specifiers of a statement target the same destination binding.
pub open spec fn distinct_locals(specs: Seq<BindingV>) -> bool {
    forall|i: int, j: int|
        0 <= i < j < specs.len() ==> spec_local(specs[i]) != spec_local(specs[j])
}

/// How many specifiers sit on the `want_meta` side of the value/metadata
/// split.
pub open spec fn count_matching(specs: Seq<BindingV>, want_meta: bool) -> nat
    decreases specs.len(),
{
    if specs.len() == 0 {
        0
    } else {
        count_matching(specs.drop_last(), want_meta) + if spec_is_meta(specs.last())
            == want_meta {
            1nat
        } else {
            0nat
        }
    }
}

/// Every specifier is a value or a metadata specifier, never both.
pub proof fn lemma_count_split(specs: Seq<BindingV>)
    ensures
        count_matching(specs, false) + count_matching(specs, true) == specs.len(),
    decreases specs.len(),
{
    if specs.len() > 0 {
        lemma_count_split(specs.drop_last());
    }
}

/// The groups one side of the split ought to produce: one per matching
/// specifier, in specifier order, holding that specifier's elements for
/// every resolved file, in match order.
pub open spec fn groups_direct(
    specs: Seq<BindingV>,
    resolved: Seq<ImportPathsV>,
    counter: nat,
    want_meta: bool,
) -> Seq<AggregationGroupV>
    decreases specs.len(),
{
    if specs.len() == 0 {
        Seq::empty()
    } else {
        groups_direct(specs.drop_last(), resolved, counter, want_meta) + (if spec_is_meta(
            specs.last(),
        ) == want_meta {
            seq![
                AggregationGroupV {
                    name: spec_local(specs.last()),
                    elems: spec_elems_for(specs.last(), resolved, counter),
                },
            ]
        } else {
            Seq::<AggregationGroupV>::empty()
        })
    }
}

/// Whether `grp` is the direct group of some matching specifier.
pub open spec fn group_is_of(
    specs: Seq<BindingV>,
    resolved: Seq<ImportPathsV>,
    counter: nat,
    want_meta: bool,
    grp: AggregationGroupV,
) -> bool {
    exists|k: int|
        0 <= k < specs.len() && spec_is_meta(#[trigger] specs[k]) == want_meta && grp
            == (AggregationGroupV {
            name: spec_local(specs[k]),
            elems: spec_elems_for(specs[k], resolved, counter),
        })
}

/// Each direct group belongs to one matching specifier, and there are as
/// many groups as matching specifiers.
proof fn lemma_groups_direct_shape(
    specs: Seq<BindingV>,
    resolved: Seq<ImportPathsV>,
    counter: nat,
    want_meta: bool,
)
    ensures
        groups_direct(specs, resolved, counter, want_meta).len() == count_matching(
            specs,
            want_meta,
        ),
        forall|g: int|
            0 <= g < groups_direct(specs, resolved, counter, want_meta).len() ==> group_is_of(
                specs,
                resolved,
                counter,
                want_meta,
                #[trigger] groups_direct(specs, resolved, counter, want_meta)[g],
            ),
    decreases specs.len(),
{
    if specs.len() > 0 {
        let front = specs.drop_last();
        lemma_groups_direct_shape(front, resolved, counter, want_meta);
        let gd = groups_direct(specs, resolved, counter, want_meta);
        let gdf = groups_direct(front, resolved, counter, want_meta);
        assert forall|g: int| 0 <= g < gd.len() implies group_is_of(
            specs,
            resolved,
            counter,
            want_meta,
            gd[g],
        ) by {
            if g < gdf.len() {
                assert(gd[g] == gdf[g]);
                let k = choose|k: int|
                    0 <= k < front.len() && spec_is_meta(#[trigger] front[k]) == want_meta
                        && gdf[g] == (AggregationGroupV {
                        name: spec_local(front[k]),
                        elems: spec_elems_for(front[k], resolved, counter),
                    });
                assert(front[k] == specs[k]);
                assert(spec_is_meta(specs[k]) == want_meta);
            } else {
                let k = specs.len() - 1;
                assert(spec_is_meta(specs[k]) == want_meta);
                assert(gd[g] == (AggregationGroupV {
                    name: spec_local(specs[k]),
                    elems: spec_elems_for(specs[k], resolved, counter),
                }));
            }
        }
    }
}

/// Upserting one specifier's elements for the first `n` files into groups
/// free of its name appends a single group holding those elements in
/// order.
proof fn lemma_groups_files_fresh(
    groups0: Seq<AggregationGroupV>,
    b: BindingV,
    resolved: Seq<ImportPathsV>,
    counter: nat,
    n: int,
)
    requires
        1 <= n <= resolved.len(),
        forall|j: int| 0 <= j < groups0.len() ==> groups0[j].name != spec_local(b),
    ensures
        spec_groups_files(groups0, b, resolved, counter, n) == groups0.push(
            AggregationGroupV {
                name: spec_local(b),
                elems: spec_elems_for(b, resolved, counter).take(n),
            },
        ),
    decreases n,
{
    let slot_last = spec_slot(b, resolved[n - 1], spec_slot_id(counter, n - 1));
    if n == 1 {
        assert(spec_groups_files(groups0, b, resolved, counter, 0) == groups0);
        assert(spec_groups_files(groups0, b, resolved, counter, 1) == spec_upsert_one(
            groups0,
            spec_local(b),
            slot_last,
        ));
        lemma_upsert_fresh(groups0, spec_local(b), slot_last);
        assert(spec_elems_for(b, resolved, counter).take(1) =~= seq![slot_last]);
    } else {
        lemma_groups_files_fresh(groups0, b, resolved, counter, n - 1);
        let prev_grp = AggregationGroupV {
            name: spec_local(b),
            elems: spec_elems_for(b, resolved, counter).take(n - 1),
        };
        let prev = groups0.push(prev_grp);
        assert(prev.last() == prev_grp);
        assert forall|j: int| 0 <= j < prev.len() - 1 implies prev[j].name != spec_local(b) by {
            assert(prev[j] == groups0[j]);
        }
        lemma_upsert_hit_last(prev, spec_local(b), slot_last);
        assert(spec_elems_for(b, resolved, counter).take(n - 1).push(slot_last) =~= spec_elems_for(
            b,
            resolved,
            counter,
        ).take(n));
        let target = groups0.push(
            AggregationGroupV {
                name: spec_local(b),
                elems: spec_elems_for(b, resolved, counter).take(n),
            },
        );
        assert(prev.update(prev.len() - 1, target.last()) =~= target);
    }
}

/// The groups the transform builds are exactly the direct ones: one
/// declaration per matching specifier, in specifier order, its array
/// elements in match order. This is the heart of the order-preservation
/// and cardinality guarantees.
pub proof fn lemma_groups_exact(
    specs: Seq<BindingV>,
    resolved: Seq<ImportPathsV>,
    counter: nat,
    want_meta: bool,
)
    requires
        distinct_locals(specs),
        resolved.len() >= 1,
    ensures
        spec_groups(specs, resolved, counter, want_meta) == groups_direct(
            specs,
            resolved,
            counter,
            want_meta,
        ),
    decreases specs.len(),
{
    if specs.len() == 0 {
    } else {
        let front = specs.drop_last();
        let b = specs.last();
        assert(distinct_locals(front)) by {
            assert forall|i: int, j: int|
                0 <= i < j < front.len() implies spec_local(front[i]) != spec_local(
                front[j],
            ) by {
                assert(front[i] == specs[i]);
                assert(front[j] == specs[j]);
            }
        }
        lemma_groups_exact(front, resolved, counter, want_meta);
        if spec_is_meta(b) == want_meta {
            let gdf = groups_direct(front, resolved, counter, want_meta);
            lemma_groups_direct_shape(front, resolved, counter, want_meta);
            assert forall|j: int| 0 <= j < gdf.len() implies gdf[j].name != spec_local(b) by {
                assert(group_is_of(front, resolved, counter, want_meta, gdf[j]));
                let k = choose|k: int|
                    0 <= k < front.len() && spec_is_meta(#[trigger] front[k]) == want_meta
                        && gdf[j] == (AggregationGroupV {
                        name: spec_local(front[k]),
                        elems: spec_elems_for(front[k], resolved, counter),
                    });
                assert(front[k] == specs[k]);
                assert(spec_local(specs[k]) != spec_local(specs[specs.len() - 1]));
            }
            lemma_groups_files_fresh(gdf, b, resolved, counter, resolved.len() as int);
            assert(spec_elems_for(b, resolved, counter).take(resolved.len() as int)
                =~= spec_elems_for(b, resolved, counter));
            assert(gdf.push(
                AggregationGroupV {
                    name: spec_local(b),
                    elems: spec_elems_for(b, resolved, counter),
                },
            ) =~= groups_direct(specs, resolved, counter, want_meta));
        }
    }
}

/// Pass-through: an item that is not a qualifying glob import contributes
/// exactly itself, unchanged and in place, to the rewritten list.
pub proof fn lemma_pass_through(
    body: Seq<ModuleItemV>,
    matches: Seq<Seq<Seq<char>>>,
    cwd: Seq<char>,
    filename: Seq<char>,
    counter0: nat,
    i: int,
)
    requires
        0 <= i < body.len(),
        !item_qualifies(body[i]),
    ensures
        spec_transform(body.take(i + 1), matches, cwd, filename, counter0) == spec_transform(
            body.take(i),
            matches,
            cwd,
            filename,
            counter0,
        ) + seq![OutItemV::Keep { idx: i }],
{
    assert(body.take(i + 1).drop_last() =~= body.take(i));
    assert(body.take(i + 1).last() == body[i]);
}

/// Expansion cardinality: a qualifying statement with `n` resolved matched
/// files is replaced by exactly `n` generated import statements followed by
/// one constant declaration per destination binding.
pub proof fn lemma_expansion_cardinality(stmt: ImportStmtV, resolved: Seq<ImportPathsV>, counter: nat)
    requires
        resolved.len() >= 1,
        distinct_locals(stmt.specifiers),
    ensures
        ({
            let out = spec_expansion(stmt, resolved, counter);
            &&& out.len() == resolved.len() + stmt.specifiers.len()
            &&& forall|j: int| 0 <= j < resolved.len() ==> out[j] is Import
            &&& forall|j: int| resolved.len() <= j < out.len() ==> out[j] is Decl
        }),
{
    let out = spec_expansion(stmt, resolved, counter);
    lemma_groups_exact(stmt.specifiers, resolved, counter, false);
    lemma_groups_exact(stmt.specifiers, resolved, counter, true);
    lemma_groups_direct_shape(stmt.specifiers, resolved, counter, false);
    lemma_groups_direct_shape(stmt.specifiers, resolved, counter, true);
    lemma_count_split(stmt.specifiers);
    assert(spec_gen_imports(stmt, resolved, counter).map_values(
        |g: crate::ast::GenImportV| OutItemV::Import { import: g },
    ).len() == resolved.len());
}

/// Order preservation: every aggregate holds one element per resolved
/// file, and its `k`-th element is built from the `k`-th resolved file —
/// a reference to that file's synthetic import, or that file's metadata
/// object.
pub proof fn lemma_order_preservation(
    specs: Seq<BindingV>,
    resolved: Seq<ImportPathsV>,
    counter: nat,
    want_meta: bool,
    g: int,
    k: int,
)
    requires
        distinct_locals(specs),
        resolved.len() >= 1,
        0 <= g < spec_groups(specs, resolved, counter, want_meta).len(),
        0 <= k < resolved.len(),
    ensures
        ({
            let grp = spec_groups(specs, resolved, counter, want_meta)[g];
            &&& grp.elems.len() == resolved.len()
            &&& (grp.elems[k] == (ElemV::Ref { ident: spec_slot_id(counter, k) }) || grp.elems[k]
                == (ElemV::Meta { paths: resolved[k] }))
        }),
{
    lemma_groups_exact(specs, resolved, counter, want_meta);
    lemma_groups_direct_shape(specs, resolved, counter, want_meta);
    let gd = groups_direct(specs, resolved, counter, want_meta);
    assert(group_is_of(specs, resolved, counter, want_meta, gd[g]));
    let b = choose|kk: int|
        0 <= kk < specs.len() && spec_is_meta(#[trigger] specs[kk]) == want_meta && gd[g]
            == (AggregationGroupV {
            name: spec_local(specs[kk]),
            elems: spec_elems_for(specs[kk], resolved, counter),
        });
    assert(gd[g].elems == spec_elems_for(specs[b], resolved, counter));
}

/// Re-running the pass on the same module, matched paths, and starting
/// counter yields the identical output: the rewrite is a function of those
/// inputs alone, with no other state.
pub proof fn lemma_rerun_identical(
    body: Seq<ModuleItemV>,
    matches: Seq<Seq<Seq<char>>>,
    cwd: Seq<char>,
    filename: Seq<char>,
    counter0: nat,
    body2: Seq<ModuleItemV>,
    matches2: Seq<Seq<Seq<char>>>,
    cwd2: Seq<char>,
    filename2: Seq<char>,
    counter02: nat,
)
    requires
        body == body2,
        matches == matches2,
        cwd == cwd2,
        filename == filename2,
        counter0 == counter02,
    ensures
        spec_transform(body, matches, cwd, filename, counter0) == spec_transform(
            body2,
            matches2,
            cwd2,
            filename2,
            counter02,
        ),
{
}

/// Metadata correctness: a statement with a metadata binding `{ _importMeta
/// as m }` and `n` resolved matched files yields a declaration binding `m`
/// to an array of exactly `n` metadata objects, the `k`-th carrying the
/// `k`-th resolved file's `absolutePath` and `importedPath`.
pub proof fn lemma_metadata_correctness(
    specs: Seq<BindingV>,
    resolved: Seq<ImportPathsV>,
    counter: nat,
    j: int,
)
    requires
        distinct_locals(specs),
        resolved.len() >= 1,
        0 <= j < specs.len(),
        spec_is_meta(specs[j]),
    ensures
        exists|g: int|
            0 <= g < spec_groups(specs, resolved, counter, true).len() && (#[trigger] spec_groups(
                specs,
                resolved,
                counter,
                true,
            )[g]).name == spec_local(specs[j]) && spec_groups(specs, resolved, counter, true)[g].elems
                =~= Seq::new(resolved.len(), |k: int| ElemV::Meta { paths: resolved[k] }),
{
    lemma_groups_exact(specs, resolved, counter, true);
    lemma_groups_direct_index(specs, resolved, counter, true, j);
    let g = count_matching(specs.take(j), true) as int;
    let grp = spec_groups(specs, resolved, counter, true)[g];
    assert(grp.elems == spec_elems_for(specs[j], resolved, counter));
    assert forall|k: int| 0 <= k < resolved.len() implies grp.elems[k] == (ElemV::Meta {
        paths: resolved[k],
    }) by {
        assert(spec_elems_for(specs[j], resolved, counter)[k] == spec_slot(
            specs[j],
            resolved[k],
            spec_slot_id(counter, k),
        ));
    }
    assert(0 <= g < spec_groups(specs, resolved, counter, true).len() && (spec_groups(
        specs,
        resolved,
        counter,
        true,
    )[g]).name == spec_local(specs[j]) && spec_groups(specs, resolved, counter, true)[g].elems
        =~= Seq::new(resolved.len(), |k: int| ElemV::Meta { paths: resolved[k] }));
}

/// The group of the `j`-th matching specifier sits at the index given by
/// how many matching specifiers come before it.
proof fn lemma_groups_direct_index(
    specs: Seq<BindingV>,
    resolved: Seq<ImportPathsV>,
    counter: nat,
    want_meta: bool,
    j: int,
)
    requires
        0 <= j < specs.len(),
        spec_is_meta(specs[j]) == want_meta,
    ensures
        ({
            let g = count_matching(specs.take(j), want_meta) as int;
            &&& g < groups_direct(specs, resolved, counter, want_meta).len()
            &&& groups_direct(specs, resolved, counter, want_meta)[g] == (AggregationGroupV {
                name: spec_local(specs[j]),
                elems: spec_elems_for(specs[j], resolved, counter),
            })
        }),
    decreases specs.len(),
{
    lemma_groups_direct_shape(specs, resolved, counter, want_meta);
    lemma_count_take_mono(specs, want_meta, j);
    if j == specs.len() - 1 {
        lemma_groups_direct_shape(specs.drop_last(), resolved, counter, want_meta);
        assert(specs.take(j) =~= specs.drop_last());
        let gd = groups_direct(specs, resolved, counter, want_meta);
        let gdf = groups_direct(specs.drop_last(), resolved, counter, want_meta);
        assert(gd[gdf.len() as int] == (AggregationGroupV {
            name: spec_local(specs[j]),
            elems: spec_elems_for(specs[j], resolved, counter),
        }));
    } else {
        let front = specs.drop_last();
        assert(front[j] == specs[j]);
        assert(front.take(j) =~= specs.take(j));
        lemma_groups_direct_index(front, resolved, counter, want_meta, j);
        let g = count_matching(specs.take(j), want_meta) as int;
        let gdf = groups_direct(front, resolved, counter, want_meta);
        let gd = groups_direct(specs, resolved, counter, want_meta);
        assert(gd[g] == gdf[g]);
    }
}

/// The local identifier a generated import binds; empty for other items.
pub open spec fn import_local_of(o: OutItemV) -> Seq<char> {
    match o {
        OutItemV::Import { import } => import.local,
        _ => Seq::empty(),
    }
}

/// How many generated imports a rewritten list holds.
pub open spec fn count_imports(out: Seq<OutItemV>) -> nat
    decreases out.len(),
{
    if out.len() == 0 {
        0
    } else {
        count_imports(out.drop_last()) + if out.last() is Import {
            1nat
        } else {
            0nat
        }
    }
}

proof fn lemma_count_imports_add(a: Seq<OutItemV>, b: Seq<OutItemV>)
    ensures
        count_imports(a + b) == count_imports(a) + count_imports(b),
    decreases b.len(),
{
    if b.len() == 0 {
        assert(a + b =~= a);
    } else {
        assert((a + b).drop_last() =~= a + b.drop_last());
        assert((a + b).last() == b.last());
        lemma_count_imports_add(a, b.drop_last());
    }
}

proof fn lemma_count_imports_all(a: Seq<OutItemV>)
    requires
        forall|i: int| 0 <= i < a.len() ==> (#[trigger] a[i]) is Import,
    ensures
        count_imports(a) == a.len(),
    decreases a.len(),
{
    if a.len() > 0 {
        lemma_count_imports_all(a.drop_last());
    }
}

proof fn lemma_count_imports_none(a: Seq<OutItemV>)
    requires
        forall|i: int| 0 <= i < a.len() ==> !((#[trigger] a[i]) is Import),
    ensures
        count_imports(a) == 0,
    decreases a.len(),
{
    if a.len() > 0 {
        lemma_count_imports_none(a.drop_last());
    }
}

proof fn lemma_count_first_import(a: Seq<OutItemV>)
    requires
        a.len() > 0,
        a[0] is Import,
    ensures
        count_imports(a) >= 1,
    decreases a.len(),
{
    if a.len() > 1 {
        assert(a.drop_last()[0] == a[0]);
        lemma_count_first_import(a.drop_last());
    }
}

/// Every generated import in `out` is numbered by its rank: the one with
/// `g` generated imports before it binds the `g`-th synthetic identifier
/// of a pass that started with the counter at `c0`.
pub open spec fn imports_numbered(out: Seq<OutItemV>, c0: nat) -> bool {
    forall|i: int|
        0 <= i < out.len() && (#[trigger] out[i]) is Import ==> import_local_of(out[i])
            == spec_slot_id(c0, count_imports(out.take(i)) as int)
}

/// One expansion's imports are numbered consecutively from its starting
/// counter, one per resolved file.
proof fn lemma_expansion_numbered(stmt: ImportStmtV, resolved: Seq<ImportPathsV>, counter: nat)
    ensures
        count_imports(spec_expansion(stmt, resolved, counter)) == resolved.len(),
        imports_numbered(spec_expansion(stmt, resolved, counter), counter),
{
    let out = spec_expansion(stmt, resolved, counter);
    if resolved.len() == 0 {
        assert(count_imports(out) == 0);
    } else {
        let a = spec_gen_imports(stmt, resolved, counter).map_values(
            |g: crate::ast::GenImportV| OutItemV::Import { import: g },
        );
        let b = crate::utils::decls_of_groups(
            spec_groups(stmt.specifiers, resolved, counter, false),
        ).map_values(|d: crate::ast::ConstDeclV| OutItemV::Decl { decl: d });
        let c = crate::utils::decls_of_groups(
            spec_groups(stmt.specifiers, resolved, counter, true),
        ).map_values(|d: crate::ast::ConstDeclV| OutItemV::Decl { decl: d });
        assert(out == a + b + c);
        lemma_count_imports_all(a);
        lemma_count_imports_none(b);
        lemma_count_imports_none(c);
        lemma_count_imports_add(a + b, c);
        lemma_count_imports_add(a, b);
        assert forall|i: int| 0 <= i < out.len() && (#[trigger] out[i]) is Import implies
            import_local_of(out[i]) == spec_slot_id(counter, count_imports(out.take(i)) as int) by {
            if i < a.len() {
                assert(out[i] == a[i]);
                assert(out.take(i) =~= a.take(i));
                assert forall|j: int| 0 <= j < a.take(i).len() implies (#[trigger] a.take(
                    i,
                )[j]) is Import by {
                    assert(a.take(i)[j] == a[j]);
                }
                lemma_count_imports_all(a.take(i));
                assert(import_local_of(out[i]) == spec_gen_imports(stmt, resolved, counter)[i].local);
            } else {
                if i < a.len() + b.len() {
                    assert(out[i] == b[i - a.len()]);
                } else {
                    assert(out[i] == c[i - a.len() - b.len()]);
                }
            }
        }
    }
}

/// A whole pass's imports are numbered consecutively from its starting
/// counter: the counter threads left to right through the expansions.
proof fn lemma_transform_numbered(
    body: Seq<ModuleItemV>,
    matches: Seq<Seq<Seq<char>>>,
    cwd: Seq<char>,
    filename: Seq<char>,
    c0: nat,
)
    ensures
        count_imports(spec_transform(body, matches, cwd, filename, c0)) == ids_consumed(
            body,
            matches,
            cwd,
            filename,
        ),
        imports_numbered(spec_transform(body, matches, cwd, filename, c0), c0),
    decreases body.len(),
{
    let out = spec_transform(body, matches, cwd, filename, c0);
    if body.len() == 0 {
    } else {
        let front = body.drop_last();
        let fout = spec_transform(front, matches, cwd, filename, c0);
        let counter_here = c0 + ids_consumed(front, matches, cwd, filename);
        let iout = spec_item_out(
            body.last(),
            body.len() - 1,
            matches,
            count_qualifying(front),
            counter_here,
            cwd,
            filename,
        );
        assert(out == fout + iout);
        lemma_transform_numbered(front, matches, cwd, filename, c0);
        lemma_count_imports_add(fout, iout);
        match body.last() {
            ModuleItemV::Import { stmt } => {
                if crate::plugin::spec_qualifies(stmt) {
                    let resolved = crate::plugin::spec_resolved_list(
                        cwd,
                        filename,
                        crate::plugin::match_list(matches, count_qualifying(front)),
                    );
                    lemma_expansion_numbered(stmt, resolved, counter_here);
                } else {
                    lemma_count_imports_none(iout);
                }
            },
            ModuleItemV::Other => {
                lemma_count_imports_none(iout);
            },
        }
        assert forall|i: int| 0 <= i < out.len() && (#[trigger] out[i]) is Import implies
            import_local_of(out[i]) == spec_slot_id(c0, count_imports(out.take(i)) as int) by {
            if i < fout.len() {
                assert(out[i] == fout[i]);
                assert(out.take(i) =~= fout.take(i));
            } else {
                let k = i - fout.len();
                assert(out[i] == iout[k]);
                assert(out.take(i) =~= fout + iout.take(k));
                lemma_count_imports_add(fout, iout.take(k));
                assert(imports_numbered(iout, counter_here));
                assert(iout.take(k) =~= iout.take(k));
                assert(import_local_of(iout[k]) == spec_slot_id(
                    counter_here,
                    count_imports(iout.take(k)) as int,
                ));
            }
        }
    }
}

/// Identifier uniqueness: across one pass, no two generated import
/// statements bind the same local identifier, even when several glob
/// imports of the same module are expanded.
pub proof fn lemma_identifier_uniqueness(
    body: Seq<ModuleItemV>,
    matches: Seq<Seq<Seq<char>>>,
    cwd: Seq<char>,
    filename: Seq<char>,
    c0: nat,
)
    ensures
        ({
            let out = spec_transform(body, matches, cwd, filename, c0);
            forall|i: int, j: int|
                0 <= i < j < out.len() && (#[trigger] out[i]) is Import && (#[trigger] out[j])
                    is Import ==> import_local_of(out[i]) != import_local_of(out[j])
        }),
{
    let out = spec_transform(body, matches, cwd, filename, c0);
    lemma_transform_numbered(body, matches, cwd, filename, c0);
    assert forall|i: int, j: int|
        0 <= i < j < out.len() && (#[trigger] out[i]) is Import && (#[trigger] out[j])
            is Import implies import_local_of(out[i]) != import_local_of(out[j]) by {
        let ci = count_imports(out.take(i)) as int;
        let cj = count_imports(out.take(j)) as int;
        assert(out.take(j) =~= out.take(i) + out.subrange(i, j));
        lemma_count_imports_add(out.take(i), out.subrange(i, j));
        assert(out.subrange(i, j)[0] == out[i]);
        lemma_count_first_import(out.subrange(i, j));
        assert(ci < cj);
        if import_local_of(out[i]) == import_local_of(out[j]) {
            crate::ident::lemma_append_left_cancel(
                crate::transformer::spec_id_prefix(),
                crate::ident::spec_dec((c0 + ci + 1) as nat),
                crate::ident::spec_dec((c0 + cj + 1) as nat),
            );
            crate::ident::lemma_dec_injective((c0 + ci + 1) as nat, (c0 + cj + 1) as nat);
        }
    }
}

/// Matching counts never shrink along a prefix.
proof fn lemma_count_take_mono(specs: Seq<BindingV>, want_meta: bool, j: int)
    requires
        0 <= j <= specs.len(),
    ensures
        count_matching(specs.take(j), want_meta) <= count_matching(specs, want_meta),
        j < specs.len() && spec_is_meta(specs[j]) == want_meta ==> count_matching(
            specs.take(j),
            want_meta,
        ) < count_matching(specs, want_meta),
    decreases specs.len(),
{
    if j == specs.len() {
        assert(specs.take(j) =~= specs);
    } else {
        let front = specs.drop_last();
        assert(front.take(j) =~= specs.take(j));
        if j == specs.len() - 1 {
            assert(specs.take(j) =~= front);
        } else {
            assert(front[j] == specs[j]);
            lemma_count_take_mono(front, want_meta, j);
        }
    }
}

} // verus!
