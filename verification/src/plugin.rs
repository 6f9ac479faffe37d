//! The transform's state and its module rewriter: the working directory, the
//! current file, and the counter behind generated identifiers; resolution of
//! matched paths; and the single pass over a module's statement list.

use vstd::prelude::*;

use crate::ast::ImportPaths;
use crate::ast::ImportPathsV;
use crate::ast::ImportStmtV;
use crate::ast::Module;
use crate::ast::ModuleItem;
use crate::ast::ModuleItemV;
use crate::ast::OutItem;
use crate::ast::OutItemV;
use crate::ast::ConstDecl;
use crate::ast::GenImport;
use crate::ast::view_const_decls;
use crate::ast::view_gen_imports;
use crate::ast::view_out_items;
use crate::ast::view_string_lists;
use crate::ast::view_strings;
use crate::globs::is_glob_spec;
use crate::globs::is_glob_str;
use crate::ident::spec_dec;
use crate::paths::first_char_is;
use crate::paths::join;
use crate::paths::parent;
use crate::paths::spec_join;
use crate::paths::spec_parent;
use crate::paths::spec_strip_prefix;
use crate::paths::spec_with_file_name;
use crate::paths::strip_prefix;
use crate::paths::with_file_name;

verus! {

/// State of one transform invocation: one source file, one identifier
/// counter, never shared across files.
pub struct ImportGlobArrayPlugin {
    pub cwd: String,
    pub filename: String,
    pub id_counter: u64,
}

/// The two path renderings of one matched path, when it can be expressed
/// relative to the current file's directory; `None` otherwise (the caller
/// then skips that file).
pub open spec fn spec_resolve(cwd: Seq<char>, filename: Seq<char>, path: Seq<char>) -> Option<
    ImportPathsV,
> {
    let current_dir = match spec_parent(filename) {
        Some(par) => spec_join(cwd, par),
        None => cwd,
    };
    match spec_strip_prefix(path, current_dir) {
        Some(rel) => Some(
            ImportPathsV {
                absolute_path: spec_join(current_dir, rel),
                imported_path: if rel.len() > 0 && rel[0] == '.' {
                    rel
                } else {
                    seq!['.', '/'] + rel
                },
            },
        ),
        None => None,
    }
}

/// The resolutions of the matched paths that resolve, in match order.
pub open spec fn spec_resolved_list(
    cwd: Seq<char>,
    filename: Seq<char>,
    paths: Seq<Seq<char>>,
) -> Seq<ImportPathsV>
    decreases paths.len(),
{
    if paths.len() == 0 {
        Seq::empty()
    } else {
        let front = spec_resolved_list(cwd, filename, paths.drop_last());
        match spec_resolve(cwd, filename, paths.last()) {
            Some(p) => front.push(p),
            None => front,
        }
    }
}

/// No more paths resolve than were matched.
pub proof fn lemma_resolved_list_len(cwd: Seq<char>, filename: Seq<char>, paths: Seq<Seq<char>>)
    ensures
        spec_resolved_list(cwd, filename, paths).len() <= paths.len(),
    decreases paths.len(),
{
    if paths.len() > 0 {
        lemma_resolved_list_len(cwd, filename, paths.drop_last());
    }
}

/// Whether an import statement qualifies for expansion: its source
/// specifier starts with `.` or `/` and contains glob syntax.
pub open spec fn spec_qualifies(stmt: ImportStmtV) -> bool {
    stmt.src.len() > 0 && (stmt.src[0] == '.' || stmt.src[0] == '/') && is_glob_spec(stmt.src)
}

/// Whether a module item is a qualifying import statement.
pub open spec fn item_qualifies(item: ModuleItemV) -> bool {
    match item {
        ModuleItemV::Import { stmt } => spec_qualifies(stmt),
        ModuleItemV::Other => false,
    }
}

/// How many items of `body` qualify for expansion.
pub open spec fn count_qualifying(body: Seq<ModuleItemV>) -> nat
    decreases body.len(),
{
    if body.len() == 0 {
        0
    } else {
        count_qualifying(body.drop_last()) + if item_qualifies(body.last()) {
            1nat
        } else {
            0nat
        }
    }
}

/// The matched-path list feeding the `qi`-th qualifying statement: empty
/// when fewer lists were handed in.
pub open spec fn match_list(matches: Seq<Seq<Seq<char>>>, qi: nat) -> Seq<Seq<char>> {
    if qi < matches.len() {
        matches[qi as int]
    } else {
        Seq::empty()
    }
}

/// How many synthetic identifiers one item's expansion consumes.
pub open spec fn item_ids_consumed(
    item: ModuleItemV,
    matches: Seq<Seq<Seq<char>>>,
    qi: nat,
    cwd: Seq<char>,
    filename: Seq<char>,
) -> nat {
    if item_qualifies(item) {
        spec_resolved_list(cwd, filename, match_list(matches, qi)).len()
    } else {
        0
    }
}

/// How many synthetic identifiers the whole pass over `body` consumes.
pub open spec fn ids_consumed(
    body: Seq<ModuleItemV>,
    matches: Seq<Seq<Seq<char>>>,
    cwd: Seq<char>,
    filename: Seq<char>,
) -> nat
    decreases body.len(),
{
    if body.len() == 0 {
        0
    } else {
        ids_consumed(body.drop_last(), matches, cwd, filename) + item_ids_consumed(
            body.last(),
            matches,
            count_qualifying(body.drop_last()),
            cwd,
            filename,
        )
    }
}

/// What one input item becomes: its replacement span when it qualifies,
/// itself (kept under its index) otherwise.
pub open spec fn spec_item_out(
    item: ModuleItemV,
    idx: int,
    matches: Seq<Seq<Seq<char>>>,
    qi: nat,
    counter: nat,
    cwd: Seq<char>,
    filename: Seq<char>,
) -> Seq<OutItemV> {
    match item {
        ModuleItemV::Import { stmt } => if spec_qualifies(stmt) {
            crate::transformer::spec_expansion(
                stmt,
                spec_resolved_list(cwd, filename, match_list(matches, qi)),
                counter,
            )
        } else {
            seq![OutItemV::Keep { idx }]
        },
        ModuleItemV::Other => seq![OutItemV::Keep { idx }],
    }
}

/// The rewritten statement list: each input item in order, replaced in
/// place by its expansion when it qualifies, with the identifier counter
/// and the matched-path lists threaded left to right.
pub open spec fn spec_transform(
    body: Seq<ModuleItemV>,
    matches: Seq<Seq<Seq<char>>>,
    cwd: Seq<char>,
    filename: Seq<char>,
    counter0: nat,
) -> Seq<OutItemV>
    decreases body.len(),
{
    if body.len() == 0 {
        Seq::empty()
    } else {
        let front = body.drop_last();
        spec_transform(front, matches, cwd, filename, counter0) + spec_item_out(
            body.last(),
            body.len() - 1,
            matches,
            count_qualifying(front),
            counter0 + ids_consumed(front, matches, cwd, filename),
            cwd,
            filename,
        )
    }
}

/// The filesystem patterns of the qualifying statements, in order.
pub open spec fn spec_patterns(body: Seq<ModuleItemV>, cwd: Seq<char>, filename: Seq<char>) -> Seq<
    Seq<char>,
>
    decreases body.len(),
{
    if body.len() == 0 {
        Seq::empty()
    } else {
        spec_patterns(body.drop_last(), cwd, filename) + (match body.last() {
            ModuleItemV::Import { stmt } => if spec_qualifies(stmt) {
                seq![spec_with_file_name(spec_join(cwd, filename), stmt.src)]
            } else {
                Seq::<Seq<char>>::empty()
            },
            ModuleItemV::Other => Seq::<Seq<char>>::empty(),
        })
    }
}

/// Total length of the matched-path lists.
pub open spec fn spec_sum_lens(matches: Seq<Seq<Seq<char>>>) -> nat
    decreases matches.len(),
{
    if matches.len() == 0 {
        0
    } else {
        spec_sum_lens(matches.drop_last()) + matches.last().len()
    }
}

/// The total length splits off the first list.
pub proof fn lemma_sum_lens_first(s: Seq<Seq<Seq<char>>>)
    requires
        s.len() > 0,
    ensures
        spec_sum_lens(s) == s.first().len() + spec_sum_lens(s.drop_first()),
    decreases s.len(),
{
    if s.len() == 1 {
        assert(s.drop_last() =~= Seq::<Seq<Seq<char>>>::empty());
        assert(s.drop_first() =~= Seq::<Seq<Seq<char>>>::empty());
        assert(s.last() == s.first());
    } else {
        lemma_sum_lens_first(s.drop_last());
        assert(s.drop_last().drop_first() =~= s.drop_first().drop_last());
        assert(s.drop_last().first() == s.first());
        assert(s.drop_first().last() == s.last());
    }
}

impl ImportGlobArrayPlugin {
    /// The current file has a parent directory to resolve against.
    pub open spec fn wf(self) -> bool {
        spec_parent(self.filename@) is Some
    }

    /// A fresh invocation for one file: the counter starts at zero.
    pub fn new(cwd: String, filename: String) -> (r: Self)
        ensures
            r.cwd == cwd,
            r.filename == filename,
            r.id_counter == 0,
    {
        ImportGlobArrayPlugin { cwd, filename, id_counter: 0 }
    }

    /// The next synthetic identifier: `starting_id` followed by the counter,
    /// which moves up by one on every call.
    pub fn next_id(&mut self, starting_id: &str) -> (r: String)
        requires
            old(self).id_counter < u64::MAX,
        ensures
            final(self).cwd == old(self).cwd,
            final(self).filename == old(self).filename,
            final(self).id_counter == old(self).id_counter + 1,
            r@ == starting_id@ + spec_dec((old(self).id_counter + 1) as nat),
    {
        self.id_counter = self.id_counter + 1;
        let mut s = String::from_str(starting_id);
        let digits = crate::ident::u64_to_dec(self.id_counter);
        s.append(digits.as_str());
        s
    }

    /// The filesystem pattern for one glob import: the current file's
    /// on-disk path with its file name replaced by the import's specifier.
    pub fn as_glob_path(&self, filename: &str) -> (r: String)
        ensures
            r@ == spec_with_file_name(spec_join(self.cwd@, self.filename@), filename@),
    {
        let joined = join(self.cwd.as_str(), self.filename.as_str());
        with_file_name(joined.as_str(), filename)
    }

    /// Resolve one matched path against the current file's directory, as
    /// `spec_resolve` gives it: its absolute path, and the relative
    /// specifier it is imported under, prefixed with `./` unless it already
    /// starts with a path-relative marker.
    pub fn get_paths(&self, path: &String) -> (r: Option<ImportPaths>)
        requires
            self.wf(),
        ensures
            match spec_resolve(self.cwd@, self.filename@, path@) {
                Some(pv) => r matches Some(ip) && ip@ == pv,
                None => r is None,
            },
    {
        let par = match parent(self.filename.as_str()) {
            Some(p) => p,
            None => {
                proof {
                    assert(false);
                }
                return None;
            },
        };
        let current_dir = join(self.cwd.as_str(), par.as_str());
        let rel = match strip_prefix(path.as_str(), current_dir.as_str()) {
            Some(rel) => rel,
            None => {
                return None;
            },
        };
        let absolute_path = join(current_dir.as_str(), rel.as_str());
        let imported_path = if first_char_is(rel.as_str(), '.') {
            rel
        } else {
            let mut s = String::from_str("./");
            proof {
                reveal_strlit("./");
                assert("./"@ =~= seq!['.', '/']);
            }
            s.append(rel.as_str());
            s
        };
        Some(ImportPaths { absolute_path, imported_path })
    }

    /// Flatten one statement's expansion into output items: its generated
    /// imports, then its value declarations, then its metadata
    /// declarations; nothing for an empty expansion.
    pub fn build_module_items(
        &self,
        tuple: Option<(Vec<GenImport>, Vec<ConstDecl>, Vec<ConstDecl>)>,
    ) -> (r: Vec<OutItem>)
        ensures
            view_out_items(r@) == (match tuple {
                Some(t) => view_gen_imports(t.0@).map_values(
                    |g: crate::ast::GenImportV| OutItemV::Import { import: g },
                ) + view_const_decls(t.1@).map_values(
                    |d: crate::ast::ConstDeclV| OutItemV::Decl { decl: d },
                ) + view_const_decls(t.2@).map_values(
                    |d: crate::ast::ConstDeclV| OutItemV::Decl { decl: d },
                ),
                None => Seq::<OutItemV>::empty(),
            }),
    {
        let mut results: Vec<OutItem> = Vec::new();
        match tuple {
            Some(t) => {
                let (imps, vals, metas) = t;
                let ghost iv = imps@;
                let ghost vv = vals@;
                let ghost mv = metas@;
                let mut imps = imps;
                let mut vals = vals;
                let mut metas = metas;
                while imps.len() > 0
                    invariant
                        results@.len() + imps@.len() == iv.len(),
                        imps@ == iv.skip(results@.len() as int),
                        forall|j: int|
                            0 <= j < results@.len() ==> results@[j]@ == (OutItemV::Import {
                                import: iv[j]@,
                            }),
                    decreases imps@.len(),
                {
                    let ghost k = results@.len() as int;
                    let g = imps.remove(0);
                    proof {
                        assert(g == iv.skip(k)[0]);
                        assert(iv.skip(k)[0] == iv[k]);
                        assert(imps@ =~= iv.skip(k + 1));
                    }
                    results.push(OutItem::Import { import: g });
                }
                let ghost n1 = results@.len() as int;
                while vals.len() > 0
                    invariant
                        n1 == iv.len(),
                        results@.len() == n1 + vv.len() - vals@.len(),
                        results@.len() >= n1,
                        vals@ == vv.skip(results@.len() - n1),
                        forall|j: int|
                            0 <= j < n1 ==> results@[j]@ == (OutItemV::Import { import: iv[j]@ }),
                        forall|j: int|
                            n1 <= j < results@.len() ==> results@[j]@ == (OutItemV::Decl {
                                decl: vv[j - n1]@,
                            }),
                    decreases vals@.len(),
                {
                    let ghost k = (results@.len() - n1) as int;
                    let d = vals.remove(0);
                    proof {
                        assert(d == vv.skip(k)[0]);
                        assert(vv.skip(k)[0] == vv[k]);
                        assert(vals@ =~= vv.skip(k + 1));
                    }
                    results.push(OutItem::Decl { decl: d });
                }
                let ghost n2 = results@.len() as int;
                while metas.len() > 0
                    invariant
                        n1 == iv.len(),
                        n2 == n1 + vv.len(),
                        results@.len() == n2 + mv.len() - metas@.len(),
                        results@.len() >= n2,
                        metas@ == mv.skip(results@.len() - n2),
                        forall|j: int|
                            0 <= j < n1 ==> results@[j]@ == (OutItemV::Import { import: iv[j]@ }),
                        forall|j: int|
                            n1 <= j < n2 ==> results@[j]@ == (OutItemV::Decl { decl: vv[j - n1]@ }),
                        forall|j: int|
                            n2 <= j < results@.len() ==> results@[j]@ == (OutItemV::Decl {
                                decl: mv[j - n2]@,
                            }),
                    decreases metas@.len(),
                {
                    let ghost k = (results@.len() - n2) as int;
                    let d = metas.remove(0);
                    proof {
                        assert(d == mv.skip(k)[0]);
                        assert(mv.skip(k)[0] == mv[k]);
                        assert(metas@ =~= mv.skip(k + 1));
                    }
                    results.push(OutItem::Decl { decl: d });
                }
                proof {
                    assert(view_out_items(results@) =~= view_gen_imports(iv).map_values(
                        |g: crate::ast::GenImportV| OutItemV::Import { import: g },
                    ) + view_const_decls(vv).map_values(
                        |d: crate::ast::ConstDeclV| OutItemV::Decl { decl: d },
                    ) + view_const_decls(mv).map_values(
                        |d: crate::ast::ConstDeclV| OutItemV::Decl { decl: d },
                    ));
                }
            },
            None => {
                proof {
                    assert(view_out_items(results@) =~= Seq::<OutItemV>::empty());
                }
            },
        }
        results
    }

    /// The filesystem patterns of the module's qualifying glob imports, in
    /// statement order: what the host enumerates, one matched-path list per
    /// pattern, before the rewrite runs.
    pub fn glob_patterns(&self, module: &Module) -> (pats: Vec<String>)
        ensures
            view_strings(pats@) == spec_patterns(module@.body, self.cwd@, self.filename@),
            pats@.len() == count_qualifying(module@.body),
    {
        let ghost bodyv = module@.body;
        let mut pats: Vec<String> = Vec::new();
        let mut i: usize = 0;
        while i < module.body.len()
            invariant
                i <= bodyv.len(),
                bodyv == module@.body,
                view_strings(pats@) == spec_patterns(bodyv.take(i as int), self.cwd@, self.filename@),
                pats@.len() == count_qualifying(bodyv.take(i as int)),
            decreases bodyv.len() - i,
        {
            proof {
                assert(bodyv.take(i as int + 1).drop_last() =~= bodyv.take(i as int));
                assert(bodyv.take(i as int + 1).last() == bodyv[i as int]);
                assert(bodyv[i as int] == module.body@[i as int]@);
            }
            let ghost p0 = pats@;
            match &module.body[i] {
                ModuleItem::Import { stmt } => {
                    let starts = first_char_is(stmt.src.as_str(), '.') || first_char_is(
                        stmt.src.as_str(),
                        '/',
                    );
                    if starts && is_glob_str(&stmt.src) {
                        let pat = self.as_glob_path(stmt.src.as_str());
                        pats.push(pat);
                        proof {
                            assert(view_strings(pats@) =~= view_strings(p0).push(
                                spec_with_file_name(
                                    spec_join(self.cwd@, self.filename@),
                                    stmt.src@,
                                ),
                            ));
                            assert(view_strings(pats@) =~= spec_patterns(
                                bodyv.take(i as int + 1),
                                self.cwd@,
                                self.filename@,
                            ));
                        }
                    } else {
                        proof {
                            assert(spec_patterns(bodyv.take(i as int + 1), self.cwd@, self.filename@)
                                =~= spec_patterns(bodyv.take(i as int), self.cwd@, self.filename@));
                        }
                    }
                },
                ModuleItem::Other => {
                    proof {
                        assert(spec_patterns(bodyv.take(i as int + 1), self.cwd@, self.filename@)
                            =~= spec_patterns(bodyv.take(i as int), self.cwd@, self.filename@));
                    }
                },
            }
            i += 1;
        }
        proof {
            assert(bodyv.take(i as int) =~= bodyv);
        }
        pats
    }

    /// One pass over the module's statement list. Each qualifying glob
    /// import is replaced in place by its expansion, fed by the matched-path
    /// list of the same rank in `matches` (an absent list counts as empty);
    /// every other item is kept unchanged, in order. The identifier counter
    /// carries across statements, so repeated expansions never collide.
    pub fn fold_module(&mut self, module: &Module, matches: &Vec<Vec<String>>) -> (out: Vec<
        OutItem,
    >)
        requires
            old(self).wf(),
            old(self).id_counter + spec_sum_lens(view_string_lists(matches@)) <= u64::MAX,
        ensures
            final(self).cwd == old(self).cwd,
            final(self).filename == old(self).filename,
            final(self).id_counter == old(self).id_counter + ids_consumed(
                module@.body,
                view_string_lists(matches@),
                old(self).cwd@,
                old(self).filename@,
            ),
            view_out_items(out@) == spec_transform(
                module@.body,
                view_string_lists(matches@),
                old(self).cwd@,
                old(self).filename@,
                old(self).id_counter as nat,
            ),
    {
        let ghost bodyv = module@.body;
        let ghost matchesv = view_string_lists(matches@);
        let ghost cwd0 = self.cwd@;
        let ghost f0 = self.filename@;
        let ghost c0 = self.id_counter;
        let empty_paths: Vec<String> = Vec::new();
        let mut out: Vec<OutItem> = Vec::new();
        let mut qi: usize = 0;
        let mut i: usize = 0;
        proof {
            assert(matchesv.skip(0) =~= matchesv);
            assert(bodyv.take(0) =~= Seq::<ModuleItemV>::empty());
        }
        while i < module.body.len()
            invariant
                i <= bodyv.len(),
                qi <= i,
                bodyv == module@.body,
                matchesv == view_string_lists(matches@),
                self.cwd == old(self).cwd,
                self.filename == old(self).filename,
                self.wf(),
                cwd0 == self.cwd@,
                f0 == self.filename@,
                c0 == old(self).id_counter,
                empty_paths@.len() == 0,
                qi as int == count_qualifying(bodyv.take(i as int)),
                self.id_counter == c0 + ids_consumed(bodyv.take(i as int), matchesv, cwd0, f0),
                qi as int <= matchesv.len() ==> self.id_counter + spec_sum_lens(
                    matchesv.skip(qi as int),
                ) <= u64::MAX,
                view_out_items(out@) == spec_transform(
                    bodyv.take(i as int),
                    matchesv,
                    cwd0,
                    f0,
                    c0 as nat,
                ),
            decreases bodyv.len() - i,
        {
            let ghost qi0 = qi as nat;
            let ghost counter_here = self.id_counter as nat;
            let ghost out0 = out@;
            proof {
                assert(bodyv.take(i as int + 1).drop_last() =~= bodyv.take(i as int));
                assert(bodyv.take(i as int + 1).last() == bodyv[i as int]);
                assert(bodyv[i as int] == module.body@[i as int]@);
            }
            match &module.body[i] {
                ModuleItem::Import { stmt } => {
                    let starts = first_char_is(stmt.src.as_str(), '.') || first_char_is(
                        stmt.src.as_str(),
                        '/',
                    );
                    let qualifies = starts && is_glob_str(&stmt.src);
                    proof {
                        assert(qualifies == spec_qualifies(stmt@));
                    }
                    if qualifies {
                        let paths_ref: &Vec<String> = if qi < matches.len() {
                            &matches[qi]
                        } else {
                            &empty_paths
                        };
                        proof {
                            if qi < matches.len() {
                                assert(matchesv[qi as int] == view_strings(matches@[qi as int]@));
                                lemma_sum_lens_first(matchesv.skip(qi as int));
                                assert(matchesv.skip(qi as int).first() == matchesv[qi as int]);
                                assert(matchesv.skip(qi as int).drop_first() =~= matchesv.skip(
                                    qi as int + 1,
                                ));
                            } else {
                                assert(view_strings(paths_ref@) =~= Seq::<Seq<char>>::empty());
                            }
                            assert(view_strings(paths_ref@) == match_list(matchesv, qi0));
                        }
                        let t = crate::transformer::transform_import_decl(self, stmt, paths_ref);
                        let mut items = self.build_module_items(t);
                        let ghost itemsv = items@;
                        out.append(&mut items);
                        qi += 1;
                        proof {
                            let resolved = spec_resolved_list(cwd0, f0, match_list(matchesv, qi0));
                            lemma_resolved_list_len(cwd0, f0, match_list(matchesv, qi0));
                            assert(view_out_items(itemsv) == crate::transformer::spec_expansion(
                                stmt@,
                                resolved,
                                counter_here,
                            ));
                            assert(view_out_items(out@) =~= view_out_items(out0) + view_out_items(
                                itemsv,
                            ));
                            assert(view_out_items(out@) == spec_transform(
                                bodyv.take(i as int + 1),
                                matchesv,
                                cwd0,
                                f0,
                                c0 as nat,
                            ));
                        }
                    } else {
                        out.push(OutItem::Keep { idx: i });
                        proof {
                            assert(view_out_items(out@) =~= view_out_items(out0).push(
                                OutItemV::Keep { idx: i as int },
                            ));
                            assert(view_out_items(out@) == spec_transform(
                                bodyv.take(i as int + 1),
                                matchesv,
                                cwd0,
                                f0,
                                c0 as nat,
                            ));
                        }
                    }
                },
                ModuleItem::Other => {
                    out.push(OutItem::Keep { idx: i });
                    proof {
                        assert(view_out_items(out@) =~= view_out_items(out0).push(
                            OutItemV::Keep { idx: i as int },
                        ));
                        assert(view_out_items(out@) == spec_transform(
                            bodyv.take(i as int + 1),
                            matchesv,
                            cwd0,
                            f0,
                            c0 as nat,
                        ));
                    }
                },
            }
            i += 1;
        }
        proof {
            assert(bodyv.take(i as int) =~= bodyv);
        }
        out
    }
}

} // verus!
