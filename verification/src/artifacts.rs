//! What the steps of a build do to the files in the output directory. The
//! steps are carried out by the caller; this is the model by which the
//! crate states that its scripts can be carried out in order, and where
//! the artifacts lie afterwards.

use crate::cargo_toml::package::BuildView;
use crate::pkg_build::{
    build_steps, compile_steps, copy_steps, default_path, package_steps, variant_path, ActionView,
    ParsedPackageView,
};
use crate::plan::{
    adds_standard_build, compiled, compiles_itself, copied, lemma_compiled_are_first,
    lemma_copied_holds, lemma_first_exists, planned, representative, CopyView, is_first_with,
};
use vstd::prelude::*;

verus! {

/// The files after one step that succeeds, `None` where the step cannot
/// succeed because its source is missing. A compile for the package
/// `wasm_name` leaves its artifact at the path of the standard build.
pub open spec fn after_step(
    files: Set<Seq<char>>,
    wasm_name: Seq<char>,
    action: ActionView,
) -> Option<Set<Seq<char>>> {
    match action {
        ActionView::Compile { .. } => Some(files.insert(default_path(wasm_name))),
        ActionView::Rename { from, to } => if files.contains(from) {
            Some(files.remove(from).insert(to))
        } else {
            None
        },
        ActionView::Copy { from, to } => if files.contains(from) {
            Some(files.insert(to))
        } else {
            None
        },
    }
}

/// The files after the steps in order, `None` where one of them cannot
/// succeed.
pub open spec fn after_steps(
    files: Set<Seq<char>>,
    wasm_name: Seq<char>,
    actions: Seq<ActionView>,
) -> Option<Set<Seq<char>>>
    decreases actions.len(),
{
    if actions.len() == 0 {
        Some(files)
    } else {
        match after_steps(files, wasm_name, actions.drop_last()) {
            None => None,
            Some(then) => after_step(then, wasm_name, actions.last()),
        }
    }
}

/// The path of a build with a name is never that of the standard build.
pub proof fn lemma_paths_differ(wasm_name: Seq<char>, build_name: Seq<char>)
    requires
        build_name.len() > 0,
    ensures
        variant_path(wasm_name, build_name) != default_path(wasm_name),
{
    assert(variant_path(wasm_name, build_name).len() > default_path(wasm_name).len());
}

/// Steps one after the other: the second list starts from the files that
/// the first leaves.
pub proof fn lemma_steps_in_sequence(
    files: Set<Seq<char>>,
    wasm_name: Seq<char>,
    first: Seq<ActionView>,
    second: Seq<ActionView>,
)
    ensures
        after_steps(files, wasm_name, first + second) == match after_steps(
            files,
            wasm_name,
            first,
        ) {
            None => None,
            Some(then) => after_steps(then, wasm_name, second),
        },
    decreases second.len(),
{
    if second.len() == 0 {
        assert(first + second =~= first);
    } else {
        assert((first + second).drop_last() =~= first + second.drop_last());
        assert((first + second).last() == second.last());
        lemma_steps_in_sequence(files, wasm_name, first, second.drop_last());
    }
}

/// Building one variant relocates its artifact: the steps succeed
/// whatever files there were, the artifact lies at the path of the build
/// afterwards, and for a build with a name the path of the standard build
/// is left empty. No other file appears or goes.
pub proof fn lemma_build_relocates(
    files: Set<Seq<char>>,
    directory: Seq<char>,
    wasm_name: Seq<char>,
    build: BuildView,
)
    ensures
        after_steps(files, wasm_name, build_steps(directory, wasm_name, build)) is Some,
        ({
            let then = after_steps(
                files,
                wasm_name,
                build_steps(directory, wasm_name, build),
            )->Some_0;
            &&& then.contains(variant_path(wasm_name, build.name))
            &&& build.name.len() > 0 ==> !then.contains(default_path(wasm_name))
            &&& forall|path: Seq<char>|
                path != default_path(wasm_name) && path != variant_path(wasm_name, build.name)
                    ==> then.contains(path) == files.contains(path)
        }),
{
    let steps = build_steps(directory, wasm_name, build);
    let compile = ActionView::Compile {
        directory,
        arguments: crate::pkg_build::compile_arguments(build.settings),
    };
    let one = seq![compile];
    assert(one.drop_last() =~= Seq::<ActionView>::empty());
    assert(after_steps(files, wasm_name, one.drop_last()) == Some(files));
    assert(after_steps(files, wasm_name, one) == Some(files.insert(default_path(wasm_name))));
    if build.name.len() > 0 {
        lemma_paths_differ(wasm_name, build.name);
        assert(steps.drop_last() =~= one);
        assert(steps.last() == ActionView::Rename {
            from: default_path(wasm_name),
            to: variant_path(wasm_name, build.name),
        });
    } else {
        assert(steps =~= one);
    }
}

/// After the compiles of a plan every compiled build with a name has its
/// artifact at its path, and a last build without a name has left its
/// artifact at the path of the standard build. Files at the paths of
/// builds with a name stay.
pub proof fn lemma_compiles_leave_artifacts(
    files: Set<Seq<char>>,
    directory: Seq<char>,
    wasm_name: Seq<char>,
    compiles: Seq<BuildView>,
)
    ensures
        after_steps(files, wasm_name, compile_steps(directory, wasm_name, compiles)) is Some,
        ({
            let then = after_steps(
                files,
                wasm_name,
                compile_steps(directory, wasm_name, compiles),
            )->Some_0;
            &&& forall|k: int|
                0 <= k < compiles.len() && (#[trigger] compiles[k]).name.len() > 0
                    ==> then.contains(variant_path(wasm_name, compiles[k].name))
            &&& compiles.len() > 0 && compiles.last().name.len() == 0 ==> then.contains(
                default_path(wasm_name),
            )
            &&& forall|path: Seq<char>|
                path != default_path(wasm_name) && files.contains(path) ==> then.contains(path)
        }),
    decreases compiles.len(),
{
    if compiles.len() > 0 {
        let head = compiles.drop_last();
        let last = compiles.last();
        lemma_compiles_leave_artifacts(files, directory, wasm_name, head);
        let before = after_steps(files, wasm_name, compile_steps(directory, wasm_name, head))->Some_0;
        lemma_steps_in_sequence(
            files,
            wasm_name,
            compile_steps(directory, wasm_name, head),
            build_steps(directory, wasm_name, last),
        );
        lemma_build_relocates(before, directory, wasm_name, last);
        let then = after_steps(
            files,
            wasm_name,
            compile_steps(directory, wasm_name, compiles),
        )->Some_0;
        assert forall|k: int|
            0 <= k < compiles.len() && (#[trigger] compiles[k]).name.len() > 0 implies then.contains(
            variant_path(wasm_name, compiles[k].name),
        ) by {
            if k < head.len() {
                assert(head[k] == compiles[k]);
                lemma_paths_differ(wasm_name, compiles[k].name);
                assert(before.contains(variant_path(wasm_name, compiles[k].name)));
            }
        }
        assert forall|path: Seq<char>|
            path != default_path(wasm_name) && files.contains(path) implies then.contains(path) by {
            assert(before.contains(path));
        }
    }
}

/// `copy` is the copy that the plan makes for the declared build `j`:
/// the build is not compiled, and takes the output of the first build
/// with its fingerprint.
pub open spec fn is_copy_of(builds: Seq<BuildView>, copy: CopyView, j: int) -> bool {
    &&& 0 <= j < builds.len()
    &&& !compiles_itself(builds, j)
    &&& is_first_with(builds, builds[j].settings.fingerprint(), representative(builds, j))
    &&& copy == (CopyView { name: builds[j].name, source: builds[representative(builds, j)].name })
}

/// The copy at position `a` of the plan is the copy of some declared
/// build.
pub open spec fn copy_has_origin(builds: Seq<BuildView>, a: int) -> bool {
    exists|j: int| #[trigger] is_copy_of(builds, copied(builds)[a], j)
}

/// Every copy of a plan is the copy of a declared build.
pub proof fn lemma_copies_come_from_builds(builds: Seq<BuildView>)
    ensures
        forall|a: int| 0 <= a < copied(builds).len() ==> #[trigger] copy_has_origin(builds, a),
    decreases builds.len(),
{
    if builds.len() > 0 {
        let head = builds.drop_last();
        let last = builds.len() - 1;
        lemma_copies_come_from_builds(head);
        assert forall|a: int| 0 <= a < copied(builds).len() implies #[trigger] copy_has_origin(
            builds,
            a,
        ) by {
            if a < copied(head).len() {
                assert(copy_has_origin(head, a));
                let j = choose|j: int| #[trigger] is_copy_of(head, copied(head)[a], j);
                lemma_same_representative(builds, j);
                assert(copied(builds)[a] == copied(head)[a]);
                assert(head[j] == builds[j]);
                assert(head[representative(head, j)] == builds[representative(head, j)]);
                assert(is_copy_of(builds, copied(builds)[a], j));
            } else {
                let print = builds[last].settings.fingerprint();
                lemma_first_exists(builds, print, last);
                assert(is_first_with(builds, print, representative(builds, last)));
                assert(is_copy_of(builds, copied(builds)[a], last));
            }
        }
    }
}

/// A build keeps its representative when a build is declared after it.
proof fn lemma_same_representative(builds: Seq<BuildView>, j: int)
    requires
        0 <= j < builds.len() - 1,
        is_first_with(
            builds.drop_last(),
            builds[j].settings.fingerprint(),
            representative(builds.drop_last(), j),
        ),
    ensures
        representative(builds, j) == representative(builds.drop_last(), j),
        is_first_with(builds, builds[j].settings.fingerprint(), representative(builds, j)),
        compiles_itself(builds, j) == compiles_itself(builds.drop_last(), j),
{
    let head = builds.drop_last();
    let print = builds[j].settings.fingerprint();
    assert(head[j] == builds[j]);
    let r = representative(head, j);
    assert(head[r] == builds[r]);
    assert(is_first_with(builds, print, r)) by {
        assert forall|k: int| 0 <= k < r implies (#[trigger] builds[k]).settings.fingerprint()
            != print by {
            assert(head[k].settings.fingerprint() != print);
        }
    }
    let r2 = representative(builds, j);
    assert(is_first_with(builds, print, r2));
    if r < r2 {
        assert(builds[r].settings.fingerprint() == print);
    }
    if r2 < r {
        assert(builds[r2].settings.fingerprint() == print);
    }
    crate::plan::lemma_prefix_keeps_first(builds, head.len() as int, j);
    assert(head =~= builds.take(head.len() as int));
}

/// Copies whose sources are all there succeed, leave every file in its
/// place, and put a file at the path of each copy.
pub proof fn lemma_copies_add_artifacts(
    files: Set<Seq<char>>,
    wasm_name: Seq<char>,
    copies: Seq<CopyView>,
)
    requires
        forall|a: int|
            0 <= a < copies.len() ==> files.contains(
                variant_path(wasm_name, (#[trigger] copies[a]).source),
            ),
    ensures
        after_steps(files, wasm_name, copy_steps(wasm_name, copies)) is Some,
        ({
            let then = after_steps(files, wasm_name, copy_steps(wasm_name, copies))->Some_0;
            &&& forall|path: Seq<char>| files.contains(path) ==> then.contains(path)
            &&& forall|a: int|
                0 <= a < copies.len() ==> then.contains(
                    variant_path(wasm_name, (#[trigger] copies[a]).name),
                )
        }),
    decreases copies.len(),
{
    if copies.len() > 0 {
        let head = copies.drop_last();
        assert(copy_steps(wasm_name, copies).drop_last() =~= copy_steps(wasm_name, head));
        assert forall|a: int| 0 <= a < head.len() implies files.contains(
            variant_path(wasm_name, (#[trigger] head[a]).source),
        ) by {
            assert(head[a] == copies[a]);
        }
        lemma_copies_add_artifacts(files, wasm_name, head);
        let before = after_steps(files, wasm_name, copy_steps(wasm_name, head))->Some_0;
        let last = copies.last();
        assert(copies[copies.len() - 1] == last);
        assert(before.contains(variant_path(wasm_name, last.source)));
        let then = after_steps(files, wasm_name, copy_steps(wasm_name, copies))->Some_0;
        assert forall|a: int| 0 <= a < copies.len() implies then.contains(
            variant_path(wasm_name, (#[trigger] copies[a]).name),
        ) by {
            if a < head.len() {
                assert(head[a] == copies[a]);
            }
        }
    }
}

/// The script of a package can be carried out from any state of the
/// output directory, where every declared build has a name: no move and
/// no copy misses its source. Afterwards every declared build has its
/// artifact at its path, and the standard build, where the plan adds it,
/// has its artifact at the path of the standard build.
pub proof fn lemma_package_script_runs(
    files: Set<Seq<char>>,
    directory: Seq<char>,
    package: ParsedPackageView,
)
    requires
        forall|i: int| 0 <= i < package.builds.len() ==> (#[trigger] package.builds[i]).name.len() > 0,
    ensures
        after_steps(files, package.name, package_steps(directory, package)) is Some,
        ({
            let then = after_steps(files, package.name, package_steps(directory, package))->Some_0;
            &&& forall|i: int|
                0 <= i < package.builds.len() ==> then.contains(
                    variant_path(package.name, (#[trigger] package.builds[i]).name),
                )
            &&& adds_standard_build(package.builds, package.standard_build) ==> then.contains(
                default_path(package.name),
            )
        }),
{
    let builds = package.builds;
    let plan = planned(builds, package.standard_build);
    let compiling = compile_steps(directory, package.name, plan.compiles);
    let copying = copy_steps(package.name, plan.copies);
    lemma_compiles_leave_artifacts(files, directory, package.name, plan.compiles);
    let middle = after_steps(files, package.name, compiling)->Some_0;
    lemma_compiled_are_first(builds);
    lemma_copies_come_from_builds(builds);
    assert forall|k: int| 0 <= k < compiled(builds).len() implies (#[trigger] compiled(
        builds,
    )[k]).name.len() > 0 && middle.contains(variant_path(package.name, compiled(builds)[k].name)) by {
        let i = choose|i: int|
            0 <= i < builds.len() && compiles_itself(builds, i) && builds[i] == compiled(builds)[k];
        assert(builds[i].name.len() > 0);
        assert(plan.compiles[k] == compiled(builds)[k]);
    }
    assert forall|a: int| 0 <= a < plan.copies.len() implies middle.contains(
        variant_path(package.name, (#[trigger] plan.copies[a]).source),
    ) by {
        assert(copy_has_origin(builds, a));
        let j = choose|j: int| #[trigger] is_copy_of(builds, copied(builds)[a], j);
        let r = representative(builds, j);
        assert(builds[r].settings.fingerprint() == builds[j].settings.fingerprint());
        assert(compiles_itself(builds, r));
        assert(compiled(builds).contains(builds[r]));
        let k = choose|k: int| 0 <= k < compiled(builds).len() && compiled(builds)[k] == builds[r];
        assert(middle.contains(variant_path(package.name, compiled(builds)[k].name)));
    }
    lemma_copies_add_artifacts(middle, package.name, plan.copies);
    lemma_steps_in_sequence(files, package.name, compiling, copying);
    let then = after_steps(files, package.name, package_steps(directory, package))->Some_0;
    assert forall|i: int| 0 <= i < builds.len() implies then.contains(
        variant_path(package.name, (#[trigger] builds[i]).name),
    ) by {
        if compiles_itself(builds, i) {
            assert(compiled(builds).contains(builds[i]));
            let k = choose|k: int| 0 <= k < compiled(builds).len() && compiled(builds)[k] == builds[i];
            assert(middle.contains(variant_path(package.name, compiled(builds)[k].name)));
        } else {
            lemma_copied_holds(builds, i);
            let wanted = CopyView {
                name: builds[i].name,
                source: builds[representative(builds, i)].name,
            };
            let a = choose|a: int| 0 <= a < copied(builds).len() && copied(builds)[a] == wanted;
            assert(then.contains(variant_path(package.name, plan.copies[a].name)));
        }
    }
    if adds_standard_build(builds, package.standard_build) {
        assert(plan.compiles.last() == BuildView::standard());
        assert(middle.contains(default_path(package.name)));
    }
}

} // verus!
