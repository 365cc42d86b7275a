//! The build plan of a package: which of its builds are compiled, and
//! which are copies of the output of an earlier build with the same
//! fingerprint.

use crate::cargo_toml::package::{
    build_views, Build, BuildFingerprint, BuildView, FingerprintView,
};
use vstd::prelude::*;

verus! {

/// Build `j` is the first in `builds` with the fingerprint `fingerprint`.
pub open spec fn is_first_with(
    builds: Seq<BuildView>,
    fingerprint: FingerprintView,
    j: int,
) -> bool {
    &&& 0 <= j < builds.len()
    &&& builds[j].settings.fingerprint() == fingerprint
    &&& forall|k: int| 0 <= k < j ==> (#[trigger] builds[k]).settings.fingerprint() != fingerprint
}

/// Some build in `builds` has the fingerprint `fingerprint`.
pub open spec fn seen(builds: Seq<BuildView>, fingerprint: FingerprintView) -> bool {
    exists|j: int| 0 <= j < builds.len() && (#[trigger] builds[j]).settings.fingerprint() == fingerprint
}

/// The index of the build whose output build `i` shares: the first build
/// with the fingerprint of build `i`.
pub open spec fn representative(builds: Seq<BuildView>, i: int) -> int {
    choose|j: int| is_first_with(builds, builds[i].settings.fingerprint(), j)
}

/// Build `i` is compiled: no earlier build has its fingerprint.
pub open spec fn compiles_itself(builds: Seq<BuildView>, i: int) -> bool {
    is_first_with(builds, builds[i].settings.fingerprint(), i)
}

/// A copy as mathematical values: the build `name` takes the output of
/// the build `source`.
pub struct CopyView {
    pub name: Seq<char>,
    pub source: Seq<char>,
}

/// The builds of `builds` that are compiled, in declaration order.
pub open spec fn compiled(builds: Seq<BuildView>) -> Seq<BuildView>
    decreases builds.len(),
{
    if builds.len() == 0 {
        Seq::empty()
    } else if compiles_itself(builds, builds.len() - 1) {
        compiled(builds.drop_last()).push(builds.last())
    } else {
        compiled(builds.drop_last())
    }
}

/// The builds of `builds` that are copied, in declaration order, each with
/// the name of the build whose output it takes.
pub open spec fn copied(builds: Seq<BuildView>) -> Seq<CopyView>
    decreases builds.len(),
{
    if builds.len() == 0 {
        Seq::empty()
    } else if compiles_itself(builds, builds.len() - 1) {
        copied(builds.drop_last())
    } else {
        copied(builds.drop_last()).push(
            CopyView {
                name: builds.last().name,
                source: builds[representative(builds, builds.len() - 1)].name,
            },
        )
    }
}

/// Whether the standard build is added to the declared builds: it is
/// where the package asks for it and no declared build has its
/// fingerprint.
pub open spec fn adds_standard_build(builds: Seq<BuildView>, standard_build: bool) -> bool {
    standard_build && !seen(builds, FingerprintView::standard())
}

/// A build plan as mathematical values.
pub struct BuildPlanView {
    pub compiles: Seq<BuildView>,
    pub copies: Seq<CopyView>,
}

/// The plan for the declared builds `builds` of a package.
pub open spec fn planned(builds: Seq<BuildView>, standard_build: bool) -> BuildPlanView {
    BuildPlanView {
        compiles: if adds_standard_build(builds, standard_build) {
            compiled(builds).push(BuildView::standard())
        } else {
            compiled(builds)
        },
        copies: copied(builds),
    }
}

/// Every compiled build is a declared build that compiles itself, and
/// every declared build that compiles itself is compiled.
pub proof fn lemma_compiled_are_first(builds: Seq<BuildView>)
    ensures
        forall|a: int|
            0 <= a < compiled(builds).len() ==> exists|k: int|
                0 <= k < builds.len() && compiles_itself(builds, k) && builds[k] == #[trigger] compiled(
                    builds,
                )[a],
        forall|k: int|
            0 <= k < builds.len() && #[trigger] compiles_itself(builds, k) ==> compiled(
                builds,
            ).contains(builds[k]),
    decreases builds.len(),
{
    if builds.len() > 0 {
        let head = builds.drop_last();
        let last = builds.len() - 1;
        lemma_compiled_are_first(head);
        assert forall|k: int| 0 <= k < head.len() implies compiles_itself(head, k)
            == compiles_itself(builds, k) by {
            lemma_prefix_keeps_first(builds, head.len() as int, k);
        }
        assert forall|a: int| 0 <= a < compiled(builds).len() implies exists|k: int|
            0 <= k < builds.len() && compiles_itself(builds, k) && builds[k] == #[trigger] compiled(
                builds,
            )[a] by {
            if a < compiled(head).len() {
                let k = choose|k: int|
                    0 <= k < head.len() && compiles_itself(head, k) && head[k] == compiled(head)[a];
                assert(compiles_itself(builds, k) && builds[k] == compiled(builds)[a]);
            } else {
                assert(compiles_itself(builds, last) && builds[last] == compiled(builds)[a]);
            }
        }
        assert forall|k: int|
            0 <= k < builds.len() && #[trigger] compiles_itself(builds, k) implies compiled(
            builds,
        ).contains(builds[k]) by {
            if k < last {
                assert(compiles_itself(head, k));
                assert(compiled(head).contains(head[k]));
                let a = choose|a: int| 0 <= a < compiled(head).len() && compiled(head)[a] == head[k];
                assert(compiled(builds)[a] == builds[k]);
            } else {
                assert(compiled(builds)[compiled(builds).len() - 1] == builds[k]);
            }
        }
    }
}

/// Whether a build is the first with its fingerprint depends only on the
/// builds up to it.
pub proof fn lemma_prefix_keeps_first(builds: Seq<BuildView>, n: int, k: int)
    requires
        0 <= k < n <= builds.len(),
    ensures
        compiles_itself(builds.take(n), k) == compiles_itself(builds, k),
        is_first_with(builds.take(n), builds[k].settings.fingerprint(), k) == is_first_with(
            builds,
            builds[k].settings.fingerprint(),
            k,
        ),
{
    let head = builds.take(n);
    assert(forall|j: int| 0 <= j < n ==> head[j] == builds[j]);
    let print = builds[k].settings.fingerprint();
    if is_first_with(head, print, k) {
        assert forall|j: int| 0 <= j < k implies (#[trigger] builds[j]).settings.fingerprint()
            != print by {
            assert(head[j].settings.fingerprint() != print);
        }
    }
    if is_first_with(builds, print, k) {
        assert forall|j: int| 0 <= j < k implies (#[trigger] head[j]).settings.fingerprint()
            != print by {
            assert(builds[j].settings.fingerprint() != print);
        }
    }
}

/// Every declared build is either compiled or copied, never both.
pub proof fn lemma_each_build_once(builds: Seq<BuildView>)
    ensures
        compiled(builds).len() + copied(builds).len() == builds.len(),
    decreases builds.len(),
{
    if builds.len() > 0 {
        lemma_each_build_once(builds.drop_last());
    }
}

/// No fingerprint is compiled twice: any two builds that the plan compiles
/// differ in their fingerprints, the standard build included.
pub proof fn lemma_compiles_are_distinct(builds: Seq<BuildView>, standard_build: bool)
    ensures
        forall|a: int, b: int|
            #![trigger planned(builds, standard_build).compiles[a], planned(builds, standard_build).compiles[b]]
            0 <= a < b < planned(builds, standard_build).compiles.len() ==> planned(
                builds,
                standard_build,
            ).compiles[a].settings.fingerprint() != planned(
                builds,
                standard_build,
            ).compiles[b].settings.fingerprint(),
{
    let compiles = planned(builds, standard_build).compiles;
    lemma_compiled_are_first(builds);
    lemma_compiled_in_order(builds);
    assert forall|a: int, b: int| 0 <= a < b < compiles.len() implies compiles[a].settings.fingerprint()
        != compiles[b].settings.fingerprint() by {
        let first = compiled(builds);
        assert(first[a] == compiles[a]);
        let k = choose|k: int|
            0 <= k < builds.len() && compiles_itself(builds, k) && builds[k] == first[a];
        if b < first.len() {
            assert(first[b] == compiles[b]);
            let ka = origin(builds, a);
            let kb = origin(builds, b);
            assert(ka < kb);
            assert(compiles_itself(builds, kb));
            assert(builds[ka].settings.fingerprint() != builds[kb].settings.fingerprint());
        } else {
            assert(compiles[b] == BuildView::standard());
            assert(!seen(builds, FingerprintView::standard()));
            assert(builds[k].settings.fingerprint() != FingerprintView::standard());
        }
    }
}

/// The index among the declared builds of the build compiled at position
/// `a`: the declared build that compiles itself and has `a` such builds
/// before it.
pub open spec fn origin(builds: Seq<BuildView>, a: int) -> int
    decreases builds.len(),
{
    if builds.len() == 0 {
        0
    } else if a < compiled(builds.drop_last()).len() {
        origin(builds.drop_last(), a)
    } else {
        builds.len() - 1
    }
}

/// The compiled builds stand in declaration order: the build compiled at
/// position `a` is the declared build `origin(builds, a)`, which compiles
/// itself, and a later position has a later origin.
pub proof fn lemma_compiled_in_order(builds: Seq<BuildView>)
    ensures
        forall|a: int|
            0 <= a < compiled(builds).len() ==> {
                &&& 0 <= #[trigger] origin(builds, a) < builds.len()
                &&& compiles_itself(builds, origin(builds, a))
                &&& builds[origin(builds, a)] == compiled(builds)[a]
            },
        forall|a: int, b: int|
            0 <= a < b < compiled(builds).len() ==> #[trigger] origin(builds, a) < #[trigger] origin(
                builds,
                b,
            ),
    decreases builds.len(),
{
    if builds.len() > 0 {
        let head = builds.drop_last();
        lemma_compiled_in_order(head);
        assert forall|a: int| 0 <= a < compiled(builds).len() implies {
            &&& 0 <= #[trigger] origin(builds, a) < builds.len()
            &&& compiles_itself(builds, origin(builds, a))
            &&& builds[origin(builds, a)] == compiled(builds)[a]
        } by {
            if a < compiled(head).len() {
                let k = origin(head, a);
                assert(head[k] == builds[k]);
                lemma_prefix_keeps_first(builds, head.len() as int, k);
            }
        }
        assert forall|a: int, b: int| 0 <= a < b < compiled(builds).len() implies #[trigger] origin(
            builds,
            a,
        ) < #[trigger] origin(builds, b) by {
            assert(origin(builds, a) == origin(head, a));
            if b < compiled(head).len() {
                assert(origin(head, a) < origin(head, b));
            }
        }
    }
}

/// Of two declared builds with the same fingerprint the later one is not
/// compiled: the plan makes it a copy of the first build with that
/// fingerprint, which is compiled.
pub proof fn lemma_later_build_is_copied(builds: Seq<BuildView>, i: int, j: int)
    requires
        0 <= i < j < builds.len(),
        builds[i].settings.fingerprint() == builds[j].settings.fingerprint(),
    ensures
        !compiles_itself(builds, j),
        0 <= representative(builds, j) <= i,
        compiles_itself(builds, representative(builds, j)),
        builds[representative(builds, j)].settings.fingerprint() == builds[j].settings.fingerprint(),
        compiled(builds).contains(builds[representative(builds, j)]),
        copied(builds).contains(
            CopyView { name: builds[j].name, source: builds[representative(builds, j)].name },
        ),
{
    let print = builds[j].settings.fingerprint();
    lemma_first_exists(builds, print, i);
    let r = representative(builds, j);
    assert(is_first_with(builds, print, r));
    if i < r {
        assert(builds[i].settings.fingerprint() == print);
    }
    lemma_compiled_are_first(builds);
    lemma_copied_holds(builds, j);
}

/// Where some build up to `i` has the fingerprint, some build is the first
/// with it.
pub proof fn lemma_first_exists(builds: Seq<BuildView>, fingerprint: FingerprintView, i: int)
    requires
        0 <= i < builds.len(),
        builds[i].settings.fingerprint() == fingerprint,
    ensures
        exists|j: int| is_first_with(builds, fingerprint, j),
    decreases i,
{
    if forall|k: int| 0 <= k < i ==> (#[trigger] builds[k]).settings.fingerprint() != fingerprint {
        assert(is_first_with(builds, fingerprint, i));
    } else {
        let k = choose|k: int|
            0 <= k < i && (#[trigger] builds[k]).settings.fingerprint() == fingerprint;
        lemma_first_exists(builds, fingerprint, k);
    }
}

/// A declared build that does not compile itself is among the copies, with
/// the first build of its fingerprint as its source.
pub proof fn lemma_copied_holds(builds: Seq<BuildView>, j: int)
    requires
        0 <= j < builds.len(),
        !compiles_itself(builds, j),
    ensures
        copied(builds).contains(
            CopyView { name: builds[j].name, source: builds[representative(builds, j)].name },
        ),
    decreases builds.len(),
{
    let head = builds.drop_last();
    let last = builds.len() - 1;
    if j == last {
        assert(copied(builds)[copied(builds).len() - 1] == CopyView {
            name: builds[j].name,
            source: builds[representative(builds, j)].name,
        });
    } else {
        lemma_prefix_keeps_first(builds, head.len() as int, j);
        assert(head =~= builds.take(head.len() as int));
        lemma_copied_holds(head, j);
        let print = builds[j].settings.fingerprint();
        assert(head[j] == builds[j]);
        lemma_first_exists(head, print, j);
        let r = representative(head, j);
        assert(is_first_with(head, print, r));
        assert(is_first_with(builds, print, r)) by {
            assert forall|k: int| 0 <= k < r implies (#[trigger] builds[k]).settings.fingerprint()
                != print by {
                assert(head[k].settings.fingerprint() != print);
            }
            assert(head[r] == builds[r]);
        }
        let r2 = representative(builds, j);
        assert(is_first_with(builds, print, r2));
        if r < r2 {
            assert(builds[r].settings.fingerprint() == print);
        }
        if r2 < r {
            assert(builds[r2].settings.fingerprint() == print);
        }
        let wanted = CopyView { name: builds[j].name, source: builds[r2].name };
        let a = choose|a: int| 0 <= a < copied(head).len() && copied(head)[a] == wanted;
        assert(copied(builds)[a] == wanted);
    }
}

/// A package that asks for the standard build and declares no build with
/// its fingerprint gets the standard build as the last compile of its
/// plan. Where every declared build has a name, it is the only compile
/// without one.
pub proof fn lemma_standard_build_added_once(builds: Seq<BuildView>)
    requires
        !seen(builds, FingerprintView::standard()),
    ensures
        planned(builds, true).compiles == compiled(builds).push(BuildView::standard()),
        (forall|i: int| 0 <= i < builds.len() ==> (#[trigger] builds[i]).name.len() > 0) ==> forall|
            a: int,
        |
            0 <= a < planned(builds, true).compiles.len() ==> ((#[trigger] planned(
                builds,
                true,
            ).compiles[a]).name.len() == 0 <==> a == planned(builds, true).compiles.len() - 1),
{
    lemma_compiled_are_first(builds);
    let compiles = planned(builds, true).compiles;
    if forall|i: int| 0 <= i < builds.len() ==> (#[trigger] builds[i]).name.len() > 0 {
        assert forall|a: int| 0 <= a < compiles.len() implies ((#[trigger] compiles[a]).name.len()
            == 0 <==> a == compiles.len() - 1) by {
            if a < compiles.len() - 1 {
                assert(compiles[a] == compiled(builds)[a]);
                let k = choose|k: int|
                    0 <= k < builds.len() && compiles_itself(builds, k) && builds[k] == compiled(
                        builds,
                    )[a];
                assert(builds[k].name.len() > 0);
            }
        }
    }
}

/// A package that declares no build and does not ask for the standard
/// build has an empty plan.
pub proof fn lemma_nothing_to_build(builds: Seq<BuildView>)
    requires
        builds.len() == 0,
    ensures
        planned(builds, false).compiles.len() == 0,
        planned(builds, false).copies.len() == 0,
{
}

/// A declared build with the fingerprint of the standard build stands in
/// for it: the plan compiles no build beside the declared ones.
pub proof fn lemma_standard_build_covered(builds: Seq<BuildView>, standard_build: bool)
    requires
        seen(builds, FingerprintView::standard()),
    ensures
        planned(builds, standard_build).compiles == compiled(builds),
{
}

/// A build that is not compiled: its output is a copy of the output of
/// an earlier build.
#[derive(Debug, PartialEq, Eq)]
pub struct CopyStep {
    /// The name of the build that gets the copy.
    pub name: String,
    /// The name of the build whose output is copied.
    pub source: String,
}

impl View for CopyStep {
    type V = CopyView;

    open spec fn view(&self) -> CopyView {
        CopyView { name: self.name@, source: self.source@ }
    }
}

/// The views of a list of copies.
pub open spec fn copy_views(copies: Seq<CopyStep>) -> Seq<CopyView> {
    Seq::new(copies.len(), |i: int| copies[i]@)
}

/// The plan of a package: the builds to compile, in the order in which
/// they are compiled, and the builds that are copies. Every copy takes the
/// output of a build of `compiles`.
#[derive(Debug, PartialEq, Eq)]
pub struct BuildPlan {
    pub compiles: Vec<Build>,
    pub copies: Vec<CopyStep>,
}

impl View for BuildPlan {
    type V = BuildPlanView;

    open spec fn view(&self) -> BuildPlanView {
        BuildPlanView { compiles: build_views(self.compiles@), copies: copy_views(self.copies@) }
    }
}

/// The fingerprints of the builds, in order.
fn fingerprints(builds: &Vec<Build>) -> (list: Vec<BuildFingerprint>)
    ensures
        list.len() == builds.len(),
        forall|i: int| 0 <= i < list.len() ==> (#[trigger] list[i])@ == builds[i]@.settings.fingerprint(),
{
    let mut list: Vec<BuildFingerprint> = Vec::new();
    let mut i: usize = 0;
    while i < builds.len()
        invariant
            i <= builds.len(),
            list.len() == i,
            forall|j: int| 0 <= j < i ==> (#[trigger] list[j])@ == builds[j]@.settings.fingerprint(),
        decreases builds.len() - i,
    {
        list.push(builds[i].settings.fingerprint());
        i += 1;
    }
    list
}

/// The index of the first of the `limit` first fingerprints that is the
/// same as `wanted`, if there is one.
fn first_same(list: &Vec<BuildFingerprint>, limit: usize, wanted: &BuildFingerprint) -> (found:
    Option<usize>)
    requires
        limit <= list.len(),
    ensures
        match found {
            Some(j) => j < limit && list[j as int]@ == wanted@ && forall|k: int|
                0 <= k < j ==> (#[trigger] list[k])@ != wanted@,
            None => forall|k: int| 0 <= k < limit ==> (#[trigger] list[k])@ != wanted@,
        },
{
    let mut j: usize = 0;
    while j < limit
        invariant
            j <= limit,
            limit <= list.len(),
            forall|k: int| 0 <= k < j ==> (#[trigger] list[k])@ != wanted@,
        decreases limit - j,
    {
        if list[j].same(wanted) {
            return Some(j);
        }
        j += 1;
    }
    None
}

/// Plans the builds of a package. The declared builds are taken in
/// declaration order: the first build with a fingerprint is compiled, and
/// each later build with that fingerprint becomes a copy of it. The
/// standard build is compiled last, where the package asks for it and no
/// declared build has its fingerprint.
pub fn plan_builds(builds: &Vec<Build>, standard_build: bool) -> (plan: BuildPlan)
    ensures
        plan@ == planned(build_views(builds@), standard_build),
{
    let ghost views = build_views(builds@);
    let prints = fingerprints(builds);
    let mut compiles: Vec<Build> = Vec::new();
    let mut copies: Vec<CopyStep> = Vec::new();
    let mut i: usize = 0;
    proof {
        assert(views.take(0) =~= Seq::<BuildView>::empty());
        assert(build_views(compiles@) =~= compiled(views.take(0)));
        assert(copy_views(copies@) =~= copied(views.take(0)));
    }
    while i < builds.len()
        invariant
            i <= builds.len(),
            views == build_views(builds@),
            prints.len() == builds.len(),
            forall|k: int| 0 <= k < prints.len() ==> (#[trigger] prints[k])@ == builds[k]@.settings.fingerprint(),
            build_views(compiles@) == compiled(views.take(i as int)),
            copy_views(copies@) == copied(views.take(i as int)),
        decreases builds.len() - i,
    {
        let ghost head = views.take(i as int);
        let ghost next = views.take(i as int + 1);
        let ghost print = views[i as int].settings.fingerprint();
        proof {
            assert(next.drop_last() =~= head);
            assert(next.last() == views[i as int]);
            assert forall|k: int| 0 <= k <= i implies (#[trigger] next[k]).settings.fingerprint()
                == prints[k]@ by {
                assert(next[k] == views[k]);
            }
        }
        match first_same(&prints, i, &prints[i]) {
            Some(j) => {
                proof {
                    assert(next[j as int].settings.fingerprint() == print);
                    assert(!compiles_itself(next, i as int));
                    assert(is_first_with(next, print, j as int));
                    assert(representative(next, i as int) == j) by {
                        let r = representative(next, i as int);
                        assert(is_first_with(next, print, r));
                        if r < j {
                            assert(next[r].settings.fingerprint() == print);
                        }
                        if j < r {
                            assert(next[j as int].settings.fingerprint() == print);
                        }
                    }
                }
                let ghost before = copy_views(copies@);
                let step = CopyStep { name: builds[i].name.clone(), source: builds[j].name.clone() };
                copies.push(step);
                proof {
                    assert(copy_views(copies@) =~= before.push(
                        CopyView { name: views[i as int].name, source: views[j as int].name },
                    ));
                }
            },
            None => {
                proof {
                    assert(compiles_itself(next, i as int));
                }
                let ghost before = build_views(compiles@);
                compiles.push(builds[i].clone());
                proof {
                    assert(build_views(compiles@) =~= before.push(views[i as int]));
                }
            },
        }
        i += 1;
    }
    proof {
        assert(views.take(builds.len() as int) =~= views);
    }
    if standard_build {
        let standard = Build::default();
        let print = standard.settings.fingerprint();
        match first_same(&prints, builds.len(), &print) {
            Some(j) => {
                proof {
                    assert(views[j as int].settings.fingerprint() == FingerprintView::standard());
                    assert(seen(views, FingerprintView::standard()));
                }
            },
            None => {
                proof {
                    assert forall|k: int| 0 <= k < views.len() implies (#[trigger] views[k]).settings.fingerprint()
                        != FingerprintView::standard() by {
                        assert(prints[k]@ != print@);
                    }
                }
                let ghost before = build_views(compiles@);
                compiles.push(standard);
                proof {
                    assert(build_views(compiles@) =~= before.push(BuildView::standard()));
                }
            },
        }
    }
    BuildPlan { compiles, copies }
}

} // verus!
