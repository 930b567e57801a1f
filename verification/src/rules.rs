//! The generated makefile: which rules it holds for a project's build
//! targets, and its text.

use vstd::prelude::*;
use vstd::string::*;
use crate::makefile::{rule_text, MakefileRule, MakefileRuleSpec};
use crate::project::{is_release_lib, BuildTarget};
use crate::text::{concat2, concat3, join, join_strings, texts};

verus! {

/// Where the libraries are installed, below the root that `DESTDIR` names.
pub open spec fn install_dir() -> Seq<char> {
    "/usr/lib/x86_64-linux-gnu/rust/1.0/lib/rustlib/x86_64-unknown-linux-gnu/lib/"@
}

/// The marker file that says that a target was built.
pub open spec fn stamp_path(target: BuildTarget) -> Seq<char> {
    "build/lib"@ + target.name@ + ".stamp"@
}

/// An output file of a target: `ending` tells the dynamic library, the
/// rlib and the static library apart.
pub open spec fn artifact_path(target: BuildTarget, ending: Seq<char>) -> Seq<char> {
    "build/lib"@ + target.name@ + target.extra_filename@ + ending
}

/// The compiler call that builds a target in its three forms.
pub open spec fn compile_command(target: BuildTarget) -> Seq<char> {
    "rustc "@ + target.src_path@ + " --crate-name "@ + target.name@
        + " --crate-type staticlib,rlib,dylib -C prefer-dynamic -C opt-level=3 --cfg ndebug -C metadata="@
        + target.metadata@ + " -C extra-filename="@ + target.extra_filename@
        + " --out-dir build --emit=dep-info,link"@
}

/// The rule that builds a target and leaves its stamp.
pub open spec fn build_rule(target: BuildTarget) -> MakefileRuleSpec {
    MakefileRuleSpec {
        target: stamp_path(target),
        deps: Seq::empty(),
        rules: seq![
            "@if test ! -d build; then mkdir build; fi"@,
            compile_command(target),
            "touch "@ + stamp_path(target),
        ],
    }
}

/// The rule that says that an output file is there once the stamp is.
pub open spec fn artifact_rule(target: BuildTarget, ending: Seq<char>) -> MakefileRuleSpec {
    MakefileRuleSpec {
        target: artifact_path(target, ending),
        deps: seq![stamp_path(target)],
        rules: Seq::empty(),
    }
}

/// The four rules of one target: static library, rlib, dynamic library,
/// and the build itself.
pub open spec fn target_rules(target: BuildTarget) -> Seq<MakefileRuleSpec> {
    seq![
        artifact_rule(target, ".a"@),
        artifact_rule(target, ".rlib"@),
        artifact_rule(target, ".so"@),
        build_rule(target),
    ]
}

/// The rules of the packaged targets, those of the last target first.
pub open spec fn library_rules(targets: Seq<BuildTarget>) -> Seq<MakefileRuleSpec>
    decreases targets.len(),
{
    if targets.len() == 0 {
        Seq::empty()
    } else if is_release_lib(targets.last()) {
        target_rules(targets.last()) + library_rules(targets.drop_last())
    } else {
        library_rules(targets.drop_last())
    }
}

/// The stamps of the packaged targets, in the order of the targets.
pub open spec fn stamps(targets: Seq<BuildTarget>) -> Seq<Seq<char>>
    decreases targets.len(),
{
    if targets.len() == 0 {
        Seq::empty()
    } else if is_release_lib(targets.last()) {
        stamps(targets.drop_last()).push(stamp_path(targets.last()))
    } else {
        stamps(targets.drop_last())
    }
}

/// The command that installs one output file.
pub open spec fn install_command(path: Seq<char>) -> Seq<char> {
    "install -m 644 -s "@ + path + " $(DESTDIR)"@ + install_dir()
}

/// The commands that install the output files of the packaged targets:
/// for each target its dynamic library, its rlib and its static library.
pub open spec fn install_commands(targets: Seq<BuildTarget>) -> Seq<Seq<char>>
    decreases targets.len(),
{
    if targets.len() == 0 {
        Seq::empty()
    } else if is_release_lib(targets.last()) {
        install_commands(targets.drop_last()) + seq![
            install_command(artifact_path(targets.last(), ".so"@)),
            install_command(artifact_path(targets.last(), ".rlib"@)),
            install_command(artifact_path(targets.last(), ".a"@)),
        ]
    } else {
        install_commands(targets.drop_last())
    }
}

/// The rule `all`: it depends on every stamp.
pub open spec fn all_rule(targets: Seq<BuildTarget>) -> MakefileRuleSpec {
    MakefileRuleSpec { target: "all"@, deps: stamps(targets), rules: Seq::empty() }
}

/// The rule `install`: it makes the directory and copies every output
/// file into it.
pub open spec fn install_rule(targets: Seq<BuildTarget>) -> MakefileRuleSpec {
    MakefileRuleSpec {
        target: "install"@,
        deps: seq!["all"@],
        rules: seq!["install -d $(DESTDIR)"@ + install_dir()] + install_commands(targets),
    }
}

/// The rule `check`: it asks for `all` and does nothing more.
pub open spec fn check_rule() -> MakefileRuleSpec {
    MakefileRuleSpec { target: "check"@, deps: seq!["all"@], rules: Seq::empty() }
}

/// The rules of the makefile in the order in which they are written:
/// `all` first, so that it is what `make` builds when asked for nothing,
/// then `install` and `check`, then the rules of the targets.
pub open spec fn makefile_rules(targets: Seq<BuildTarget>) -> Seq<MakefileRuleSpec> {
    seq![all_rule(targets), install_rule(targets), check_rule()] + library_rules(targets)
}

/// The views of a list of rules.
pub open spec fn rules_view(rules: Seq<MakefileRule>) -> Seq<MakefileRuleSpec> {
    rules.map_values(|r: MakefileRule| r@)
}

/// The text of a makefile: the heading, the rules with an empty line
/// between them, and a line end.
pub open spec fn makefile_text(rules: Seq<MakefileRuleSpec>) -> Seq<char> {
    "#!/usr/bin/make -f\n\n# Automatically generated. DO NOT EDIT.\n\n"@ + join(
        rules.map_values(|r: MakefileRuleSpec| rule_text(r)),
        "\n\n"@,
    ) + "\n"@
}

/// The marker file of a target.
pub fn stamp_of(target: &BuildTarget) -> (path: String)
    ensures
        path@ == stamp_path(*target),
{
    concat3("build/lib", target.name.as_str(), ".stamp")
}

/// An output file of a target.
pub fn artifact_of(target: &BuildTarget, ending: &str) -> (path: String)
    ensures
        path@ == artifact_path(*target, ending@),
{
    let mut path = concat3("build/lib", target.name.as_str(), target.extra_filename.as_str());
    path.append(ending);
    path
}

/// The rule that builds a target and leaves its stamp.
pub fn build_rule_of(target: &BuildTarget) -> (rule: MakefileRule)
    ensures
        rule@ == build_rule(*target),
{
    let mut command = concat3("rustc ", target.src_path.as_str(), " --crate-name ");
    command.append(target.name.as_str());
    command.append(
        " --crate-type staticlib,rlib,dylib -C prefer-dynamic -C opt-level=3 --cfg ndebug -C metadata=",
    );
    command.append(target.metadata.as_str());
    command.append(" -C extra-filename=");
    command.append(target.extra_filename.as_str());
    command.append(" --out-dir build --emit=dep-info,link");
    let stamp = stamp_of(target);
    let touch = concat2("touch ", stamp.as_str());
    let mut rule = MakefileRule::new(stamp);
    rule.add_rule(String::from_str("@if test ! -d build; then mkdir build; fi"));
    rule.add_rule(command);
    rule.add_rule(touch);
    assert(rule@.rules =~= build_rule(*target).rules);
    rule
}

/// The rule that says that an output file is there once the stamp is.
pub fn artifact_rule_of(target: &BuildTarget, ending: &str) -> (rule: MakefileRule)
    ensures
        rule@ == artifact_rule(*target, ending@),
{
    MakefileRule::singleton(artifact_of(target, ending), stamp_of(target))
}

/// The command that installs one output file.
pub fn install_command_of(path: &str) -> (command: String)
    ensures
        command@ == install_command(path@),
{
    let mut command = concat3("install -m 644 -s ", path, " $(DESTDIR)");
    command.append(
        "/usr/lib/x86_64-linux-gnu/rust/1.0/lib/rustlib/x86_64-unknown-linux-gnu/lib/",
    );
    command
}

/// The rules of the makefile for the build targets of a project.
pub fn build_rules(targets: &Vec<BuildTarget>) -> (rules: Vec<MakefileRule>)
    ensures
        rules_view(rules@) == makefile_rules(targets@),
{
    let mut all = MakefileRule::new(String::from_str("all"));
    let mut install = MakefileRule::new(String::from_str("install"));
    install.add_dep(String::from_str("all"));
    install.add_rule(
        concat2(
            "install -d $(DESTDIR)",
            "/usr/lib/x86_64-linux-gnu/rust/1.0/lib/rustlib/x86_64-unknown-linux-gnu/lib/",
        ),
    );
    let mut i: usize = 0;
    while i < targets.len()
        invariant
            i <= targets.len(),
            all@ == all_rule(targets@.take(i as int)),
            install@ == install_rule(targets@.take(i as int)),
        decreases targets.len() - i,
    {
        proof {
            assert(targets@.take(i + 1).drop_last() =~= targets@.take(i as int));
            assert(targets@.take(i + 1).last() == targets@[i as int]);
        }
        let target = &targets[i];
        if target.release_lib() {
            all.add_dep(stamp_of(target));
            install.add_rule(install_command_of(artifact_of(target, ".so").as_str()));
            install.add_rule(install_command_of(artifact_of(target, ".rlib").as_str()));
            install.add_rule(install_command_of(artifact_of(target, ".a").as_str()));
            assert(install@.rules =~= install_rule(targets@.take(i + 1)).rules);
        }
        i += 1;
    }
    assert(targets@.take(targets.len() as int) =~= targets@);
    let mut check = MakefileRule::new(String::from_str("check"));
    check.add_dep(String::from_str("all"));
    let mut rules: Vec<MakefileRule> = Vec::new();
    rules.push(all);
    rules.push(install);
    rules.push(check);
    assert(rules_view(rules@) =~= seq![all_rule(targets@), install_rule(targets@), check_rule()]);
    let mut k: usize = targets.len();
    while k > 0
        invariant
            k <= targets.len(),
            rules_view(rules@) + library_rules(targets@.take(k as int)) == makefile_rules(targets@),
        decreases k,
    {
        proof {
            assert(targets@.take(k as int).drop_last() =~= targets@.take(k - 1));
            assert(targets@.take(k as int).last() == targets@[k - 1]);
        }
        k -= 1;
        let target = &targets[k];
        if target.release_lib() {
            let ghost before = rules_view(rules@);
            rules.push(artifact_rule_of(target, ".a"));
            rules.push(artifact_rule_of(target, ".rlib"));
            rules.push(artifact_rule_of(target, ".so"));
            rules.push(build_rule_of(target));
            assert(rules_view(rules@) =~= before + target_rules(*target));
            assert(before + (target_rules(*target) + library_rules(targets@.take(k as int)))
                =~= (before + target_rules(*target)) + library_rules(targets@.take(k as int)));
        }
    }
    assert(rules_view(rules@) + library_rules(targets@.take(0)) =~= rules_view(rules@));
    rules
}

/// The text of a makefile that holds `rules`.
pub fn render_makefile(rules: &Vec<MakefileRule>) -> (text: String)
    ensures
        text@ == makefile_text(rules_view(rules@)),
{
    let mut parts: Vec<String> = Vec::new();
    let mut i: usize = 0;
    while i < rules.len()
        invariant
            i <= rules.len(),
            parts@.len() == i,
            forall|k: int| 0 <= k < i ==> (#[trigger] parts@[k])@ == rule_text(rules@[k]@),
        decreases rules.len() - i,
    {
        parts.push(rules[i].serialize());
        i += 1;
    }
    assert(texts(parts@) =~= rules_view(rules@).map_values(|r: MakefileRuleSpec| rule_text(r)));
    concat3(
        "#!/usr/bin/make -f\n\n# Automatically generated. DO NOT EDIT.\n\n",
        join_strings(&parts, "\n\n").as_str(),
        "\n",
    )
}

/// The target of one of the four rules of a packaged target: `kind` 0 is
/// the static library, 1 the rlib, 2 the dynamic library, 3 the stamp.
pub open spec fn target_name(target: BuildTarget, kind: int) -> Seq<char> {
    if kind == 0 {
        artifact_path(target, ".a"@)
    } else if kind == 1 {
        artifact_path(target, ".rlib"@)
    } else if kind == 2 {
        artifact_path(target, ".so"@)
    } else {
        stamp_path(target)
    }
}

/// The targets of a list of rules.
pub open spec fn rule_targets(rules: Seq<MakefileRuleSpec>) -> Seq<Seq<char>> {
    rules.map_values(|r: MakefileRuleSpec| r.target)
}

/// No two of `names` are the same.
pub open spec fn all_distinct(names: Seq<Seq<char>>) -> bool {
    forall|i: int, j: int| 0 <= i < j < names.len() ==> names[i] != names[j]
}

/// No two packaged targets of `targets` have the same name, nor the same
/// name once what follows it in the names of their output files is put
/// behind it.
pub open spec fn targets_apart(targets: Seq<BuildTarget>) -> bool {
    forall|i: int, j: int|
        0 <= i < j < targets.len() && is_release_lib(#[trigger] targets[i]) && is_release_lib(
            #[trigger] targets[j],
        ) ==> targets[i].name@ != targets[j].name@ && targets[i].name@ + targets[i].extra_filename@
            != targets[j].name@ + targets[j].extra_filename@
}

/// The last character of a rule's target tells which of the four rules of
/// a packaged target it is.
proof fn lemma_target_name_end(target: BuildTarget, kind: int)
    requires
        0 <= kind < 4,
    ensures
        target_name(target, kind).len() > 9,
        target_name(target, kind).last() == (if kind == 0 {
            'a'
        } else if kind == 1 {
            'b'
        } else if kind == 2 {
            'o'
        } else {
            'p'
        }),
{
    reveal_strlit(".a");
    reveal_strlit(".rlib");
    reveal_strlit(".so");
    reveal_strlit(".stamp");
    reveal_strlit("build/lib");
    assert(".a"@.len() == 2 && ".rlib"@.len() == 5 && ".so"@.len() == 3 && ".stamp"@.len() == 6);
    assert("build/lib"@.len() == 9);
}

/// Two packaged targets that differ in name and in the names of their
/// output files have different rule targets of each kind.
proof fn lemma_target_names_apart(first: BuildTarget, second: BuildTarget, kind: int)
    requires
        0 <= kind < 4,
        first.name@ != second.name@,
        first.name@ + first.extra_filename@ != second.name@ + second.extra_filename@,
    ensures
        target_name(first, kind) != target_name(second, kind),
{
    let head = "build/lib"@;
    if target_name(first, kind) == target_name(second, kind) {
        if kind == 3 {
            let tail = ".stamp"@;
            let a = head + first.name@ + tail;
            let b = head + second.name@ + tail;
            assert(a.len() == head.len() + first.name@.len() + tail.len());
            assert(b.len() == head.len() + second.name@.len() + tail.len());
            assert(first.name@ =~= a.subrange(head.len() as int, a.len() - tail.len()));
            assert(second.name@ =~= b.subrange(head.len() as int, b.len() - tail.len()));
        } else {
            let tail = if kind == 0 {
                ".a"@
            } else if kind == 1 {
                ".rlib"@
            } else {
                ".so"@
            };
            let stem_a = first.name@ + first.extra_filename@;
            let stem_b = second.name@ + second.extra_filename@;
            let a = head + first.name@ + first.extra_filename@ + tail;
            let b = head + second.name@ + second.extra_filename@ + tail;
            assert(a.len() == head.len() + stem_a.len() + tail.len());
            assert(b.len() == head.len() + stem_b.len() + tail.len());
            assert(stem_a =~= a.subrange(head.len() as int, a.len() - tail.len()));
            assert(stem_b =~= b.subrange(head.len() as int, b.len() - tail.len()));
        }
    }
}

/// Every rule among the rules of the targets is one of the four rules of a
/// packaged target.
proof fn lemma_library_rules_members(targets: Seq<BuildTarget>, k: int)
    requires
        0 <= k < library_rules(targets).len(),
    ensures
        exists|i: int, kind: int|
            0 <= i < targets.len() && is_release_lib(#[trigger] targets[i]) && 0 <= kind < 4
                && library_rules(targets)[k].target == #[trigger] target_name(targets[i], kind),
    decreases targets.len(),
{
    let last = targets.last();
    let front = targets.drop_last();
    if is_release_lib(last) && k < 4 {
        assert(library_rules(targets)[k] == target_rules(last)[k]);
        assert(library_rules(targets)[k].target == target_name(targets[targets.len() - 1], k));
    } else {
        let shift: int = if is_release_lib(last) {
            4
        } else {
            0
        };
        assert(library_rules(targets)[k] == library_rules(front)[k - shift]);
        lemma_library_rules_members(front, k - shift);
        let (i, kind) = choose|i: int, kind: int|
            0 <= i < front.len() && is_release_lib(#[trigger] front[i]) && 0 <= kind < 4
                && library_rules(front)[k - shift].target == #[trigger] target_name(front[i], kind);
        assert(front[i] == targets[i]);
        assert(library_rules(targets)[k].target == target_name(targets[i], kind));
    }
}

/// The rules of targets that are apart have targets that are apart.
proof fn lemma_library_rules_distinct(targets: Seq<BuildTarget>)
    requires
        targets_apart(targets),
    ensures
        all_distinct(rule_targets(library_rules(targets))),
    decreases targets.len(),
{
    if targets.len() > 0 {
        let last = targets.last();
        let front = targets.drop_last();
        assert(targets_apart(front)) by {
            assert forall|i: int, j: int|
                0 <= i < j < front.len() && is_release_lib(#[trigger] front[i]) && is_release_lib(
                    #[trigger] front[j],
                ) implies front[i].name@ != front[j].name@ && front[i].name@
                + front[i].extra_filename@ != front[j].name@ + front[j].extra_filename@ by {
                assert(front[i] == targets[i] && front[j] == targets[j]);
            }
        }
        lemma_library_rules_distinct(front);
        let names = rule_targets(library_rules(targets));
        let before = rule_targets(library_rules(front));
        if is_release_lib(last) {
            assert forall|p: int, q: int| 0 <= p < q < names.len() implies names[p] != names[q] by {
                if p < 4 {
                    assert(names[p] == target_name(last, p));
                    lemma_target_name_end(last, p);
                    if q < 4 {
                        assert(names[q] == target_name(last, q));
                        lemma_target_name_end(last, q);
                    } else {
                        assert(names[q] == library_rules(front)[q - 4].target);
                        lemma_library_rules_members(front, q - 4);
                        let (i, kind) = choose|i: int, kind: int|
                            0 <= i < front.len() && is_release_lib(#[trigger] front[i]) && 0 <= kind
                                < 4 && library_rules(front)[q - 4].target == #[trigger] target_name(
                                front[i],
                                kind,
                            );
                        lemma_target_name_end(front[i], kind);
                        assert(front[i] == targets[i]);
                        assert(last == targets[targets.len() - 1]);
                        if kind == p {
                            lemma_target_names_apart(last, front[i], kind);
                        }
                    }
                } else {
                    assert(names[p] == before[p - 4] && names[q] == before[q - 4]);
                }
            }
        } else {
            assert(names =~= before);
        }
    }
}

/// The makefile defines no target twice, for a project whose packaged
/// targets differ in name and in the names of their output files.
pub proof fn lemma_makefile_targets_distinct(targets: Seq<BuildTarget>)
    requires
        targets_apart(targets),
    ensures
        all_distinct(rule_targets(makefile_rules(targets))),
{
    reveal_strlit("all");
    reveal_strlit("install");
    reveal_strlit("check");
    assert("all"@.len() == 3 && "install"@.len() == 7 && "check"@.len() == 5);
    assert("all"@.last() == 'l' && "install"@.last() == 'l' && "check"@.last() == 'k');
    lemma_library_rules_distinct(targets);
    let names = rule_targets(makefile_rules(targets));
    let libs = rule_targets(library_rules(targets));
    assert forall|p: int, q: int| 0 <= p < q < names.len() implies names[p] != names[q] by {
        if q >= 3 {
            assert(names[q] == libs[q - 3]);
            if p >= 3 {
                assert(names[p] == libs[p - 3]);
            } else {
                lemma_library_rules_members(targets, q - 3);
                let (i, kind) = choose|i: int, kind: int|
                    0 <= i < targets.len() && is_release_lib(#[trigger] targets[i]) && 0 <= kind < 4
                        && library_rules(targets)[q - 3].target == #[trigger] target_name(
                        targets[i],
                        kind,
                    );
                lemma_target_name_end(targets[i], kind);
            }
        }
    }
}

} // verus!
