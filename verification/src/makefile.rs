//! Makefile rules and the text of a makefile.

use vstd::prelude::*;
use vstd::string::*;
use crate::text::{join, join_strings, texts};

verus! {

/// One rule of a makefile: a target, the targets it depends on, and the
/// shell commands that make it.
#[derive(Debug)]
pub struct MakefileRule {
    target: String,
    deps: Vec<String>,
    rules: Vec<String>,
}

/// What a `MakefileRule` holds.
pub struct MakefileRuleSpec {
    pub target: Seq<char>,
    pub deps: Seq<Seq<char>>,
    pub rules: Seq<Seq<char>>,
}

impl View for MakefileRule {
    type V = MakefileRuleSpec;

    closed spec fn view(&self) -> MakefileRuleSpec {
        MakefileRuleSpec {
            target: self.target@,
            deps: texts(self.deps@),
            rules: texts(self.rules@),
        }
    }
}

/// The text of a rule: the target, a colon, the dependencies with blanks
/// between them, then each command on a line of its own behind a tab.
pub open spec fn rule_text(rule: MakefileRuleSpec) -> Seq<char> {
    rule.target + ": "@ + join(rule.deps, " "@) + "\n\t"@ + join(rule.rules, "\n\t"@)
}

impl MakefileRule {
    /// A rule for `target` with no dependency and no command.
    pub fn new(target: String) -> (rule: MakefileRule)
        ensures
            rule@ == (MakefileRuleSpec { target: target@, deps: Seq::empty(), rules: Seq::empty() }),
    {
        let rule = MakefileRule { target: target, deps: Vec::new(), rules: Vec::new() };
        assert(texts(rule.deps@) =~= Seq::empty());
        assert(texts(rule.rules@) =~= Seq::empty());
        rule
    }

    /// A rule for `target` that depends on `dep` alone and has no command.
    pub fn singleton(target: String, dep: String) -> (rule: MakefileRule)
        ensures
            rule@ == (MakefileRuleSpec { target: target@, deps: seq![dep@], rules: Seq::empty() }),
    {
        let mut deps: Vec<String> = Vec::new();
        deps.push(dep);
        let rule = MakefileRule { target: target, deps: deps, rules: Vec::new() };
        assert(texts(rule.deps@) =~= seq![dep@]);
        assert(texts(rule.rules@) =~= Seq::empty());
        rule
    }

    /// Appends the command `r`.
    pub fn add_rule(&mut self, r: String) -> (this: &mut MakefileRule)
        ensures
            this@ == (MakefileRuleSpec { rules: old(self)@.rules.push(r@), ..old(self)@ }),
            *final(self) == *final(this),
    {
        self.rules.push(r);
        assert(texts(self.rules@) =~= texts(old(self).rules@).push(r@));
        self
    }

    /// Appends the dependency `d`.
    pub fn add_dep(&mut self, d: String) -> (this: &mut MakefileRule)
        ensures
            this@ == (MakefileRuleSpec { deps: old(self)@.deps.push(d@), ..old(self)@ }),
            *final(self) == *final(this),
    {
        self.deps.push(d);
        assert(texts(self.deps@) =~= texts(old(self).deps@).push(d@));
        self
    }

    /// The text of the rule.
    pub fn serialize(&self) -> (text: String)
        ensures
            text@ == rule_text(self@),
    {
        let mut text = self.target.clone();
        text.append(": ");
        text.append(join_strings(&self.deps, " ").as_str());
        text.append("\n\t");
        text.append(join_strings(&self.rules, "\n\t").as_str());
        text
    }
}

} // verus!
