//! The restricted shell syntax tree and its classification: which commands are
//! intrinsically safe, and which are covered by the user's allowlist.
use crate::config::BashConfig;
use crate::text::{lemma_split_nonempty, split_spaces, split_spaces_spec, str_eq, views};
use vstd::prelude::*;

verus! {

/// One simple command: a program and its arguments, as written.
#[derive(Clone, Debug, PartialEq, Eq)]
pub struct Command {
    pub program: String,
    pub args: Vec<String>,
}

/// The operator that joins a pipeline to what precedes it.
#[derive(Copy, Clone, Debug, PartialEq, Eq, Structural)]
pub enum AndOr {
    And,
    Or,
}

/// A first pipeline followed by pipelines joined with `&&` or `||`. Each pipeline
/// is the sequence of commands joined by `|`.
#[derive(Clone, Debug, PartialEq, Eq)]
pub struct Expression {
    pub first: Vec<Command>,
    pub rest: Vec<(AndOr, Vec<Command>)>,
}

/// The read-only programs that may always run.
pub open spec fn safe_programs() -> Set<Seq<char>> {
    set![
        "cat"@,
        "cd"@,
        "echo"@,
        "false"@,
        "grep"@,
        "head"@,
        "ls"@,
        "nl"@,
        "pwd"@,
        "tail"@,
        "true"@,
        "wc"@,
        "which"@,
    ]
}

pub open spec fn command_is_safe(c: Command) -> bool {
    safe_programs().contains(c.program@)
}

/// The tokens of an allowlist rule: its text split at single spaces.
pub open spec fn rule_tokens(rule: Seq<char>) -> Seq<Seq<char>> {
    split_spaces_spec(rule)
}

pub open spec fn rule_program(rule: Seq<char>) -> Seq<char> {
    rule_tokens(rule)[0]
}

/// Every token of the rule after the program, a trailing `*` included.
pub open spec fn rule_arguments(rule: Seq<char>) -> Seq<Seq<char>> {
    rule_tokens(rule).drop_first()
}

/// A rule ends in a wildcard when its last argument token is `*`.
pub open spec fn rule_has_wildcard(rule: Seq<char>) -> bool {
    rule_arguments(rule).len() >= 1 && rule_arguments(rule).last() == seq!['*']
}

/// The argument tokens that must be matched position by position.
pub open spec fn rule_fixed_args(rule: Seq<char>) -> Seq<Seq<char>> {
    if rule_has_wildcard(rule) {
        rule_arguments(rule).drop_last()
    } else {
        rule_arguments(rule)
    }
}

/// Whether the invocation `program args` matches the allowlist rule.
pub open spec fn rule_matches(rule: Seq<char>, program: Seq<char>, args: Seq<Seq<char>>) -> bool {
    let fixed = rule_fixed_args(rule);
    &&& rule_program(rule) == program
    &&& if rule_has_wildcard(rule) {
        fixed.len() <= args.len() && args.subrange(0, fixed.len() as int) == fixed
    } else {
        args == fixed
    }
}

pub open spec fn command_allowed(c: Command, allow: Seq<String>) -> bool {
    exists|i: int| 0 <= i < allow.len() && rule_matches(allow[i]@, c.program@, views(c.args@))
}

pub open spec fn pipeline_allowed(p: Seq<Command>, allow: Seq<String>) -> bool {
    forall|k: int| 0 <= k < p.len() ==> command_allowed(#[trigger] p[k], allow)
}

pub open spec fn pipeline_safe(p: Seq<Command>) -> bool {
    forall|k: int| 0 <= k < p.len() ==> command_is_safe(#[trigger] p[k])
}

/// Every command of every pipeline is allowed.
pub open spec fn expression_allowed(e: Expression, allow: Seq<String>) -> bool {
    &&& pipeline_allowed(e.first@, allow)
    &&& forall|j: int| 0 <= j < e.rest@.len() ==> pipeline_allowed(#[trigger] e.rest@[j].1@, allow)
}

/// Every command of every pipeline is intrinsically safe.
pub open spec fn expression_safe(e: Expression) -> bool {
    &&& pipeline_safe(e.first@)
    &&& forall|j: int| 0 <= j < e.rest@.len() ==> pipeline_safe(#[trigger] e.rest@[j].1@)
}

/// Whether a single rule matches a command.
fn rule_matches_command(rule: &String, cmd: &Command) -> (r: bool)
    ensures
        r == rule_matches(rule@, cmd.program@, views(cmd.args@)),
{
    let tokens = split_spaces(rule.as_str());
    proof {
        lemma_split_nonempty(rule@);
        reveal_strlit("*");
    }
    let ghost tv = views(tokens@);
    let ghost args = views(cmd.args@);
    if !str_eq(tokens[0].as_str(), cmd.program.as_str()) {
        return false;
    }
    let n = tokens.len();
    let wildcard = n >= 2 && str_eq(tokens[n - 1].as_str(), "*");
    assert(wildcard == rule_has_wildcard(rule@)) by {
        assert("*"@ == seq!['*']);
        assert(rule_arguments(rule@).len() == n - 1);
        if n >= 2 {
            assert(rule_arguments(rule@).last() == tv[n - 1]);
            assert(tv[n - 1] == tokens@[n - 1]@);
        }
    }
    let fixed_end: usize = if wildcard { n - 1 } else { n };
    let nfixed: usize = fixed_end - 1;
    let ghost fixed = rule_fixed_args(rule@);
    assert(fixed == tv.subrange(1, fixed_end as int));
    if wildcard {
        if nfixed > cmd.args.len() {
            return false;
        }
    } else {
        if nfixed != cmd.args.len() {
            return false;
        }
    }
    let mut i: usize = 0;
    while i < nfixed
        invariant
            nfixed == fixed.len(),
            nfixed <= cmd.args@.len(),
            fixed_end == nfixed + 1,
            fixed_end <= tokens@.len(),
            tv == views(tokens@),
            args == views(cmd.args@),
            fixed == tv.subrange(1, fixed_end as int),
            fixed == rule_fixed_args(rule@),
            wildcard == rule_has_wildcard(rule@),
            rule_program(rule@) == cmd.program@,
            i <= nfixed,
            forall|k: int| 0 <= k < i ==> args[k] == fixed[k],
        decreases nfixed - i,
    {
        if !str_eq(tokens[i + 1].as_str(), cmd.args[i].as_str()) {
            assert(fixed[i as int] == tv[i + 1]);
            assert(tv[i + 1] == tokens@[i + 1]@);
            assert(args[i as int] == cmd.args@[i as int]@);
            assert(args[i as int] != fixed[i as int]);
            assert(args.subrange(0, nfixed as int)[i as int] != fixed[i as int]);
            return false;
        }
        i = i + 1;
    }
    assert(args.subrange(0, nfixed as int) == fixed);
    if !wildcard {
        assert(args == args.subrange(0, nfixed as int));
    }
    true
}

impl Command {
    /// True exactly for the fixed set of read-only programs, whatever the arguments.
    pub fn is_safe(&self) -> (r: bool)
        ensures
            r == command_is_safe(*self),
    {
        let p = self.program.as_str();
        str_eq(p, "cat") || str_eq(p, "cd") || str_eq(p, "echo") || str_eq(p, "false")
            || str_eq(p, "grep") || str_eq(p, "head") || str_eq(p, "ls") || str_eq(p, "nl")
            || str_eq(p, "pwd") || str_eq(p, "tail") || str_eq(p, "true") || str_eq(p, "wc")
            || str_eq(p, "which")
    }

    /// True when at least one allowlist rule matches this command.
    pub fn is_allowed(&self, cfg: &BashConfig) -> (r: bool)
        ensures
            r == command_allowed(*self, cfg.allow@),
    {
        let mut i: usize = 0;
        while i < cfg.allow.len()
            invariant
                i <= cfg.allow@.len(),
                forall|k: int|
                    0 <= k < i ==> !rule_matches(
                        #[trigger] cfg.allow@[k]@,
                        self.program@,
                        views(self.args@),
                    ),
            decreases cfg.allow@.len() - i,
        {
            if rule_matches_command(&cfg.allow[i], self) {
                return true;
            }
            i = i + 1;
        }
        false
    }
}

fn pipeline_is_allowed(p: &Vec<Command>, cfg: &BashConfig) -> (r: bool)
    ensures
        r == pipeline_allowed(p@, cfg.allow@),
{
    let mut k: usize = 0;
    while k < p.len()
        invariant
            k <= p@.len(),
            forall|m: int| 0 <= m < k ==> command_allowed(#[trigger] p@[m], cfg.allow@),
        decreases p@.len() - k,
    {
        if !p[k].is_allowed(cfg) {
            return false;
        }
        k = k + 1;
    }
    true
}

fn pipeline_is_safe(p: &Vec<Command>) -> (r: bool)
    ensures
        r == pipeline_safe(p@),
{
    let mut k: usize = 0;
    while k < p.len()
        invariant
            k <= p@.len(),
            forall|m: int| 0 <= m < k ==> command_is_safe(#[trigger] p@[m]),
        decreases p@.len() - k,
    {
        if !p[k].is_safe() {
            return false;
        }
        k = k + 1;
    }
    true
}

impl Expression {
    /// True when every command of the expression, in the first pipeline and in every
    /// chained one, matches some allowlist rule. An expression without commands is
    /// allowed.
    pub fn is_allowed(&self, cfg: &BashConfig) -> (r: bool)
        ensures
            r == expression_allowed(*self, cfg.allow@),
    {
        if !pipeline_is_allowed(&self.first, cfg) {
            return false;
        }
        let mut j: usize = 0;
        while j < self.rest.len()
            invariant
                j <= self.rest@.len(),
                forall|m: int| 0 <= m < j ==> pipeline_allowed(#[trigger] self.rest@[m].1@, cfg.allow@),
            decreases self.rest@.len() - j,
        {
            if !pipeline_is_allowed(&self.rest[j].1, cfg) {
                return false;
            }
            j = j + 1;
        }
        true
    }

    /// True when every command of the expression is intrinsically safe.
    pub fn is_safe(&self) -> (r: bool)
        ensures
            r == expression_safe(*self),
    {
        if !pipeline_is_safe(&self.first) {
            return false;
        }
        let mut j: usize = 0;
        while j < self.rest.len()
            invariant
                j <= self.rest@.len(),
                forall|m: int| 0 <= m < j ==> pipeline_safe(#[trigger] self.rest@[m].1@),
            decreases self.rest@.len() - j,
        {
            if !pipeline_is_safe(&self.rest[j].1) {
                return false;
            }
            j = j + 1;
        }
        true
    }
}

/// A rule without a trailing wildcard matches a command exactly when the program is
/// the same and the arguments are the rule's, equally many and equal in order.
pub proof fn lemma_exact_rule(rule: Seq<char>, program: Seq<char>, args: Seq<Seq<char>>)
    requires
        !rule_has_wildcard(rule),
    ensures
        rule_matches(rule, program, args) <==> {
            &&& program == rule_program(rule)
            &&& args.len() == rule_arguments(rule).len()
            &&& forall|i: int| 0 <= i < args.len() ==> args[i] == rule_arguments(rule)[i]
        },
{
    if args.len() == rule_arguments(rule).len() && forall|i: int|
        0 <= i < args.len() ==> args[i] == rule_arguments(rule)[i] {
        assert(args == rule_arguments(rule));
    }
}

/// A rule with a trailing wildcard matches a command exactly when the program is the
/// same and the command's arguments begin with the rule's fixed ones; arguments
/// beyond those never cause a rejection.
pub proof fn lemma_wildcard_rule(
    rule: Seq<char>,
    program: Seq<char>,
    args: Seq<Seq<char>>,
    extra: Seq<Seq<char>>,
)
    requires
        rule_has_wildcard(rule),
    ensures
        rule_matches(rule, program, args) <==> {
            &&& program == rule_program(rule)
            &&& rule_fixed_args(rule).len() <= args.len()
            &&& forall|i: int|
                0 <= i < rule_fixed_args(rule).len() ==> args[i] == rule_fixed_args(rule)[i]
        },
        rule_matches(rule, program, args) ==> rule_matches(rule, program, args + extra),
{
    let fixed = rule_fixed_args(rule);
    if fixed.len() <= args.len() && forall|i: int| 0 <= i < fixed.len() ==> args[i] == fixed[i] {
        assert(args.subrange(0, fixed.len() as int) == fixed);
    }
    if rule_matches(rule, program, args) {
        assert((args + extra).subrange(0, fixed.len() as int) == args.subrange(
            0,
            fixed.len() as int,
        ));
    }
}

/// Whether a command is intrinsically safe depends on its program alone, and no
/// program outside the fixed set is safe.
pub proof fn lemma_safety_ignores_arguments(c1: Command, c2: Command)
    ensures
        c1.program@ == c2.program@ ==> command_is_safe(c1) == command_is_safe(c2),
        !safe_programs().contains(c1.program@) ==> !command_is_safe(c1),
{
}

} // verus!
