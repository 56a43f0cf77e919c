//! The command tree that the parser hands to the evaluator, its
//! mathematical model, and a verified deep copy.

use vstd::prelude::*;

verus! {

/// How one redirection opens its target file.
#[derive(PartialEq, Eq, Structural, Clone, Copy, Debug)]
pub enum RedirectMode {
    Read,
    Write,
    ReadAppend,
    WriteAppend,
    ReadDup,
    WriteDup,
    ReadWrite,
}

/// One redirection on a simple command: an optional descriptor number,
/// a target path and a mode.
pub struct Redirect {
    pub n: Option<i32>,
    pub file: String,
    pub mode: RedirectMode,
}

/// A `NAME=value` binding that decorates one command invocation; it is
/// passed to the spawned process only and never mutates the runtime.
pub struct Assign {
    pub var: String,
    pub val: String,
}

/// One `cond`/`body` pair of an `if`/`elif` chain.
pub struct Condition {
    pub cond: Box<Command>,
    pub body: Box<Command>,
}

/// One arm of a `case`: the patterns it matches and the body it runs.
pub struct CaseArm {
    pub pattern: Vec<String>,
    pub body: Box<Command>,
}

/// A parsed command tree node.
pub enum Command {
    Simple { assigns: Vec<Assign>, redirects: Vec<Redirect>, args: Vec<String> },
    Pipeline(Box<Command>, Box<Command>),
    And(Box<Command>, Box<Command>),
    Or(Box<Command>, Box<Command>),
    Not(Box<Command>),
    AsyncList(Box<Command>, Option<Box<Command>>),
    SeqList(Box<Command>, Option<Box<Command>>),
    Subshell(Box<Command>),
    If { conds: Vec<Condition>, else_part: Option<Box<Command>> },
    While { cond: Box<Command>, body: Box<Command> },
    Until { cond: Box<Command>, body: Box<Command> },
    For { name: String, wordlist: Vec<String>, body: Box<Command> },
    Case { word: String, arms: Vec<CaseArm> },
    Fn { fname: String, body: Box<Command> },
    Empty,
}

/// Model of a redirection: the path as a sequence of characters.
pub struct RedirectModel {
    pub n: Option<i32>,
    pub file: Seq<char>,
    pub mode: RedirectMode,
}

/// Model of an assignment.
pub struct AssignModel {
    pub var: Seq<char>,
    pub val: Seq<char>,
}

/// Mathematical model of a command tree: every string is a `Seq<char>`
/// and every list a `Seq`, so contracts can speak of commands directly.
pub enum CmdModel {
    Simple { assigns: Seq<AssignModel>, redirects: Seq<RedirectModel>, args: Seq<Seq<char>> },
    Pipeline(Box<CmdModel>, Box<CmdModel>),
    And(Box<CmdModel>, Box<CmdModel>),
    Or(Box<CmdModel>, Box<CmdModel>),
    Not(Box<CmdModel>),
    AsyncList(Box<CmdModel>, Option<Box<CmdModel>>),
    SeqList(Box<CmdModel>, Option<Box<CmdModel>>),
    Subshell(Box<CmdModel>),
    If { conds: Seq<(CmdModel, CmdModel)>, else_part: Option<Box<CmdModel>> },
    While { cond: Box<CmdModel>, body: Box<CmdModel> },
    Until { cond: Box<CmdModel>, body: Box<CmdModel> },
    For { name: Seq<char>, wordlist: Seq<Seq<char>>, body: Box<CmdModel> },
    Case { word: Seq<char>, arms: Seq<(Seq<Seq<char>>, CmdModel)> },
    Fn { fname: Seq<char>, body: Box<CmdModel> },
    Empty,
}

impl View for Redirect {
    type V = RedirectModel;

    open spec fn view(&self) -> RedirectModel {
        RedirectModel { n: self.n, file: self.file@, mode: self.mode }
    }
}

impl View for Assign {
    type V = AssignModel;

    open spec fn view(&self) -> AssignModel {
        AssignModel { var: self.var@, val: self.val@ }
    }
}

/// The views of a list of strings.
pub open spec fn strings_view(v: Seq<String>) -> Seq<Seq<char>> {
    v.map_values(|s: String| s@)
}

/// The models of a list of assignments.
pub open spec fn assigns_view(v: Seq<Assign>) -> Seq<AssignModel> {
    v.map_values(|a: Assign| a@)
}

/// The models of a list of redirections.
pub open spec fn redirects_view(v: Seq<Redirect>) -> Seq<RedirectModel> {
    v.map_values(|r: Redirect| r@)
}

pub open spec fn cmd_view(c: Command) -> CmdModel
    decreases c,
{
    match c {
        Command::Simple { assigns, redirects, args } => CmdModel::Simple {
            assigns: assigns_view(assigns@),
            redirects: redirects_view(redirects@),
            args: strings_view(args@),
        },
        Command::Pipeline(a, b) => CmdModel::Pipeline(
            Box::new(cmd_view(*a)),
            Box::new(cmd_view(*b)),
        ),
        Command::And(a, b) => CmdModel::And(Box::new(cmd_view(*a)), Box::new(cmd_view(*b))),
        Command::Or(a, b) => CmdModel::Or(Box::new(cmd_view(*a)), Box::new(cmd_view(*b))),
        Command::Not(a) => CmdModel::Not(Box::new(cmd_view(*a))),
        Command::AsyncList(a, b) => CmdModel::AsyncList(Box::new(cmd_view(*a)), opt_view(b)),
        Command::SeqList(a, b) => CmdModel::SeqList(Box::new(cmd_view(*a)), opt_view(b)),
        Command::Subshell(a) => CmdModel::Subshell(Box::new(cmd_view(*a))),
        Command::If { conds, else_part } => CmdModel::If {
            conds: conds_view(conds@),
            else_part: opt_view(else_part),
        },
        Command::While { cond, body } => CmdModel::While {
            cond: Box::new(cmd_view(*cond)),
            body: Box::new(cmd_view(*body)),
        },
        Command::Until { cond, body } => CmdModel::Until {
            cond: Box::new(cmd_view(*cond)),
            body: Box::new(cmd_view(*body)),
        },
        Command::For { name, wordlist, body } => CmdModel::For {
            name: name@,
            wordlist: strings_view(wordlist@),
            body: Box::new(cmd_view(*body)),
        },
        Command::Case { word, arms } => CmdModel::Case { word: word@, arms: arms_view(arms@) },
        Command::Fn { fname, body } => CmdModel::Fn {
            fname: fname@,
            body: Box::new(cmd_view(*body)),
        },
        Command::Empty => CmdModel::Empty,
    }
}

pub open spec fn opt_view(o: Option<Box<Command>>) -> Option<Box<CmdModel>>
    decreases o,
{
    match o {
        Option::Some(c) => Option::Some(Box::new(cmd_view(*c))),
        Option::None => Option::None,
    }
}

pub open spec fn conds_view(s: Seq<Condition>) -> Seq<(CmdModel, CmdModel)>
    decreases s,
{
    if s.len() == 0 {
        Seq::empty()
    } else {
        seq![(cmd_view(*s[0].cond), cmd_view(*s[0].body))] + conds_view(s.skip(1))
    }
}

pub open spec fn arms_view(s: Seq<CaseArm>) -> Seq<(Seq<Seq<char>>, CmdModel)>
    decreases s,
{
    if s.len() == 0 {
        Seq::empty()
    } else {
        seq![(strings_view(s[0].pattern@), cmd_view(*s[0].body))] + arms_view(s.skip(1))
    }
}

impl View for Command {
    type V = CmdModel;

    open spec fn view(&self) -> CmdModel {
        cmd_view(*self)
    }
}

/// `conds_view` maps the list elementwise.
pub proof fn lemma_conds_view_index(s: Seq<Condition>)
    ensures
        conds_view(s).len() == s.len(),
        forall|i: int|
            0 <= i < s.len() ==> conds_view(s)[i] == (
                cmd_view(*s[i].cond),
                cmd_view(*s[i].body),
            ),
    decreases s.len(),
{
    if s.len() > 0 {
        lemma_conds_view_index(s.skip(1));
        assert forall|i: int| 0 <= i < s.len() implies conds_view(s)[i] == (
            cmd_view(*s[i].cond),
            cmd_view(*s[i].body),
        ) by {
            if i > 0 {
                assert(s.skip(1)[i - 1] == s[i]);
            }
        }
    }
}

/// `arms_view` maps the list elementwise.
pub proof fn lemma_arms_view_index(s: Seq<CaseArm>)
    ensures
        arms_view(s).len() == s.len(),
        forall|i: int|
            0 <= i < s.len() ==> arms_view(s)[i] == (
                strings_view(s[i].pattern@),
                cmd_view(*s[i].body),
            ),
    decreases s.len(),
{
    if s.len() > 0 {
        lemma_arms_view_index(s.skip(1));
        assert forall|i: int| 0 <= i < s.len() implies arms_view(s)[i] == (
            strings_view(s[i].pattern@),
            cmd_view(*s[i].body),
        ) by {
            if i > 0 {
                assert(s.skip(1)[i - 1] == s[i]);
            }
        }
    }
}

/// Copy a list of words.
pub fn clone_strings(v: &Vec<String>) -> (r: Vec<String>)
    ensures
        strings_view(r@) == strings_view(v@),
{
    let mut r: Vec<String> = Vec::new();
    let mut i: usize = 0;
    while i < v.len()
        invariant
            i <= v.len(),
            r@.len() == i as int,
            forall|k: int| 0 <= k < i ==> r@[k]@ == v@[k]@,
        decreases v.len() - i,
    {
        r.push(v[i].clone());
        i += 1;
    }
    proof {
        assert(strings_view(r@) =~= strings_view(v@));
    }
    r
}

/// Copy the assignments of a simple command.
pub fn clone_assigns(v: &Vec<Assign>) -> (r: Vec<Assign>)
    ensures
        assigns_view(r@) == assigns_view(v@),
{
    let mut r: Vec<Assign> = Vec::new();
    let mut i: usize = 0;
    while i < v.len()
        invariant
            i <= v.len(),
            r@.len() == i as int,
            forall|k: int| 0 <= k < i ==> #[trigger] r@[k]@ == v@[k]@,
        decreases v.len() - i,
    {
        r.push(Assign { var: v[i].var.clone(), val: v[i].val.clone() });
        i += 1;
    }
    proof {
        assert(assigns_view(r@) =~= assigns_view(v@));
    }
    r
}

/// Copy the redirections of a simple command.
pub fn clone_redirects(v: &Vec<Redirect>) -> (r: Vec<Redirect>)
    ensures
        redirects_view(r@) == redirects_view(v@),
{
    let mut r: Vec<Redirect> = Vec::new();
    let mut i: usize = 0;
    while i < v.len()
        invariant
            i <= v.len(),
            r@.len() == i as int,
            forall|k: int| 0 <= k < i ==> #[trigger] r@[k]@ == v@[k]@,
        decreases v.len() - i,
    {
        r.push(Redirect { n: v[i].n, file: v[i].file.clone(), mode: v[i].mode });
        i += 1;
    }
    proof {
        assert(redirects_view(r@) =~= redirects_view(v@));
    }
    r
}

/// Copy an optional trailing command.
pub fn clone_opt(o: &Option<Box<Command>>) -> (r: Option<Box<Command>>)
    ensures
        opt_view(r) == opt_view(*o),
    decreases *o,
{
    match o {
        Option::Some(c) => Option::Some(Box::new(clone_command(c))),
        Option::None => Option::None,
    }
}

/// Deep copy of a command tree: the copy has the same model. The
/// evaluator uses this to install function bodies and to evaluate a
/// stored function body without giving up the runtime that owns it.
pub fn clone_command(c: &Command) -> (r: Command)
    ensures
        r@ == c@,
    decreases *c,
{
    match c {
        Command::Simple { assigns, redirects, args } => Command::Simple {
            assigns: clone_assigns(assigns),
            redirects: clone_redirects(redirects),
            args: clone_strings(args),
        },
        Command::Pipeline(a, b) => Command::Pipeline(
            Box::new(clone_command(a)),
            Box::new(clone_command(b)),
        ),
        Command::And(a, b) => Command::And(Box::new(clone_command(a)), Box::new(clone_command(b))),
        Command::Or(a, b) => Command::Or(Box::new(clone_command(a)), Box::new(clone_command(b))),
        Command::Not(a) => Command::Not(Box::new(clone_command(a))),
        Command::AsyncList(a, b) => Command::AsyncList(
            Box::new(clone_command(a)),
            clone_opt(b),
        ),
        Command::SeqList(a, b) => Command::SeqList(
            Box::new(clone_command(a)),
            clone_opt(b),
        ),
        Command::Subshell(a) => Command::Subshell(Box::new(clone_command(a))),
        Command::If { conds, else_part } => {
            let mut rconds: Vec<Condition> = Vec::new();
            let mut i: usize = 0;
            while i < conds.len()
                invariant
                    i <= conds.len(),
                    *c matches Command::If { conds: cc, else_part: _ } && cc == *conds,
                    rconds@.len() == i as int,
                    forall|k: int|
                        0 <= k < i ==> cmd_view(*#[trigger] rconds@[k].cond) == cmd_view(
                            *conds@[k].cond,
                        ) && cmd_view(*rconds@[k].body) == cmd_view(*conds@[k].body),
                decreases conds.len() - i,
            {
                proof {
                    broadcast use vstd::std_specs::vec::axiom_vec_index_decreases;

                    assert(decreases_to!(*c => *conds));
                    assert(decreases_to!(*conds => conds@[i as int]));
                    assert(decreases_to!(*c => *conds@[i as int].cond));
                    assert(decreases_to!(*c => *conds@[i as int].body));
                }
                let cond_copy = clone_command(&conds[i].cond);
                let body_copy = clone_command(&conds[i].body);
                rconds.push(Condition { cond: Box::new(cond_copy), body: Box::new(body_copy) });
                i += 1;
            }
            let relse = clone_opt(else_part);
            proof {
                lemma_conds_view_index(rconds@);
                lemma_conds_view_index(conds@);
                assert(conds_view(rconds@) =~= conds_view(conds@));
            }
            Command::If { conds: rconds, else_part: relse }
        },
        Command::While { cond, body } => Command::While {
            cond: Box::new(clone_command(cond)),
            body: Box::new(clone_command(body)),
        },
        Command::Until { cond, body } => Command::Until {
            cond: Box::new(clone_command(cond)),
            body: Box::new(clone_command(body)),
        },
        Command::For { name, wordlist, body } => Command::For {
            name: name.clone(),
            wordlist: clone_strings(wordlist),
            body: Box::new(clone_command(body)),
        },
        Command::Case { word, arms } => {
            let mut rarms: Vec<CaseArm> = Vec::new();
            let mut i: usize = 0;
            while i < arms.len()
                invariant
                    i <= arms.len(),
                    *c matches Command::Case { word: _, arms: aa } && aa == *arms,
                    rarms@.len() == i as int,
                    forall|k: int|
                        0 <= k < i ==> strings_view(#[trigger] rarms@[k].pattern@) == strings_view(
                            arms@[k].pattern@,
                        ) && cmd_view(*rarms@[k].body) == cmd_view(*arms@[k].body),
                decreases arms.len() - i,
            {
                proof {
                    broadcast use vstd::std_specs::vec::axiom_vec_index_decreases;

                    assert(decreases_to!(*c => *arms));
                    assert(decreases_to!(*arms => arms@[i as int]));
                    assert(decreases_to!(*c => *arms@[i as int].body));
                }
                let pat_copy = clone_strings(&arms[i].pattern);
                let body_copy = clone_command(&arms[i].body);
                rarms.push(CaseArm { pattern: pat_copy, body: Box::new(body_copy) });
                i += 1;
            }
            proof {
                lemma_arms_view_index(rarms@);
                lemma_arms_view_index(arms@);
                assert(arms_view(rarms@) =~= arms_view(arms@));
            }
            Command::Case { word: word.clone(), arms: rarms }
        },
        Command::Fn { fname, body } => Command::Fn {
            fname: fname.clone(),
            body: Box::new(clone_command(body)),
        },
        Command::Empty => Command::Empty,
    }
}

} // verus!
