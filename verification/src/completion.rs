//! Tab-completion rules: contexts, predicates over them, candidate
//! actions, and the default completer that runs every matching rule
//! and keeps the candidates extending the word under the cursor.
//!
//! Predicates and actions are data, so a rule's behavior is fully
//! stated by its parts.

use vstd::prelude::*;

use crate::ast::strings_view;
use crate::subst::str_to_chars;

verus! {

/// What is being completed: the words of the line so far, the word
/// under the cursor last.
pub struct CompletionCtx {
    line: Vec<String>,
}

impl CompletionCtx {
    /// The words of the line.
    pub closed spec fn words(self) -> Seq<Seq<char>> {
        strings_view(self.line@)
    }

    /// The word under the cursor: the line's last word.
    pub open spec fn cur_word_spec(self) -> Seq<char> {
        if self.words().len() == 0 {
            Seq::empty()
        } else {
            self.words().last()
        }
    }

    /// A context over the given words.
    pub fn new(line: Vec<String>) -> (r: CompletionCtx)
        ensures
            r.words() == strings_view(line@),
    {
        CompletionCtx { line }
    }

    /// The word under the cursor, if the line has any.
    pub fn cur_word(&self) -> (r: Option<&String>)
        ensures
            match r {
                Option::Some(w) => self.words().len() > 0 && w@ == self.words().last(),
                Option::None => self.words().len() == 0,
            },
    {
        if self.line.len() == 0 {
            Option::None
        } else {
            Option::Some(&self.line[self.line.len() - 1])
        }
    }

    /// The command name: the line's first word.
    pub fn cmd_name(&self) -> (r: Option<&String>)
        ensures
            match r {
                Option::Some(w) => self.words().len() > 0 && w@ == self.words()[0],
                Option::None => self.words().len() == 0,
            },
    {
        if self.line.len() == 0 {
            Option::None
        } else {
            Option::Some(&self.line[0])
        }
    }

    /// Which argument is being completed; 0 is the command name.
    pub fn arg_num(&self) -> (r: usize)
        ensures
            r == (if self.words().len() == 0 {
                0int
            } else {
                self.words().len() - 1
            }),
    {
        if self.line.len() == 0 {
            0
        } else {
            self.line.len() - 1
        }
    }
}

/// How accepting a candidate edits the line.
#[derive(Debug, PartialEq, Eq, Structural, Clone, Copy)]
pub enum ReplaceMethod {
    /// Append the candidate after the current word.
    Append,
    /// Replace the current word with the candidate.
    Replace,
}

/// One completion candidate.
pub struct Completion {
    /// Whether a space follows the accepted candidate.
    pub add_space: bool,
    /// What the menu shows for it, when different from the candidate.
    pub display: Option<String>,
    /// The text that completion inserts.
    pub completion: String,
    pub replace_method: ReplaceMethod,
}

impl Completion {
    /// The text accepting this candidate inserts.
    pub fn accept(&self) -> (r: &String)
        ensures
            r@ == self.completion@,
    {
        &self.completion
    }
}

/// Whether `p` is a prefix of `s`.
pub fn str_starts_with(s: &String, p: &String) -> (r: bool)
    ensures
        r == p@.is_prefix_of(s@),
{
    let sc = str_to_chars(s);
    let pc = str_to_chars(p);
    if pc.len() > sc.len() {
        proof {
            assert(!p@.is_prefix_of(s@));
        }
        return false;
    }
    let mut i: usize = 0;
    while i < pc.len()
        invariant
            i <= pc@.len() <= sc@.len(),
            pc@ == p@,
            sc@ == s@,
            forall|k: int| 0 <= k < i ==> p@[k] == s@[k],
        decreases pc@.len() - i,
    {
        if pc[i] != sc[i] {
            proof {
                assert(!p@.is_prefix_of(s@)) by {
                    assert(s@.subrange(0, p@.len() as int)[i as int] == s@[i as int]);
                }
            }
            return false;
        }
        i += 1;
    }
    proof {
        assert(p@ =~= s@.subrange(0, p@.len() as int));
    }
    true
}

/// A predicate over completion contexts, as a value.
pub enum PredExpr {
    /// The command name is being completed.
    CmdName,
    /// An argument is being completed.
    Arg,
    /// A flag (short or long) is being completed.
    Flag,
    /// A short flag is being completed.
    ShortFlag,
    /// A long flag is being completed.
    LongFlag,
    /// The command name equals the given word.
    CmdNameEq(String),
    /// Both parts hold.
    And(Box<PredExpr>, Box<PredExpr>),
}

/// Whether a predicate holds of a context's words.
pub open spec fn pred_holds(e: PredExpr, words: Seq<Seq<char>>) -> bool
    decreases e,
{
    match e {
        PredExpr::CmdName => words.len() <= 1,
        PredExpr::Arg => words.len() > 1,
        PredExpr::Flag => flag_word(cur_of(words)) || long_flag_word(cur_of(words)),
        PredExpr::ShortFlag => flag_word(cur_of(words)) && !long_flag_word(cur_of(words)),
        PredExpr::LongFlag => long_flag_word(cur_of(words)),
        PredExpr::CmdNameEq(name) => words.len() > 0 && words[0] == name@,
        PredExpr::And(a, b) => pred_holds(*a, words) && pred_holds(*b, words),
    }
}

/// The word under the cursor of a word list.
pub open spec fn cur_of(words: Seq<Seq<char>>) -> Seq<char> {
    if words.len() == 0 {
        Seq::empty()
    } else {
        words.last()
    }
}

/// The word opens with `-`.
pub open spec fn flag_word(w: Seq<char>) -> bool {
    w.len() >= 1 && w[0] == '-'
}

/// The word opens with `--`.
pub open spec fn long_flag_word(w: Seq<char>) -> bool {
    w.len() >= 2 && w[0] == '-' && w[1] == '-'
}

/// A predicate a completion rule is guarded by.
pub struct Pred {
    expr: PredExpr,
}

impl Pred {
    /// The predicate's value.
    pub closed spec fn expr_spec(self) -> PredExpr {
        self.expr
    }

    /// A predicate from its description.
    pub fn new(expr: PredExpr) -> (r: Pred)
        ensures
            r.expr_spec() == expr,
    {
        Pred { expr }
    }

    /// This predicate, further requiring the other to hold too.
    pub fn and(self, expr: PredExpr) -> (r: Pred)
        ensures
            r.expr_spec() == PredExpr::And(Box::new(self.expr_spec()), Box::new(expr)),
    {
        Pred { expr: PredExpr::And(Box::new(self.expr), Box::new(expr)) }
    }

    /// Whether the predicate holds of the context.
    pub fn test(&self, ctx: &CompletionCtx) -> (r: bool)
        ensures
            r == pred_holds(self.expr_spec(), ctx.words()),
    {
        eval_pred(&self.expr, ctx)
    }
}

/// Evaluate a predicate description on a context.
fn eval_pred(e: &PredExpr, ctx: &CompletionCtx) -> (r: bool)
    ensures
        r == pred_holds(*e, ctx.words()),
    decreases *e,
{
    match e {
        PredExpr::CmdName => cmdname_pred(ctx),
        PredExpr::Arg => arg_pred(ctx),
        PredExpr::Flag => flag_pred(ctx),
        PredExpr::ShortFlag => short_flag_pred(ctx),
        PredExpr::LongFlag => long_flag_pred(ctx),
        PredExpr::CmdNameEq(name) => match ctx.cmd_name() {
            Option::Some(w) => w.eq(name),
            Option::None => false,
        },
        PredExpr::And(a, b) => {
            let left = eval_pred(a, ctx);
            left && eval_pred(b, ctx)
        },
    }
}

/// Check if we are completing the command name.
pub fn cmdname_pred(ctx: &CompletionCtx) -> (r: bool)
    ensures
        r == (ctx.words().len() <= 1),
{
    ctx.arg_num() == 0
}

/// Check if we are completing an argument.
pub fn arg_pred(ctx: &CompletionCtx) -> (r: bool)
    ensures
        r == (ctx.words().len() > 1),
{
    ctx.arg_num() != 0
}

/// Check if the current word is a flag, short or long.
pub fn flag_pred(ctx: &CompletionCtx) -> (r: bool)
    ensures
        r == (flag_word(ctx.cur_word_spec()) || long_flag_word(ctx.cur_word_spec())),
{
    let s = short_flag_pred(ctx);
    let l = long_flag_pred(ctx);
    s || l
}

/// Check if the current word is a short flag: it opens with `-` but
/// not `--`.
pub fn short_flag_pred(ctx: &CompletionCtx) -> (r: bool)
    ensures
        r == (flag_word(ctx.cur_word_spec()) && !long_flag_word(ctx.cur_word_spec())),
{
    let starts = match ctx.cur_word() {
        Option::Some(w) => {
            let n = w.as_str().unicode_len();
            n >= 1 && w.as_str().get_char(0) == '-'
        },
        Option::None => false,
    };
    starts && !long_flag_pred(ctx)
}

/// Check if the current word is a long flag: it opens with `--`.
pub fn long_flag_pred(ctx: &CompletionCtx) -> (r: bool)
    ensures
        r == long_flag_word(ctx.cur_word_spec()),
{
    match ctx.cur_word() {
        Option::Some(w) => {
            let n = w.as_str().unicode_len();
            n >= 2 && w.as_str().get_char(0) == '-' && w.as_str().get_char(1) == '-'
        },
        Option::None => false,
    }
}

/// Check if we are completing an argument of `git`.
pub fn git_pred(ctx: &CompletionCtx) -> (r: bool)
    ensures
        r == (ctx.words().len() > 0 && ctx.words()[0] == "git"@),
{
    match ctx.cmd_name() {
        Option::Some(w) => w.eq(&String::from_str("git")),
        Option::None => false,
    }
}

/// A predicate requiring the command name to equal the given word.
pub fn cmdname_eq_pred(cmd_name: String) -> (r: PredExpr)
    ensures
        r == PredExpr::CmdNameEq(cmd_name),
{
    PredExpr::CmdNameEq(cmd_name)
}

/// The candidates a completion rule offers, as a value.
pub enum ActionExpr {
    /// A fixed word list.
    Words(Vec<String>),
}

/// The words an action offers.
pub open spec fn action_words(a: ActionExpr) -> Seq<Seq<char>> {
    match a {
        ActionExpr::Words(ws) => strings_view(ws@),
    }
}

/// The candidates `git` arguments are completed from.
pub fn git_action() -> (r: ActionExpr)
    ensures
        action_words(r) == seq!["status"@, "add"@, "commit"@],
{
    let mut ws: Vec<String> = Vec::new();
    ws.push(String::from_str("status"));
    ws.push(String::from_str("add"));
    ws.push(String::from_str("commit"));
    proof {
        assert(strings_view(ws@) =~= seq!["status"@, "add"@, "commit"@]);
    }
    ActionExpr::Words(ws)
}

/// The candidates `git` flags are completed from.
pub fn git_flag_action() -> (r: ActionExpr)
    ensures
        action_words(r) == seq!["--version"@, "--help"@, "--bare"@],
{
    let mut ws: Vec<String> = Vec::new();
    ws.push(String::from_str("--version"));
    ws.push(String::from_str("--help"));
    ws.push(String::from_str("--bare"));
    proof {
        assert(strings_view(ws@) =~= seq!["--version"@, "--help"@, "--bare"@]);
    }
    ActionExpr::Words(ws)
}

/// Turn a word list into plain completion candidates: no separate
/// display, a trailing space, replacing the current word.
pub fn default_format(s: Vec<String>) -> (r: Vec<Completion>)
    ensures
        r@.len() == s@.len(),
        forall|k: int|
            0 <= k < s@.len() ==> (#[trigger] r@[k]).completion@ == s@[k]@ && r@[k].add_space
                && r@[k].display is None && r@[k].replace_method == ReplaceMethod::Replace,
{
    let mut r: Vec<Completion> = Vec::new();
    let mut i: usize = 0;
    while i < s.len()
        invariant
            i <= s@.len(),
            r@.len() == i as int,
            forall|k: int|
                0 <= k < i ==> (#[trigger] r@[k]).completion@ == s@[k]@ && r@[k].add_space
                    && r@[k].display is None && r@[k].replace_method == ReplaceMethod::Replace,
        decreases s@.len() - i,
    {
        let c = Completion {
            add_space: true,
            display: Option::None,
            completion: s[i].clone(),
            replace_method: ReplaceMethod::Replace,
        };
        r.push(c);
        i += 1;
    }
    r
}

/// One completion rule: when its predicate holds, its action's words
/// are offered.
pub struct Rule {
    pub pred: Pred,
    pub action: ActionExpr,
}

impl Rule {
    /// A rule from a predicate and an action.
    pub fn new(pred: Pred, action: ActionExpr) -> (r: Rule)
        ensures
            r.pred.expr_spec() == pred.expr_spec(),
            action_words(r.action) == action_words(action),
    {
        Rule { pred, action }
    }
}

/// The candidate words one rule contributes on a context: its action's
/// words that extend the current word, when its predicate holds.
pub open spec fn rule_words(pred: PredExpr, action: Seq<Seq<char>>, words: Seq<Seq<char>>) -> Seq<
    Seq<char>,
> {
    if pred_holds(pred, words) {
        action.filter(|w: Seq<char>| cur_of(words).is_prefix_of(w))
    } else {
        Seq::empty()
    }
}

/// The default completer: an ordered list of rules.
pub struct DefaultCompleter {
    rules: Vec<Rule>,
}

/// The words all rules from position `i` on contribute, in order.
pub open spec fn rules_words(rules: Seq<Rule>, words: Seq<Seq<char>>, i: int) -> Seq<Seq<char>>
    decreases rules.len() - i when 0 <= i <= rules.len()
{
    if i >= rules.len() {
        Seq::empty()
    } else {
        rule_words(rules[i].pred.expr_spec(), action_words(rules[i].action), words) + rules_words(
            rules,
            words,
            i + 1,
        )
    }
}

impl DefaultCompleter {
    /// The registered rules.
    pub closed spec fn rules_spec(self) -> Seq<Rule> {
        self.rules@
    }

    /// A completer with no rules.
    pub fn new() -> (r: DefaultCompleter)
        ensures
            r.rules_spec() == Seq::<Rule>::empty(),
    {
        DefaultCompleter { rules: Vec::new() }
    }

    /// Register a rule after the existing ones.
    pub fn register(&mut self, rule: Rule)
        ensures
            final(self).rules_spec() == old(self).rules_spec().push(rule),
    {
        self.rules.push(rule);
    }

    /// Run every rule whose predicate matches the context and collect,
    /// in rule order, the candidates whose text extends the word under
    /// the cursor.
    pub fn complete_helper(&self, ctx: &CompletionCtx) -> (r: Vec<Completion>)
        ensures
            r@.map_values(|c: Completion| c.completion@) == rules_words(
                self.rules_spec(),
                ctx.words(),
                0,
            ),
            forall|k: int|
                0 <= k < r@.len() ==> (#[trigger] r@[k]).add_space && r@[k].display is None
                    && r@[k].replace_method == ReplaceMethod::Replace,
    {
        let empty_word = String::new();
        let cur: String = match ctx.cur_word() {
            Option::Some(w) => w.clone(),
            Option::None => empty_word,
        };
        proof {
            assert(cur@ == cur_of(ctx.words()));
        }
        let mut out: Vec<Completion> = Vec::new();
        let mut i: usize = 0;
        proof {
            assert(out@.map_values(|c: Completion| c.completion@) =~= Seq::<Seq<char>>::empty());
        }
        while i < self.rules.len()
            invariant
                i <= self.rules@.len(),
                cur@ == cur_of(ctx.words()),
                out@.map_values(|c: Completion| c.completion@) + rules_words(
                    self.rules@,
                    ctx.words(),
                    i as int,
                ) == rules_words(self.rules@, ctx.words(), 0),
                forall|k: int|
                    0 <= k < out@.len() ==> (#[trigger] out@[k]).add_space && out@[k].display
                        is None && out@[k].replace_method == ReplaceMethod::Replace,
            decreases self.rules@.len() - i,
        {
            let rule = &self.rules[i];
            let ghost pre = out@.map_values(|c: Completion| c.completion@);
            if rule.pred.test(ctx) {
                match &rule.action {
                    ActionExpr::Words(ws) => {
                        let ghost f = |w: Seq<char>| cur_of(ctx.words()).is_prefix_of(w);
                        let mut k: usize = 0;
                        proof {
                            assert(strings_view(ws@).subrange(0, 0).filter(f)
                                =~= Seq::<Seq<char>>::empty());
                        }
                        while k < ws.len()
                            invariant
                                k <= ws@.len(),
                                cur@ == cur_of(ctx.words()),
                                f == (|w: Seq<char>| cur_of(ctx.words()).is_prefix_of(w)),
                                out@.map_values(|c: Completion| c.completion@) == pre
                                    + strings_view(ws@).subrange(0, k as int).filter(f),
                                forall|m: int|
                                    0 <= m < out@.len() ==> (#[trigger] out@[m]).add_space
                                        && out@[m].display is None && out@[m].replace_method
                                        == ReplaceMethod::Replace,
                            decreases ws@.len() - k,
                        {
                            let ghost prefix_words = strings_view(ws@).subrange(0, k as int);
                            let ghost out_pre = out@.map_values(|c: Completion| c.completion@);
                            let take = str_starts_with(&ws[k], &cur);
                            if take {
                                let c = Completion {
                                    add_space: true,
                                    display: Option::None,
                                    completion: ws[k].clone(),
                                    replace_method: ReplaceMethod::Replace,
                                };
                                out.push(c);
                            }
                            k += 1;
                            proof {
                                let next_words = strings_view(ws@).subrange(0, k as int);
                                let x = ws@[k - 1]@;
                                assert(next_words =~= prefix_words.push(x));
                                assert(next_words.drop_last() =~= prefix_words);
                                assert(next_words.last() == x);
                                assert(next_words.filter(f) == (if f(x) {
                                    prefix_words.filter(f).push(x)
                                } else {
                                    prefix_words.filter(f)
                                })) by {
                                    reveal_with_fuel(Seq::filter, 2);
                                }
                                if take {
                                    assert(f(x));
                                    assert(out@.map_values(|c: Completion| c.completion@)
                                        =~= out_pre.push(x));
                                    assert(out@.map_values(|c: Completion| c.completion@) =~= pre
                                        + next_words.filter(f));
                                } else {
                                    assert(!f(x));
                                    assert(out@.map_values(|c: Completion| c.completion@) =~= pre
                                        + next_words.filter(f));
                                }
                            }
                        }
                        proof {
                            assert(strings_view(ws@).subrange(0, ws@.len() as int)
                                =~= strings_view(ws@));
                            assert(rules_words(self.rules@, ctx.words(), i as int) == rule_words(
                                self.rules@[i as int].pred.expr_spec(),
                                action_words(self.rules@[i as int].action),
                                ctx.words(),
                            ) + rules_words(self.rules@, ctx.words(), i as int + 1));
                        }
                    },
                }
            } else {
                proof {
                    assert(rules_words(self.rules@, ctx.words(), i as int) == rule_words(
                        self.rules@[i as int].pred.expr_spec(),
                        action_words(self.rules@[i as int].action),
                        ctx.words(),
                    ) + rules_words(self.rules@, ctx.words(), i as int + 1));
                    assert(rule_words(
                        self.rules@[i as int].pred.expr_spec(),
                        action_words(self.rules@[i as int].action),
                        ctx.words(),
                    ) =~= Seq::<Seq<char>>::empty());
                }
            }
            i += 1;
        }
        out
    }
}

} // verus!
