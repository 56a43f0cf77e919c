//! The shell runtime: working directory, environment variables, shell
//! name and arguments, last exit status, and the function table.
//!
//! Both tables are association lists in which the latest binding for a
//! name wins; their models are maps.

use vstd::prelude::*;

use crate::ast::{clone_command, cmd_view, CmdModel, Command};

verus! {

/// Environment variable store.
pub struct Env {
    entries: Vec<(String, String)>,
}

/// The map a binding list denotes: later entries override earlier ones.
pub open spec fn assoc_map(s: Seq<(String, String)>) -> Map<Seq<char>, Seq<char>>
    decreases s.len(),
{
    if s.len() == 0 {
        Map::empty()
    } else {
        assoc_map(s.drop_last()).insert(s.last().0@, s.last().1@)
    }
}

/// The map a function list denotes: later entries override earlier ones.
pub open spec fn fun_map(s: Seq<(String, Command)>) -> Map<Seq<char>, CmdModel>
    decreases s.len(),
{
    if s.len() == 0 {
        Map::empty()
    } else {
        fun_map(s.drop_last()).insert(s.last().0@, cmd_view(s.last().1))
    }
}

impl View for Env {
    type V = Map<Seq<char>, Seq<char>>;

    closed spec fn view(&self) -> Map<Seq<char>, Seq<char>> {
        assoc_map(self.entries@)
    }
}

/// A name is bound in the list iff some entry carries it.
proof fn lemma_assoc_contains(s: Seq<(String, String)>, name: Seq<char>)
    ensures
        assoc_map(s).contains_key(name) <==> exists|k: int| 0 <= k < s.len() && s[k].0@ == name,
    decreases s.len(),
{
    if s.len() > 0 {
        lemma_assoc_contains(s.drop_last(), name);
        assert(forall|k: int| 0 <= k < s.len() - 1 ==> #[trigger] s.drop_last()[k] == s[k]);
        assert(s.last() == s[s.len() - 1]);
        if assoc_map(s.drop_last()).contains_key(name) {
            let k = choose|k: int|
                0 <= k < s.drop_last().len() && s.drop_last()[k].0@ == name;
            assert(s[k].0@ == name);
        }
        if exists|k: int| 0 <= k < s.len() && s[k].0@ == name {
            let k = choose|k: int| 0 <= k < s.len() && s[k].0@ == name;
            if k < s.len() - 1 {
                assert(s.drop_last()[k].0@ == name);
            } else {
                assert(s.last().0@ == name);
            }
        }
    }
}

impl Env {
    /// An empty environment.
    pub fn new() -> (r: Env)
        ensures
            r@ == Map::<Seq<char>, Seq<char>>::empty(),
    {
        Env { entries: Vec::new() }
    }

    /// Bind `name` to `val`, overriding any earlier binding.
    pub fn set(&mut self, name: &String, val: &String)
        ensures
            final(self)@ == old(self)@.insert(name@, val@),
    {
        let pair = (name.clone(), val.clone());
        self.entries.push(pair);
        proof {
            assert(self.entries@.drop_last() =~= old(self).entries@);
        }
    }

    /// Look the latest binding of `name` up.
    pub fn get(&self, name: &String) -> (r: Option<&String>)
        ensures
            match r {
                Option::Some(v) => self@.contains_key(name@) && v@ == self@[name@],
                Option::None => !self@.contains_key(name@),
            },
    {
        let mut i: usize = self.entries.len();
        while i > 0
            invariant
                i <= self.entries.len(),
                forall|k: int| i <= k < self.entries@.len() ==> self.entries@[k].0@ != name@,
            decreases i,
        {
            i = i - 1;
            if self.entries[i].0.eq(name) {
                proof {
                    lemma_assoc_suffix_lookup(self.entries@, i as int, name@);
                }
                return Option::Some(&self.entries[i].1);
            }
        }
        proof {
            lemma_assoc_contains(self.entries@, name@);
        }
        Option::None
    }

    /// Copy the environment.
    pub fn clone_env(&self) -> (r: Env)
        ensures
            r@ == self@,
    {
        let mut entries: Vec<(String, String)> = Vec::new();
        let mut i: usize = 0;
        while i < self.entries.len()
            invariant
                i <= self.entries.len(),
                entries@.len() == i as int,
                forall|k: int|
                    0 <= k < i ==> (#[trigger] entries@[k]).0@ == self.entries@[k].0@
                        && entries@[k].1@ == self.entries@[k].1@,
            decreases self.entries.len() - i,
        {
            let pair = (self.entries[i].0.clone(), self.entries[i].1.clone());
            entries.push(pair);
            i += 1;
        }
        proof {
            lemma_assoc_congruence(entries@, self.entries@);
        }
        Env { entries }
    }
}

/// If every entry from position `i` on misses `name` except entry `i`
/// itself, the map's value for `name` is entry `i`'s.
proof fn lemma_assoc_suffix_lookup(s: Seq<(String, String)>, i: int, name: Seq<char>)
    requires
        0 <= i < s.len(),
        s[i].0@ == name,
        forall|k: int| i < k < s.len() ==> s[k].0@ != name,
    ensures
        assoc_map(s).contains_key(name),
        assoc_map(s)[name] == s[i].1@,
    decreases s.len(),
{
    if i == s.len() - 1 {
    } else {
        lemma_assoc_suffix_lookup(s.drop_last(), i, name);
    }
}

/// Lists with pairwise equal views denote the same map.
proof fn lemma_assoc_congruence(a: Seq<(String, String)>, b: Seq<(String, String)>)
    requires
        a.len() == b.len(),
        forall|k: int|
            0 <= k < a.len() ==> (#[trigger] a[k]).0@ == b[k].0@ && a[k].1@ == b[k].1@,
    ensures
        assoc_map(a) == assoc_map(b),
    decreases a.len(),
{
    if a.len() > 0 {
        assert forall|k: int| 0 <= k < a.len() - 1 implies (#[trigger] a.drop_last()[k]).0@
            == b.drop_last()[k].0@ && a.drop_last()[k].1@ == b.drop_last()[k].1@ by {
            assert(a.drop_last()[k] == a[k]);
            assert(b.drop_last()[k] == b[k]);
        }
        lemma_assoc_congruence(a.drop_last(), b.drop_last());
    }
}

/// Model of the runtime.
pub struct RuntimeModel {
    pub working_dir: Seq<char>,
    pub env: Map<Seq<char>, Seq<char>>,
    pub name: Seq<char>,
    pub args: Seq<Seq<char>>,
    pub exit_status: int,
    pub functions: Map<Seq<char>, CmdModel>,
}

/// Runtime context of one shell: the data local to a (sub)shell. A
/// subshell evaluates against a copy, so its mutations never escape.
pub struct Runtime {
    /// Current working directory.
    pub working_dir: String,
    /// Environment variables.
    pub env: Env,
    /// Name of the shell or shell script.
    pub name: String,
    /// Arguments the shell was called with.
    pub args: Vec<String>,
    /// Exit status of the most recent pipeline.
    pub exit_status: i32,
    /// User defined functions, by name; the latest binding wins.
    pub functions: Vec<(String, Command)>,
}

impl View for Runtime {
    type V = RuntimeModel;

    open spec fn view(&self) -> RuntimeModel {
        RuntimeModel {
            working_dir: self.working_dir@,
            env: self.env@,
            name: self.name@,
            args: crate::ast::strings_view(self.args@),
            exit_status: self.exit_status as int,
            functions: fun_map(self.functions@),
        }
    }
}

impl Runtime {
    /// A fresh runtime with the given working directory and shell name,
    /// an empty environment, no arguments and no functions.
    pub fn new(working_dir: String, name: String) -> (r: Runtime)
        ensures
            r@.working_dir == working_dir@,
            r@.name == name@,
            r@.env == Map::<Seq<char>, Seq<char>>::empty(),
            r@.args == Seq::<Seq<char>>::empty(),
            r@.exit_status == 0,
            r@.functions == Map::<Seq<char>, CmdModel>::empty(),
    {
        let r = Runtime {
            working_dir,
            name,
            env: Env::new(),
            args: Vec::new(),
            exit_status: 0,
            functions: Vec::new(),
        };
        proof {
            assert(crate::ast::strings_view(r.args@) =~= Seq::<Seq<char>>::empty());
        }
        r
    }

    /// Install a function body under `name`, overriding any earlier one.
    pub fn define_function(&mut self, name: &String, body: Command)
        ensures
            final(self)@ == (RuntimeModel {
                functions: old(self)@.functions.insert(name@, cmd_view(body)),
                ..old(self)@
            }),
    {
        let pair = (name.clone(), body);
        self.functions.push(pair);
        proof {
            assert(self.functions@.drop_last() =~= old(self).functions@);
        }
    }

    /// Fetch a copy of the latest function body bound to `name`.
    pub fn get_function(&self, name: &String) -> (r: Option<Command>)
        ensures
            match r {
                Option::Some(body) => self@.functions.contains_key(name@) && cmd_view(body)
                    == self@.functions[name@],
                Option::None => !self@.functions.contains_key(name@),
            },
    {
        let mut i: usize = self.functions.len();
        while i > 0
            invariant
                i <= self.functions.len(),
                forall|k: int| i <= k < self.functions@.len() ==> self.functions@[k].0@ != name@,
            decreases i,
        {
            i = i - 1;
            if self.functions[i].0.eq(name) {
                proof {
                    lemma_fun_suffix_lookup(self.functions@, i as int, name@);
                }
                return Option::Some(clone_command(&self.functions[i].1));
            }
        }
        proof {
            lemma_fun_contains(self.functions@, name@);
        }
        Option::None
    }

    /// Copy the runtime; the copy has the same model.
    pub fn clone_runtime(&self) -> (r: Runtime)
        ensures
            r@ == self@,
    {
        let mut functions: Vec<(String, Command)> = Vec::new();
        let mut i: usize = 0;
        while i < self.functions.len()
            invariant
                i <= self.functions.len(),
                functions@.len() == i as int,
                forall|k: int|
                    0 <= k < i ==> (#[trigger] functions@[k]).0@ == self.functions@[k].0@
                        && cmd_view(functions@[k].1) == cmd_view(self.functions@[k].1),
            decreases self.functions.len() - i,
        {
            let pair = (self.functions[i].0.clone(), clone_command(&self.functions[i].1));
            functions.push(pair);
            i += 1;
        }
        proof {
            lemma_fun_congruence(functions@, self.functions@);
        }
        let r = Runtime {
            working_dir: self.working_dir.clone(),
            env: self.env.clone_env(),
            name: self.name.clone(),
            args: crate::ast::clone_strings(&self.args),
            exit_status: self.exit_status,
            functions,
        };
        r
    }
}

/// A name is bound in the function list iff some entry carries it.
proof fn lemma_fun_contains(s: Seq<(String, Command)>, name: Seq<char>)
    ensures
        fun_map(s).contains_key(name) <==> exists|k: int| 0 <= k < s.len() && s[k].0@ == name,
    decreases s.len(),
{
    if s.len() > 0 {
        lemma_fun_contains(s.drop_last(), name);
        assert(forall|k: int| 0 <= k < s.len() - 1 ==> #[trigger] s.drop_last()[k] == s[k]);
        assert(s.last() == s[s.len() - 1]);
        if fun_map(s.drop_last()).contains_key(name) {
            let k = choose|k: int|
                0 <= k < s.drop_last().len() && s.drop_last()[k].0@ == name;
            assert(s[k].0@ == name);
        }
        if exists|k: int| 0 <= k < s.len() && s[k].0@ == name {
            let k = choose|k: int| 0 <= k < s.len() && s[k].0@ == name;
            if k < s.len() - 1 {
                assert(s.drop_last()[k].0@ == name);
            } else {
                assert(s.last().0@ == name);
            }
        }
    }
}

/// If every entry from position `i` on misses `name` except entry `i`
/// itself, the function map's value for `name` is entry `i`'s body.
proof fn lemma_fun_suffix_lookup(s: Seq<(String, Command)>, i: int, name: Seq<char>)
    requires
        0 <= i < s.len(),
        s[i].0@ == name,
        forall|k: int| i < k < s.len() ==> s[k].0@ != name,
    ensures
        fun_map(s).contains_key(name),
        fun_map(s)[name] == cmd_view(s[i].1),
    decreases s.len(),
{
    if i == s.len() - 1 {
    } else {
        lemma_fun_suffix_lookup(s.drop_last(), i, name);
    }
}

/// Function lists with pairwise equal names and models denote the same map.
proof fn lemma_fun_congruence(a: Seq<(String, Command)>, b: Seq<(String, Command)>)
    requires
        a.len() == b.len(),
        forall|k: int|
            0 <= k < a.len() ==> (#[trigger] a[k]).0@ == b[k].0@ && cmd_view(a[k].1) == cmd_view(
                b[k].1,
            ),
    ensures
        fun_map(a) == fun_map(b),
    decreases a.len(),
{
    if a.len() > 0 {
        assert forall|k: int| 0 <= k < a.len() - 1 implies (#[trigger] a.drop_last()[k]).0@
            == b.drop_last()[k].0@ && cmd_view(a.drop_last()[k].1) == cmd_view(
            b.drop_last()[k].1,
        ) by {
            assert(a.drop_last()[k] == a[k]);
            assert(b.drop_last()[k] == b[k]);
        }
        lemma_fun_congruence(a.drop_last(), b.drop_last());
    }
}

/// Point the runtime at a new working directory, remembering the old
/// one in `OLDPWD` and publishing the new one in `PWD`. The caller is
/// expected to hand in a path it has resolved and checked.
pub fn set_working_dir(rt: &mut Runtime, wd: &String)
    ensures
        final(rt)@ == (RuntimeModel {
            working_dir: wd@,
            env: old(rt)@.env.insert("OLDPWD"@, old(rt)@.working_dir).insert("PWD"@, wd@),
            ..old(rt)@
        }),
{
    let oldpwd_key = String::from_str("OLDPWD");
    let pwd_key = String::from_str("PWD");
    let old_dir = rt.working_dir.clone();
    rt.env.set(&oldpwd_key, &old_dir);
    rt.env.set(&pwd_key, wd);
    rt.working_dir = wd.clone();
}

/// The runtime's current working directory.
pub fn get_working_dir(rt: &Runtime) -> (r: &String)
    ensures
        r@ == rt@.working_dir,
{
    &rt.working_dir
}

} // verus!
