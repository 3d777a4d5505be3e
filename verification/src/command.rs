//! The decision core of the process-execution engine.
//!
//! An invocation is described by a [`CommandConfig`]. The engine spawns the
//! child as [`spawn_plan`] lays it out, drains its two output streams through
//! pumps whose per-read behaviour [`pump_step`] fixes, and supervises the
//! child in a poll loop whose per-iteration behaviour [`decide_poll`] fixes:
//! the exit check comes first, then the absolute timeout, then the no-output
//! timeout. Everything that touches the operating system — spawning, pipe
//! reads and writes, clocks, kill and wait — lives with the embedder, which
//! feeds what it observed into these functions and carries their decisions
//! out.

use vstd::prelude::*;

use crate::chars::{
    char_vec_to_string, dec_chars, digit_char, push_item, spec_dec_digits, spec_digit_char,
};
use vstd::string::StringExecFns;

verus! {

broadcast use crate::chars::lemma_vec_char_deep_view;

/// Error raised when the command cannot be started, its input cannot be
/// written, or waiting on the child fails at the operating-system level.
#[derive(Debug, Clone)]
pub struct CommandExecutionError {
    pub message: String,
}

impl CommandExecutionError {
    pub fn new(message: String) -> (r: Self)
        ensures
            r.message == message,
    {
        CommandExecutionError { message }
    }
}

/// Error raised when the absolute wall-clock budget is exceeded while the
/// child still runs.
#[derive(Debug, Clone)]
pub struct CommandTimeoutExceededError {
    pub message: String,
}

impl CommandTimeoutExceededError {
    pub fn new(message: String) -> (r: Self)
        ensures
            r.message == message,
    {
        CommandTimeoutExceededError { message }
    }
}

/// Error raised when no output byte is seen on either stream for longer than
/// the configured budget while the child still runs.
#[derive(Debug, Clone)]
pub struct CommandNoOutputTimeoutError {
    pub message: String,
}

impl CommandNoOutputTimeoutError {
    pub fn new(message: String) -> (r: Self)
        ensures
            r.message == message,
    {
        CommandNoOutputTimeoutError { message }
    }
}

/// The one failure an invocation reports: exactly one of the three kinds.
#[derive(Debug, Clone)]
pub enum CommandFailure {
    /// The spawn, the stdin write, or the wait itself failed.
    Execution(CommandExecutionError),
    /// The absolute timeout fired.
    Timeout(CommandTimeoutExceededError),
    /// The no-output timeout fired.
    NoOutput(CommandNoOutputTimeoutError),
}

/// The position of the first entry with name `k`, if any.
pub open spec fn em_index_of(m: Seq<(Seq<char>, Seq<char>)>, k: Seq<char>) -> Option<int>
    decreases m.len(),
{
    if m.len() == 0 {
        None
    } else if m[0].0 == k {
        Some(0int)
    } else {
        match em_index_of(m.drop_first(), k) {
            None => None,
            Some(i) => Some(i + 1),
        }
    }
}

/// Whether some entry has name `k`.
pub open spec fn em_contains(m: Seq<(Seq<char>, Seq<char>)>, k: Seq<char>) -> bool {
    em_index_of(m, k) is Some
}

/// The value stored under name `k`, if the name is present.
pub open spec fn em_lookup(m: Seq<(Seq<char>, Seq<char>)>, k: Seq<char>) -> Option<Seq<char>> {
    match em_index_of(m, k) {
        None => None,
        Some(i) => Some(m[i].1),
    }
}

/// The entries after storing `v` under `k`: an entry with that name is
/// replaced in place, a fresh name goes to the end.
pub open spec fn em_insert(
    m: Seq<(Seq<char>, Seq<char>)>,
    k: Seq<char>,
    v: Seq<char>,
) -> Seq<(Seq<char>, Seq<char>)> {
    match em_index_of(m, k) {
        None => m.push((k, v)),
        Some(i) => m.update(i, (k, v)),
    }
}

/// Whether no two entries share a name.
pub open spec fn em_unique(m: Seq<(Seq<char>, Seq<char>)>) -> bool {
    forall|i: int, j: int| 0 <= i < j < m.len() ==> m[i].0 != m[j].0
}

/// The entries of `o` stored over `base`, in order: the merge of an override
/// set on top of an inherited environment.
pub open spec fn em_merge(
    base: Seq<(Seq<char>, Seq<char>)>,
    o: Seq<(Seq<char>, Seq<char>)>,
) -> Seq<(Seq<char>, Seq<char>)>
    decreases o.len(),
{
    if o.len() == 0 {
        base
    } else {
        em_insert(em_merge(base, o.drop_last()), o.last().0, o.last().1)
    }
}

proof fn lemma_em_index_range(m: Seq<(Seq<char>, Seq<char>)>, k: Seq<char>, i: int)
    requires
        0 <= i <= m.len(),
        forall|j: int| 0 <= j < i ==> m[j].0 != k,
        i < m.len() ==> m[i].0 == k,
    ensures
        em_index_of(m, k) == if i < m.len() {
            Some(i)
        } else {
            None::<int>
        },
    decreases i,
{
    if i == 0 {
    } else {
        let t = m.drop_first();
        assert(forall|j: int| 0 <= j < i - 1 ==> #[trigger] t[j].0 != k);
        lemma_em_index_range(t, k, i - 1);
    }
}

proof fn lemma_em_index_bounds(m: Seq<(Seq<char>, Seq<char>)>, k: Seq<char>)
    ensures
        match em_index_of(m, k) {
            Some(i) => 0 <= i < m.len() && m[i].0 == k && (forall|j: int|
                0 <= j < i ==> m[j].0 != k),
            None => forall|j: int| 0 <= j < m.len() ==> m[j].0 != k,
        },
    decreases m.len(),
{
    if m.len() == 0 {
    } else if m[0].0 == k {
    } else {
        let t = m.drop_first();
        lemma_em_index_bounds(t, k);
        match em_index_of(t, k) {
            None => {
                assert forall|j: int| 0 <= j < m.len() implies m[j].0 != k by {
                    if j >= 1 {
                        assert(t[j - 1] == m[j]);
                    }
                }
            },
            Some(i) => {
                assert(m[i + 1] == t[i]);
                assert forall|j: int| 0 <= j < i + 1 implies m[j].0 != k by {
                    if j >= 1 {
                        assert(t[j - 1] == m[j]);
                    }
                }
            },
        }
    }
}

/// Storing under `k` makes `k` read back as the stored value and leaves every
/// other name's reading unchanged.
proof fn lemma_em_insert_lookup(
    m: Seq<(Seq<char>, Seq<char>)>,
    k: Seq<char>,
    v: Seq<char>,
    k2: Seq<char>,
)
    ensures
        em_lookup(em_insert(m, k, v), k2) == if k2 == k {
            Some(v)
        } else {
            em_lookup(m, k2)
        },
{
    lemma_em_index_bounds(m, k);
    lemma_em_index_bounds(m, k2);
    match em_index_of(m, k) {
        None => {
            let p = m.push((k, v));
            if k2 == k {
                assert forall|j: int| 0 <= j < m.len() implies p[j].0 != k by {
                    assert(p[j] == m[j]);
                }
                lemma_em_index_range(p, k, m.len() as int);
            } else {
                match em_index_of(m, k2) {
                    Some(i2) => {
                        assert forall|j: int| 0 <= j < i2 implies p[j].0 != k2 by {
                            assert(p[j] == m[j]);
                        }
                        assert(p[i2] == m[i2]);
                        lemma_em_index_range(p, k2, i2);
                    },
                    None => {
                        assert forall|j: int| 0 <= j < p.len() implies p[j].0 != k2 by {
                            if j < m.len() {
                                assert(p[j] == m[j]);
                            }
                        }
                        lemma_em_index_range(p, k2, p.len() as int);
                    },
                }
            }
        },
        Some(i) => {
            let u = m.update(i, (k, v));
            if k2 == k {
                assert forall|j: int| 0 <= j < i implies u[j].0 != k by {
                    assert(u[j] == m[j]);
                }
                assert(u[i].0 == k);
                lemma_em_index_range(u, k, i);
            } else {
                match em_index_of(m, k2) {
                    Some(i2) => {
                        assert(i2 != i);
                        assert forall|j: int| 0 <= j < i2 implies u[j].0 != k2 by {
                            if j != i {
                                assert(u[j] == m[j]);
                            }
                        }
                        assert(u[i2] == m[i2]);
                        lemma_em_index_range(u, k2, i2);
                    },
                    None => {
                        assert forall|j: int| 0 <= j < u.len() implies u[j].0 != k2 by {
                            if j != i {
                                assert(u[j] == m[j]);
                            }
                        }
                        lemma_em_index_range(u, k2, u.len() as int);
                    },
                }
            }
        },
    }
}

/// The environment overrides of a configuration: variable name to value,
/// names unique, insertion order kept.
#[derive(Debug)]
pub struct EnvMap {
    entries: Vec<(String, String)>,
}

impl View for EnvMap {
    type V = Seq<(Seq<char>, Seq<char>)>;

    closed spec fn view(&self) -> Seq<(Seq<char>, Seq<char>)> {
        self.entries.deep_view()
    }
}

impl EnvMap {
    /// An empty environment.
    pub fn new() -> (r: EnvMap)
        ensures
            r@ == Seq::<(Seq<char>, Seq<char>)>::empty(),
            em_unique(r@),
    {
        let r = EnvMap { entries: Vec::new() };
        proof {
            assert(r@ =~= Seq::<(Seq<char>, Seq<char>)>::empty());
        }
        r
    }

    /// How many variables are set.
    pub fn len(&self) -> (r: usize)
        ensures
            r == self@.len(),
    {
        self.entries.len()
    }

    /// The value set for this name, if the name is present.
    pub fn get(&self, name: &str) -> (r: Option<&String>)
        ensures
            r is Some <==> em_contains(self@, name@),
            match r {
                Some(v) => em_lookup(self@, name@) == Some(v@),
                None => true,
            },
    {
        let key = String::from_str(name);
        let n = self.entries.len();
        let mut i: usize = 0;
        while i < n
            invariant
                0 <= i <= n,
                n == self@.len(),
                n == self.entries@.len(),
                key@ == name@,
                forall|j: int| 0 <= j < i ==> self@[j].0 != name@,
            decreases n - i,
        {
            if self.entries[i].0 == key {
                proof {
                    lemma_em_index_range(self@, name@, i as int);
                }
                return Some(&self.entries[i].1);
            }
            i += 1;
        }
        proof {
            lemma_em_index_range(self@, name@, n as int);
        }
        None
    }

    /// Sets a variable, replacing any entry of that name. Never introduces a
    /// repeated name.
    pub fn insert(&mut self, name: String, value: String)
        ensures
            final(self)@ == em_insert(old(self)@, name@, value@),
            em_unique(old(self)@) ==> em_unique(final(self)@),
    {
        let n = self.entries.len();
        let mut i: usize = 0;
        while i < n
            invariant
                0 <= i <= n,
                n == self@.len(),
                n == self.entries@.len(),
                *self == *old(self),
                forall|j: int| 0 <= j < i ==> self@[j].0 != name@,
            decreases n - i,
        {
            if self.entries[i].0 == name {
                proof {
                    lemma_em_index_range(self@, name@, i as int);
                }
                self.entries[i] = (name, value);
                proof {
                    assert(self@ =~~= em_insert(old(self)@, name@, value@));
                    if em_unique(old(self)@) {
                        lemma_em_insert_unique(old(self)@, name@, value@);
                    }
                }
                return ;
            }
            i += 1;
        }
        proof {
            lemma_em_index_range(self@, name@, n as int);
        }
        self.entries.push((name, value));
        proof {
            assert(self@ =~~= em_insert(old(self)@, name@, value@));
            if em_unique(old(self)@) {
                lemma_em_insert_unique(old(self)@, name@, value@);
            }
        }
    }

    /// A copy of this environment.
    pub fn duplicate(&self) -> (r: EnvMap)
        ensures
            r@ == self@,
    {
        let n = self.entries.len();
        let mut entries: Vec<(String, String)> = Vec::new();
        let mut i: usize = 0;
        proof {
            assert(entries.deep_view() =~~= self@.subrange(0, 0));
        }
        while i < n
            invariant
                0 <= i <= n,
                n == self.entries@.len(),
                n == self@.len(),
                entries.deep_view() == self@.subrange(0, i as int),
            decreases n - i,
        {
            let name = self.entries[i].0.clone();
            let value = self.entries[i].1.clone();
            push_item(&mut entries, (name, value));
            proof {
                assert(entries.deep_view() =~~= self@.subrange(0, i + 1 as int));
            }
            i += 1;
        }
        proof {
            assert(self@.subrange(0, n as int) =~= self@);
        }
        EnvMap { entries }
    }

    /// The variables as name–value pairs, in insertion order.
    pub fn pairs(&self) -> (r: &Vec<(String, String)>)
        ensures
            r.deep_view() == self@,
    {
        &self.entries
    }

    /// This environment laid as overrides on top of `base`: every name set
    /// here keeps its value from here, every other name keeps its value from
    /// `base`.
    pub fn merged_over(&self, base: &EnvMap) -> (r: EnvMap)
        ensures
            r@ == em_merge(base@, self@),
            em_unique(self@) ==> forall|k: Seq<char>|
                #![auto]
                em_lookup(r@, k) == if em_contains(self@, k) {
                    em_lookup(self@, k)
                } else {
                    em_lookup(base@, k)
                },
    {
        let mut r = base.duplicate();
        let n = self.entries.len();
        let mut i: usize = 0;
        while i < n
            invariant
                0 <= i <= n,
                n == self.entries@.len(),
                n == self@.len(),
                r@ == em_merge(base@, self@.subrange(0, i as int)),
            decreases n - i,
        {
            let ghost pre = self@.subrange(0, i as int);
            let ghost post = self@.subrange(0, i + 1 as int);
            proof {
                assert(post.drop_last() =~= pre);
                assert(post.last() == self@[i as int]);
            }
            let name = self.entries[i].0.clone();
            let value = self.entries[i].1.clone();
            r.insert(name, value);
            i += 1;
        }
        proof {
            assert(self@.subrange(0, n as int) =~= self@);
            if em_unique(self@) {
                assert forall|k: Seq<char>|
                    #![auto]
                    em_lookup(r@, k) == if em_contains(self@, k) {
                        em_lookup(self@, k)
                    } else {
                        em_lookup(base@, k)
                    } by {
                    lemma_env_merge_policy(base@, self@, k);
                }
            }
        }
        r
    }
}

/// The documented merge policy: overrides are laid on top of the inherited
/// environment. A name among the overrides reads back with its override
/// value; any other name reads back as inherited. The overrides must not
/// repeat a name, as a map built through [`EnvMap::insert`] never does.
pub proof fn lemma_env_merge_policy(
    base: Seq<(Seq<char>, Seq<char>)>,
    o: Seq<(Seq<char>, Seq<char>)>,
    k: Seq<char>,
)
    requires
        em_unique(o),
    ensures
        em_contains(o, k) ==> em_lookup(em_merge(base, o), k) == em_lookup(o, k),
        !em_contains(o, k) ==> em_lookup(em_merge(base, o), k) == em_lookup(base, k),
    decreases o.len(),
{
    if o.len() == 0 {
    } else {
        let d = o.drop_last();
        assert(em_unique(d));
        lemma_env_merge_policy(base, d, k);
        lemma_em_insert_lookup(em_merge(base, d), o.last().0, o.last().1, k);
        lemma_em_index_bounds(d, k);
        if k == o.last().0 {
            assert forall|j: int| 0 <= j < o.len() - 1 implies o[j].0 != k by {
                assert(o[j] == d[j]);
            }
            lemma_em_index_range(o, k, o.len() as int - 1);
        } else {
            match em_index_of(d, k) {
                Some(i) => {
                    assert forall|j: int| 0 <= j < i implies o[j].0 != k by {
                        assert(o[j] == d[j]);
                    }
                    assert(o[i] == d[i]);
                    lemma_em_index_range(o, k, i);
                },
                None => {
                    assert forall|j: int| 0 <= j < o.len() implies o[j].0 != k by {
                        if j < o.len() - 1 {
                            assert(o[j] == d[j]);
                        }
                    }
                    lemma_em_index_range(o, k, o.len() as int);
                },
            }
        }
    }
}

/// Inserting never repeats a name.
pub proof fn lemma_em_insert_unique(m: Seq<(Seq<char>, Seq<char>)>, k: Seq<char>, v: Seq<char>)
    requires
        em_unique(m),
    ensures
        em_unique(em_insert(m, k, v)),
{
    lemma_em_index_bounds(m, k);
    match em_index_of(m, k) {
        None => {
            let p = m.push((k, v));
            assert forall|i: int, j: int| 0 <= i < j < p.len() implies p[i].0 != p[j].0 by {
                if j < m.len() {
                    assert(p[i] == m[i] && p[j] == m[j]);
                } else {
                    assert(p[i] == m[i] && p[j] == (k, v));
                }
            }
        },
        Some(at) => {
            let u = m.update(at, (k, v));
            assert forall|i: int, j: int| 0 <= i < j < u.len() implies u[i].0 != u[j].0 by {
                if i != at && j != at {
                    assert(u[i] == m[i] && u[j] == m[j]);
                } else if i == at {
                    assert(u[j] == m[j] && m[at].0 == k);
                } else {
                    assert(u[i] == m[i] && m[at].0 == k);
                }
            }
        },
    }
}

/// An invocation's immutable description: the command line, the environment
/// overrides, the optional stdin payload, the four optional destination
/// handles (capture and live relay, one each per stream), the two optional
/// timeout budgets in milliseconds, and the optional working directory.
///
/// Destinations are externally owned raw handles, passed and kept as plain
/// integers; the engine writes to them and never closes them. When `cwd` is
/// unset the child inherits the engine's directory at spawn; the host entry
/// point fills `cwd` from its ambient directory once, at
/// configuration-construction time, so that the default is captured eagerly.
#[derive(Debug)]
pub struct CommandConfig {
    /// The command line; the first element is the executable. Must not be
    /// empty when the configuration is run.
    pub args: Vec<String>,
    /// Environment overrides, merged on top of the inherited environment.
    pub env: EnvMap,
    /// Bytes written in full to the child's stdin before it is closed; when
    /// unset the child inherits the caller's stdin.
    pub input: Option<Vec<u8>>,
    /// Capture destination for the child's stdout.
    pub stdout_fd: Option<i32>,
    /// Capture destination for the child's stderr.
    pub stderr_fd: Option<i32>,
    /// Live relay destination for the child's stdout.
    pub sys_stdout_fd: Option<i32>,
    /// Live relay destination for the child's stderr.
    pub sys_stderr_fd: Option<i32>,
    /// Absolute wall-clock budget, in milliseconds.
    pub timeout_ms: Option<u64>,
    /// Budget on the gap since the last output byte, in milliseconds.
    pub no_output_timeout_ms: Option<u64>,
    /// Working directory for the child.
    pub cwd: Option<String>,
}

impl CommandConfig {
    /// Whether the configuration can be run: the command line names an
    /// executable.
    pub open spec fn wf(&self) -> bool {
        self.args@.len() >= 1
    }

    /// A configuration that runs `args` with no overrides, no stdin payload,
    /// no destinations and no timeouts.
    pub fn new(args: Vec<String>) -> (r: Self)
        ensures
            r.args == args,
            r.env@ == Seq::<(Seq<char>, Seq<char>)>::empty(),
            r.input is None,
            r.stdout_fd is None,
            r.stderr_fd is None,
            r.sys_stdout_fd is None,
            r.sys_stderr_fd is None,
            r.timeout_ms is None,
            r.no_output_timeout_ms is None,
            r.cwd is None,
    {
        CommandConfig {
            args,
            env: EnvMap::new(),
            input: None,
            stdout_fd: None,
            stderr_fd: None,
            sys_stdout_fd: None,
            sys_stderr_fd: None,
            timeout_ms: None,
            no_output_timeout_ms: None,
            cwd: None,
        }
    }

    /// The same configuration with these environment overrides.
    pub fn with_env(self, env: EnvMap) -> (r: Self)
        ensures
            r == (CommandConfig { env, ..self }),
    {
        CommandConfig { env, ..self }
    }

    /// The same configuration with this stdin payload.
    pub fn with_input(self, input: Vec<u8>) -> (r: Self)
        ensures
            r == (CommandConfig { input: Some(input), ..self }),
    {
        CommandConfig { input: Some(input), ..self }
    }

    /// The same configuration with this working directory.
    pub fn with_cwd(self, cwd: String) -> (r: Self)
        ensures
            r == (CommandConfig { cwd: Some(cwd), ..self }),
    {
        CommandConfig { cwd: Some(cwd), ..self }
    }
}

fn copy_bytes(v: &Vec<u8>) -> (r: Vec<u8>)
    ensures
        r@ == v@,
{
    let n = v.len();
    let mut r: Vec<u8> = Vec::new();
    let mut i: usize = 0;
    while i < n
        invariant
            0 <= i <= n,
            n == v@.len(),
            r@ == v@.subrange(0, i as int),
        decreases n - i,
    {
        r.push(v[i]);
        proof {
            assert(r@ =~= v@.subrange(0, i + 1 as int));
        }
        i += 1;
    }
    proof {
        assert(v@.subrange(0, n as int) =~= v@);
    }
    r
}

/// How the child's standard input is wired: a pipe fed with the payload and
/// then closed, or the caller's own stdin.
#[derive(Debug)]
pub enum StdinPlan {
    Piped(Vec<u8>),
    Inherited,
}

/// Everything the spawn asks the operating system for: the executable, its
/// arguments, the environment overrides to lay over the inherited
/// environment, the working directory, and the stdin wiring. Stdout and
/// stderr are always wired to pipes, so the engine can observe and relay
/// them whatever destinations are configured.
#[derive(Debug)]
pub struct SpawnPlan {
    pub program: String,
    pub arg_tail: Vec<String>,
    pub env_overrides: EnvMap,
    pub cwd: Option<String>,
    pub stdin: StdinPlan,
}

/// Lays out the spawn for a configuration: the first argument is the
/// executable, the rest are its arguments in order; the environment
/// overrides, the working directory and the full stdin payload are carried
/// over unchanged. The child inherits stdin exactly when no payload is set.
pub fn spawn_plan(config: &CommandConfig) -> (p: SpawnPlan)
    requires
        config.wf(),
    ensures
        p.program@ == config.args@[0]@,
        p.arg_tail.deep_view() == config.args.deep_view().skip(1),
        p.env_overrides@ == config.env@,
        p.cwd.deep_view() == config.cwd.deep_view(),
        config.input matches Some(pl) ==> p.stdin matches StdinPlan::Piped(b) && b@ == pl@,
        config.input is None ==> p.stdin is Inherited,
{
    let program = config.args[0].clone();
    let n = config.args.len();
    let mut arg_tail: Vec<String> = Vec::new();
    let mut i: usize = 1;
    proof {
        assert(arg_tail.deep_view() =~~= config.args.deep_view().subrange(1, 1));
    }
    while i < n
        invariant
            1 <= i <= n,
            n == config.args@.len(),
            arg_tail.deep_view() == config.args.deep_view().subrange(1, i as int),
        decreases n - i,
    {
        push_item(&mut arg_tail, config.args[i].clone());
        proof {
            assert(arg_tail.deep_view() =~~= config.args.deep_view().subrange(1, i + 1 as int));
        }
        i += 1;
    }
    proof {
        assert(config.args.deep_view().subrange(1, n as int) =~= config.args.deep_view().skip(1));
    }
    let stdin = match &config.input {
        Some(payload) => StdinPlan::Piped(copy_bytes(payload)),
        None => StdinPlan::Inherited,
    };
    let cwd = match &config.cwd {
        Some(c) => Some(c.clone()),
        None => None,
    };
    SpawnPlan { program, arg_tail, env_overrides: config.env.duplicate(), cwd, stdin }
}

/// What one non-blocking check of the child showed: it exited with this code
/// (none when a signal ended it), it still runs, or the check itself failed
/// with this operating-system error text.
#[derive(Debug)]
pub enum PollEvent {
    Exited(Option<i32>),
    Running,
    WaitFailed(String),
}

/// What the supervisor does after one check: report this exit code, kill the
/// child for the absolute or the no-output timeout carrying the configured
/// budget, fail because waiting failed, or sleep and poll again.
#[derive(Debug)]
pub enum PollDecision {
    Complete(i32),
    KillTimeout(u64),
    KillNoOutput(u64),
    FailWait(String),
    KeepWaiting,
}

/// The reported exit code: the child's own, or `-1` when none is available.
pub open spec fn spec_exit_code(code: Option<i32>) -> i32 {
    match code {
        Some(c) => c,
        None => -1i32,
    }
}

/// Normalizes the platform exit code, substituting the `-1` sentinel when a
/// signal ended the child and no code exists.
pub fn exit_code_or_sentinel(code: Option<i32>) -> (r: i32)
    ensures
        r == spec_exit_code(code),
{
    match code {
        Some(c) => c,
        None => -1,
    }
}

/// The supervisor's decision for one poll: a seen exit wins over everything,
/// a failed wait is reported next, and only a child still seen running can
/// time out — first against the absolute budget, then against the no-output
/// budget, each exceeded only when strictly more time has passed.
pub open spec fn spec_decide(
    timeout_ms: Option<u64>,
    no_output_timeout_ms: Option<u64>,
    elapsed_ms: u64,
    since_output_ms: u64,
    event: PollEvent,
) -> PollDecision {
    match event {
        PollEvent::Exited(code) => PollDecision::Complete(spec_exit_code(code)),
        PollEvent::WaitFailed(m) => PollDecision::FailWait(m),
        PollEvent::Running => {
            if timeout_ms is Some && elapsed_ms > timeout_ms->0 {
                PollDecision::KillTimeout(timeout_ms->0)
            } else if no_output_timeout_ms is Some && since_output_ms > no_output_timeout_ms->0 {
                PollDecision::KillNoOutput(no_output_timeout_ms->0)
            } else {
                PollDecision::KeepWaiting
            }
        },
    }
}

/// One iteration of the supervisor's poll loop, on what the embedder
/// observed: the child's state, the milliseconds since spawn, and the
/// milliseconds since the activity clock's last update.
pub fn decide_poll(
    timeout_ms: Option<u64>,
    no_output_timeout_ms: Option<u64>,
    elapsed_ms: u64,
    since_output_ms: u64,
    event: PollEvent,
) -> (d: PollDecision)
    ensures
        d == spec_decide(timeout_ms, no_output_timeout_ms, elapsed_ms, since_output_ms, event),
{
    match event {
        PollEvent::Exited(code) => PollDecision::Complete(exit_code_or_sentinel(code)),
        PollEvent::WaitFailed(m) => PollDecision::FailWait(m),
        PollEvent::Running => {
            if let Some(t) = timeout_ms {
                if elapsed_ms > t {
                    return PollDecision::KillTimeout(t);
                }
            }
            if let Some(g) = no_output_timeout_ms {
                if since_output_ms > g {
                    return PollDecision::KillNoOutput(g);
                }
            }
            PollDecision::KeepWaiting
        },
    }
}

/// One observation of the poll loop: the elapsed wall-clock milliseconds
/// since spawn, the milliseconds since the last output byte, and the child's
/// state as the check reported it.
pub struct PollObservation {
    pub elapsed_ms: u64,
    pub since_output_ms: u64,
    pub event: PollEvent,
}

/// The outcome of a whole supervision run over its observations, in order:
/// the first decision that is not to keep waiting, or `KeepWaiting` while
/// none has been reached.
pub open spec fn spec_supervise(
    timeout_ms: Option<u64>,
    no_output_timeout_ms: Option<u64>,
    obs: Seq<PollObservation>,
) -> PollDecision
    decreases obs.len(),
{
    if obs.len() == 0 {
        PollDecision::KeepWaiting
    } else {
        let first = spec_decide(
            timeout_ms,
            no_output_timeout_ms,
            obs[0].elapsed_ms,
            obs[0].since_output_ms,
            obs[0].event,
        );
        if first is KeepWaiting {
            spec_supervise(timeout_ms, no_output_timeout_ms, obs.drop_first())
        } else {
            first
        }
    }
}

/// With neither timeout configured, no supervision run ever reports a
/// timeout.
pub proof fn lemma_no_timeouts_never_kill(obs: Seq<PollObservation>)
    ensures
        !(spec_supervise(None, None, obs) is KillTimeout),
        !(spec_supervise(None, None, obs) is KillNoOutput),
    decreases obs.len(),
{
    if obs.len() > 0 {
        lemma_no_timeouts_never_kill(obs.drop_first());
    }
}

/// With neither timeout configured, a child seen to exit with a code after
/// any number of quiet polls is reported with exactly that code, or with the
/// `-1` sentinel when no code exists.
pub proof fn lemma_natural_exit_code(obs: Seq<PollObservation>, i: int)
    requires
        0 <= i < obs.len(),
        obs[i].event is Exited,
        forall|j: int| 0 <= j < i ==> obs[j].event is Running,
    ensures
        spec_supervise(None, None, obs) == PollDecision::Complete(
            spec_exit_code(obs[i].event->Exited_0),
        ),
    decreases i,
{
    if i == 0 {
    } else {
        let t = obs.drop_first();
        assert(forall|j: int| 0 <= j < i - 1 ==> #[trigger] t[j].event is Running) by {
            assert(forall|j: int| 0 <= j < i - 1 ==> t[j] == obs[j + 1]);
        }
        assert(t[i - 1] == obs[i]);
        lemma_natural_exit_code(t, i - 1);
    }
}

/// The absolute timeout fires as soon as a poll sees the child still running
/// past the budget: at the first observation whose elapsed time exceeds `t`,
/// the run reports `KillTimeout(t)`. The overshoot is therefore bounded by
/// the gap between polls.
pub proof fn lemma_absolute_timeout_fires(t: u64, obs: Seq<PollObservation>, i: int)
    requires
        forall|j: int| 0 <= j < obs.len() ==> obs[j].event is Running,
        0 <= i < obs.len(),
        obs[i].elapsed_ms > t,
        forall|j: int| 0 <= j < i ==> obs[j].elapsed_ms <= t,
    ensures
        spec_supervise(Some(t), None, obs) == PollDecision::KillTimeout(t),
    decreases i,
{
    if i == 0 {
    } else {
        let rest = obs.drop_first();
        assert(forall|j: int| 0 <= j < rest.len() ==> #[trigger] rest[j].event is Running) by {
            assert(forall|j: int| 0 <= j < rest.len() ==> rest[j] == obs[j + 1]);
        }
        assert(rest[i - 1] == obs[i]);
        assert(forall|j: int| 0 <= j < i - 1 ==> #[trigger] rest[j].elapsed_ms <= t) by {
            assert(forall|j: int| 0 <= j < i - 1 ==> rest[j] == obs[j + 1]);
        }
        lemma_absolute_timeout_fires(t, rest, i - 1);
    }
}

/// While no poll sees the elapsed time past the budget, the absolute timeout
/// never fires, whatever else happens.
pub proof fn lemma_absolute_timeout_quiet(
    t: u64,
    no_output_timeout_ms: Option<u64>,
    obs: Seq<PollObservation>,
)
    requires
        forall|j: int| 0 <= j < obs.len() ==> obs[j].elapsed_ms <= t,
    ensures
        !(spec_supervise(Some(t), no_output_timeout_ms, obs) is KillTimeout),
    decreases obs.len(),
{
    if obs.len() > 0 {
        let rest = obs.drop_first();
        assert(forall|j: int| 0 <= j < rest.len() ==> #[trigger] rest[j].elapsed_ms <= t) by {
            assert(forall|j: int| 0 <= j < rest.len() ==> rest[j] == obs[j + 1]);
        }
        lemma_absolute_timeout_quiet(t, no_output_timeout_ms, rest);
    }
}

/// The no-output timeout fires as soon as a poll sees the child still
/// running with the output gap past the budget: at the first observation
/// whose gap exceeds `g`, the run reports `KillNoOutput(g)`.
pub proof fn lemma_no_output_timeout_fires(g: u64, obs: Seq<PollObservation>, i: int)
    requires
        forall|j: int| 0 <= j < obs.len() ==> obs[j].event is Running,
        0 <= i < obs.len(),
        obs[i].since_output_ms > g,
        forall|j: int| 0 <= j < i ==> obs[j].since_output_ms <= g,
    ensures
        spec_supervise(None, Some(g), obs) == PollDecision::KillNoOutput(g),
    decreases i,
{
    if i == 0 {
    } else {
        let rest = obs.drop_first();
        assert(forall|j: int| 0 <= j < rest.len() ==> #[trigger] rest[j].event is Running) by {
            assert(forall|j: int| 0 <= j < rest.len() ==> rest[j] == obs[j + 1]);
        }
        assert(rest[i - 1] == obs[i]);
        assert(forall|j: int| 0 <= j < i - 1 ==> #[trigger] rest[j].since_output_ms <= g) by {
            assert(forall|j: int| 0 <= j < i - 1 ==> rest[j] == obs[j + 1]);
        }
        lemma_no_output_timeout_fires(g, rest, i - 1);
    }
}

/// A child that keeps every output gap within the budget never trips the
/// no-output timeout, however long it runs in total.
pub proof fn lemma_steady_output_never_stalls(
    timeout_ms: Option<u64>,
    g: u64,
    obs: Seq<PollObservation>,
)
    requires
        forall|j: int| 0 <= j < obs.len() ==> obs[j].since_output_ms <= g,
    ensures
        !(spec_supervise(timeout_ms, Some(g), obs) is KillNoOutput),
    decreases obs.len(),
{
    if obs.len() > 0 {
        let rest = obs.drop_first();
        assert(forall|j: int| 0 <= j < rest.len() ==> #[trigger] rest[j].since_output_ms <= g) by {
            assert(forall|j: int| 0 <= j < rest.len() ==> rest[j] == obs[j + 1]);
        }
        lemma_steady_output_never_stalls(timeout_ms, g, rest);
    }
}

/// The exit check comes before both timeout checks: a child seen exited in a
/// tick in which a budget is also exceeded is reported as a normal exit, not
/// as a timeout.
pub proof fn lemma_exit_check_first(
    timeout_ms: Option<u64>,
    no_output_timeout_ms: Option<u64>,
    elapsed_ms: u64,
    since_output_ms: u64,
    code: Option<i32>,
)
    ensures
        spec_decide(
            timeout_ms,
            no_output_timeout_ms,
            elapsed_ms,
            since_output_ms,
            PollEvent::Exited(code),
        ) == PollDecision::Complete(spec_exit_code(code)),
{
}

/// What one stream-read loop iteration observes: a non-empty chunk read from
/// the pipe, end of stream, a failed read, or a failed destination write
/// reported back from carrying out the previous action.
#[derive(Debug)]
pub enum PumpEvent {
    Chunk(Vec<u8>),
    Eof,
    ReadFailed,
    WriteFailed,
}

/// What the pump does with one event: whether to stamp the activity clock,
/// the bytes to write and flush to the capture and to the relay destination,
/// and whether the pump stops.
#[derive(Debug)]
pub struct PumpAction {
    pub record_activity: bool,
    pub capture_write: Option<Vec<u8>>,
    pub relay_write: Option<Vec<u8>>,
    pub stop: bool,
}

/// The pump's behaviour for one event. A chunk always stamps the activity
/// clock — even with no destination configured — and goes in full to each
/// configured destination, capture first; end of stream, a read error and a
/// write error all stop the pump silently.
pub fn pump_step(has_capture: bool, has_relay: bool, event: PumpEvent) -> (a: PumpAction)
    ensures
        match event {
            PumpEvent::Chunk(c) => {
                &&& a.record_activity
                &&& !a.stop
                &&& (a.capture_write is Some <==> has_capture)
                &&& (a.relay_write is Some <==> has_relay)
                &&& (a.capture_write matches Some(w) ==> w@ == c@)
                &&& (a.relay_write matches Some(w) ==> w@ == c@)
            },
            _ => {
                &&& !a.record_activity
                &&& a.stop
                &&& a.capture_write is None
                &&& a.relay_write is None
            },
        },
{
    match event {
        PumpEvent::Chunk(c) => {
            let capture_write = if has_capture {
                Some(copy_bytes(&c))
            } else {
                None
            };
            let relay_write = if has_relay {
                Some(c)
            } else {
                None
            };
            PumpAction { record_activity: true, capture_write, relay_write, stop: false }
        },
        _ => PumpAction { record_activity: false, capture_write: None, relay_write: None, stop: true },
    }
}

/// The bytes the child wrote to the stream up to the event that stopped the
/// pump: the chunks in order.
pub open spec fn spec_pump_stream(events: Seq<PumpEvent>) -> Seq<u8>
    decreases events.len(),
{
    if events.len() == 0 {
        Seq::empty()
    } else {
        match events[0] {
            PumpEvent::Chunk(c) => c@ + spec_pump_stream(events.drop_first()),
            _ => Seq::empty(),
        }
    }
}

/// The bytes a pump run hands to the capture and to the relay destination.
pub open spec fn spec_pump_outputs(
    events: Seq<PumpEvent>,
    has_capture: bool,
    has_relay: bool,
) -> (Seq<u8>, Seq<u8>)
    decreases events.len(),
{
    if events.len() == 0 {
        (Seq::empty(), Seq::empty())
    } else {
        match events[0] {
            PumpEvent::Chunk(c) => {
                let rest = spec_pump_outputs(events.drop_first(), has_capture, has_relay);
                (
                    if has_capture {
                        c@ + rest.0
                    } else {
                        rest.0
                    },
                    if has_relay {
                        c@ + rest.1
                    } else {
                        rest.1
                    },
                )
            },
            _ => (Seq::empty(), Seq::empty()),
        }
    }
}

/// A configured capture destination receives exactly the stream's bytes, in
/// order.
pub proof fn lemma_capture_is_stream(events: Seq<PumpEvent>, has_relay: bool)
    ensures
        spec_pump_outputs(events, true, has_relay).0 == spec_pump_stream(events),
    decreases events.len(),
{
    if events.len() > 0 {
        lemma_capture_is_stream(events.drop_first(), has_relay);
    }
}

/// A configured relay destination receives exactly the stream's bytes, in
/// order.
pub proof fn lemma_relay_is_stream(events: Seq<PumpEvent>, has_capture: bool)
    ensures
        spec_pump_outputs(events, has_capture, true).1 == spec_pump_stream(events),
    decreases events.len(),
{
    if events.len() > 0 {
        lemma_relay_is_stream(events.drop_first(), has_capture);
    }
}

/// With both a capture and a relay destination configured, both receive
/// byte-identical, order-preserving copies of everything the child wrote.
pub proof fn lemma_dual_destinations_identical(events: Seq<PumpEvent>)
    ensures
        spec_pump_outputs(events, true, true).0 == spec_pump_outputs(events, true, true).1,
        spec_pump_outputs(events, true, true).0 == spec_pump_stream(events),
{
    lemma_capture_is_stream(events, true);
    lemma_relay_is_stream(events, true);
}

/// Executing one configuration twice over the same observed child behaviour
/// yields the same outcome and byte-identical captured output: the engine's
/// decisions are functions of the configuration and the observations alone.
pub proof fn lemma_rerun_identical(
    timeout_ms: Option<u64>,
    no_output_timeout_ms: Option<u64>,
    obs1: Seq<PollObservation>,
    obs2: Seq<PollObservation>,
    events1: Seq<PumpEvent>,
    events2: Seq<PumpEvent>,
    has_capture: bool,
    has_relay: bool,
)
    requires
        obs1 == obs2,
        events1 == events2,
    ensures
        spec_supervise(timeout_ms, no_output_timeout_ms, obs1) == spec_supervise(
            timeout_ms,
            no_output_timeout_ms,
            obs2,
        ),
        spec_pump_outputs(events1, has_capture, has_relay) == spec_pump_outputs(
            events2,
            has_capture,
            has_relay,
        ),
{
}

/// The duration in seconds with two decimals: the budget rounded to the
/// nearest hundredth of a second, halves upward.
pub open spec fn spec_secs_text(ms: u64) -> Seq<char> {
    let cs = (ms + 5) / 10;
    spec_dec_digits((cs / 100) as nat) + seq![
        '.',
        spec_digit_char(((cs / 10) % 10) as nat),
        spec_digit_char((cs % 10) as nat),
    ]
}

/// The message of an absolute-timeout failure.
pub open spec fn spec_timeout_message(ms: u64) -> Seq<char> {
    "Command timed out after "@ + spec_secs_text(ms) + " seconds"@
}

/// The message of a no-output-timeout failure.
pub open spec fn spec_no_output_message(ms: u64) -> Seq<char> {
    "Command timed out due to no output for "@ + spec_secs_text(ms) + " seconds"@
}

/// Renders a budget of milliseconds as seconds with two decimals, rounded
/// to the nearest hundredth, halves upward.
pub fn secs_text(ms: u64) -> (r: String)
    ensures
        r@ == spec_secs_text(ms),
{
    let cs_wide: u128 = (ms as u128 + 5) / 10;
    let cs: u64 = cs_wide as u64;
    proof {
        assert(cs == (ms + 5) / 10);
    }
    let mut v = dec_chars(cs / 100);
    v.push('.');
    v.push(digit_char((cs / 10) % 10));
    v.push(digit_char(cs % 10));
    proof {
        assert(v@ =~= spec_secs_text(ms));
    }
    char_vec_to_string(&v)
}

/// The text an absolute-timeout failure carries.
pub fn timeout_message(ms: u64) -> (r: String)
    ensures
        r@ == spec_timeout_message(ms),
{
    let mut s = String::new();
    s.append("Command timed out after ");
    let t = secs_text(ms);
    s.append(t.as_str());
    s.append(" seconds");
    s
}

/// The text a no-output-timeout failure carries.
pub fn no_output_message(ms: u64) -> (r: String)
    ensures
        r@ == spec_no_output_message(ms),
{
    let mut s = String::new();
    s.append("Command timed out due to no output for ");
    let t = secs_text(ms);
    s.append(t.as_str());
    s.append(" seconds");
    s
}

/// The failure to report when the executable cannot be started, carrying the
/// operating system's error text.
pub fn spawn_failure_error(os_error: &str) -> (r: CommandExecutionError)
    ensures
        r.message@ == "Failed to execute command: "@ + os_error@,
{
    let mut s = String::new();
    s.append("Failed to execute command: ");
    s.append(os_error);
    CommandExecutionError::new(s)
}

/// The failure to report when the stdin payload cannot be written, carrying
/// the operating system's error text.
pub fn stdin_failure_error(os_error: &str) -> (r: CommandExecutionError)
    ensures
        r.message@ == "Failed to write to stdin: "@ + os_error@,
{
    let mut s = String::new();
    s.append("Failed to write to stdin: ");
    s.append(os_error);
    CommandExecutionError::new(s)
}

/// Checks the destination pairing an invocation must respect: the capture
/// handles are given together or not at all, and so are the relay handles.
/// Returns the failure the embedding layer has always raised for a lone
/// handle, naming the capture pair first.
pub fn check_destination_pairing(
    stdout_fd: Option<i32>,
    stderr_fd: Option<i32>,
    sys_stdout_fd: Option<i32>,
    sys_stderr_fd: Option<i32>,
) -> (r: Result<(), CommandExecutionError>)
    ensures
        r is Ok <==> ((stdout_fd is Some <==> stderr_fd is Some) && (sys_stdout_fd is Some
            <==> sys_stderr_fd is Some)),
        !(stdout_fd is Some <==> stderr_fd is Some) ==> (r matches Err(e) && e.message@
            == "Both stdout_fd and stderr_fd must be provided together"@),
        ((stdout_fd is Some <==> stderr_fd is Some) && !(sys_stdout_fd is Some
            <==> sys_stderr_fd is Some)) ==> (r matches Err(e) && e.message@
            == "Both sys_stdout_fd and sys_stderr_fd must be provided together"@),
{
    if stdout_fd.is_some() != stderr_fd.is_some() {
        let mut m = String::new();
        m.append("Both stdout_fd and stderr_fd must be provided together");
        return Err(CommandExecutionError::new(m));
    }
    if sys_stdout_fd.is_some() != sys_stderr_fd.is_some() {
        let mut m = String::new();
        m.append("Both sys_stdout_fd and sys_stderr_fd must be provided together");
        return Err(CommandExecutionError::new(m));
    }
    Ok(())
}

/// The failure, if any, that a poll decision reports: each timeout decision
/// becomes its own failure kind carrying the budget's message, a failed wait
/// becomes an execution failure, and the other decisions carry none. Exactly
/// one failure kind is possible per decision.
pub fn failure_for_decision(d: PollDecision) -> (r: Option<CommandFailure>)
    ensures
        match d {
            PollDecision::Complete(_) => r is None,
            PollDecision::KeepWaiting => r is None,
            PollDecision::KillTimeout(ms) => r matches Some(CommandFailure::Timeout(e))
                && e.message@ == spec_timeout_message(ms),
            PollDecision::KillNoOutput(ms) => r matches Some(CommandFailure::NoOutput(e))
                && e.message@ == spec_no_output_message(ms),
            PollDecision::FailWait(m) => r matches Some(CommandFailure::Execution(e))
                && e.message@ == "Failed to wait for process: "@ + m@,
        },
{
    match d {
        PollDecision::Complete(_) => None,
        PollDecision::KeepWaiting => None,
        PollDecision::KillTimeout(ms) => Some(
            CommandFailure::Timeout(CommandTimeoutExceededError::new(timeout_message(ms))),
        ),
        PollDecision::KillNoOutput(ms) => Some(
            CommandFailure::NoOutput(CommandNoOutputTimeoutError::new(no_output_message(ms))),
        ),
        PollDecision::FailWait(m) => {
            let mut s = String::new();
            s.append("Failed to wait for process: ");
            s.append(m.as_str());
            Some(CommandFailure::Execution(CommandExecutionError::new(s)))
        },
    }
}

} // verus!
