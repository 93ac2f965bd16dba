use vstd::prelude::*;
use crate::environ::{ambient_map, EnvMap};
use crate::native::{first_nul_at, representable, NativeString, StringConversionError};
use crate::stdio::Stdio;

verus! {

/// What a launch descriptor says, as mathematical values.
///
/// `environment` is `None` while the child is to inherit the ambient
/// environment unchanged, and `Some` of a mapping once the caller has
/// changed or cleared it. An absent working directory or stream leaves the
/// choice to whoever spawns the process.
pub struct CommandView {
    pub program: Seq<u8>,
    pub arguments: Seq<Seq<u8>>,
    pub environment: Option<Map<Seq<u8>, Seq<u8>>>,
    pub working_directory: Option<Seq<u8>>,
    pub stdin: Option<Stdio>,
    pub stdout: Option<Stdio>,
    pub stderr: Option<Stdio>,
}

impl CommandView {
    /// The descriptor right after construction.
    pub open spec fn initial(program: Seq<u8>) -> CommandView {
        CommandView {
            program,
            arguments: seq![program],
            environment: None,
            working_directory: None,
            stdin: None,
            stdout: None,
            stderr: None,
        }
    }

    /// The argument list starts with the program, and every stored string
    /// has a native form.
    pub open spec fn valid(self) -> bool {
        &&& self.arguments.len() > 0
        &&& self.arguments[0] == self.program
        &&& forall|i: int| 0 <= i < self.arguments.len() ==> representable(#[trigger] self.arguments[i])
        &&& self.working_directory matches Some(d) ==> representable(d)
    }

    /// One more argument at the end.
    pub open spec fn with_arg(self, a: Seq<u8>) -> CommandView {
        CommandView { arguments: self.arguments.push(a), ..self }
    }

    /// Several more arguments at the end, in their order.
    pub open spec fn with_args(self, xs: Seq<Seq<u8>>) -> CommandView {
        CommandView { arguments: self.arguments + xs, ..self }
    }

    /// The mapping the child would get if it were spawned now.
    pub open spec fn effective_env(self, ambient: Map<Seq<u8>, Seq<u8>>) -> Map<Seq<u8>, Seq<u8>> {
        match self.environment {
            Some(m) => m,
            None => ambient,
        }
    }

    /// The environment becomes a mapping of its own: a snapshot of the
    /// ambient one if it was still inherited, else what it already was.
    pub open spec fn materialized(self, ambient: Map<Seq<u8>, Seq<u8>>) -> CommandView {
        CommandView { environment: Some(self.effective_env(ambient)), ..self }
    }

    /// `k` is set to `v` on top of the materialized environment.
    pub open spec fn with_env(self, ambient: Map<Seq<u8>, Seq<u8>>, k: Seq<u8>, v: Seq<u8>) -> CommandView {
        CommandView { environment: Some(self.effective_env(ambient).insert(k, v)), ..self }
    }

    /// `k` is taken out of the materialized environment.
    pub open spec fn without_env(self, ambient: Map<Seq<u8>, Seq<u8>>, k: Seq<u8>) -> CommandView {
        CommandView { environment: Some(self.effective_env(ambient).remove(k)), ..self }
    }

    /// The environment becomes the empty mapping.
    pub open spec fn with_env_cleared(self) -> CommandView {
        CommandView { environment: Some(Map::empty()), ..self }
    }

    /// The working directory is overridden.
    pub open spec fn with_current_dir(self, d: Seq<u8>) -> CommandView {
        CommandView { working_directory: Some(d), ..self }
    }

    /// Standard input is overridden.
    pub open spec fn with_stdin(self, cfg: Stdio) -> CommandView {
        CommandView { stdin: Some(cfg), ..self }
    }

    /// Standard output is overridden.
    pub open spec fn with_stdout(self, cfg: Stdio) -> CommandView {
        CommandView { stdout: Some(cfg), ..self }
    }

    /// Standard error is overridden.
    pub open spec fn with_stderr(self, cfg: Stdio) -> CommandView {
        CommandView { stderr: Some(cfg), ..self }
    }
}

/// The byte strings of a list of slices.
pub open spec fn slices_view(xs: Seq<&[u8]>) -> Seq<Seq<u8>> {
    Seq::new(xs.len(), |i: int| xs[i]@)
}

/// `i` is the index of the first string of `xs` without a native form.
pub open spec fn first_unrepresentable_at(xs: Seq<Seq<u8>>, i: int) -> bool {
    &&& 0 <= i < xs.len()
    &&& !representable(xs[i])
    &&& forall|j: int| 0 <= j < i ==> representable(#[trigger] xs[j])
}

/// Every string of `xs` has a native form.
pub open spec fn all_representable(xs: Seq<Seq<u8>>) -> bool {
    forall|i: int| 0 <= i < xs.len() ==> representable(#[trigger] xs[i])
}

/// A launch descriptor: what to run and how, gathered before any process
/// exists.
#[derive(Debug)]
pub struct Command {
    filename: NativeString,
    args: Vec<NativeString>,
    environ: Option<EnvMap>,
    work_dir: Option<NativeString>,
    stdin: Option<Stdio>,
    stdout: Option<Stdio>,
    stderr: Option<Stdio>,
}

impl Command {
    /// What the descriptor says.
    pub closed spec fn view(&self) -> CommandView {
        CommandView {
            program: self.filename@,
            arguments: Seq::new(self.args@.len(), |i: int| self.args@[i]@),
            environment: match self.environ {
                Some(m) => Some(m@),
                None => None,
            },
            working_directory: match self.work_dir {
                Some(d) => Some(d@),
                None => None,
            },
            stdin: self.stdin,
            stdout: self.stdout,
            stderr: self.stderr,
        }
    }

    /// The stored environment mapping, if any, holds no name twice.
    pub closed spec fn env_wf(&self) -> bool {
        self.environ matches Some(m) ==> m.wf()
    }

    /// The invariant of every descriptor that this crate hands out.
    pub open spec fn wf(&self) -> bool {
        &&& self.env_wf()
        &&& self@.valid()
    }

    /// A descriptor for launching `program`: no further arguments, the
    /// environment inherited, no working directory and no stream overridden.
    /// Fails exactly when `program` holds a NUL byte.
    pub fn new(program: &[u8]) -> (ret: Result<Command, StringConversionError>)
        ensures
            ret is Ok <==> representable(program@),
            match ret {
                Ok(c) => c.wf() && c@ == CommandView::initial(program@),
                Err(e) => first_nul_at(program@, e.position as int),
            },
    {
        let filename = match NativeString::from_bytes(program) {
            Ok(n) => n,
            Err(e) => {
                return Err(e);
            },
        };
        let first = filename.duplicate();
        let mut args: Vec<NativeString> = Vec::new();
        args.push(first);
        let c = Command {
            filename,
            args,
            environ: None,
            work_dir: None,
            stdin: None,
            stdout: None,
            stderr: None,
        };
        proof {
            assert(c@.arguments =~= seq![program@]);
        }
        Ok(c)
    }

    /// Adds one argument at the end. Fails, and changes nothing, exactly
    /// when `arg` holds a NUL byte.
    pub fn arg(&mut self, arg: &[u8]) -> (ret: Result<&mut Command, StringConversionError>)
        requires
            old(self).wf(),
        ensures
            ret is Ok <==> representable(arg@),
            match ret {
                Ok(r) => r.wf() && r@ == old(self)@.with_arg(arg@) && *final(self) == *final(r),
                Err(e) => first_nul_at(arg@, e.position as int) && *final(self) == *old(self),
            },
    {
        let converted = match NativeString::from_bytes(arg) {
            Ok(n) => n,
            Err(e) => {
                return Err(e);
            },
        };
        self.args.push(converted);
        proof {
            assert(self@.arguments =~= old(self)@.arguments.push(arg@));
        }
        Ok(self)
    }

    /// Adds several arguments at the end, in their order; where it succeeds
    /// it does what one call of `arg` for each would. Fails exactly when one
    /// of them holds a NUL byte: then none is added, and the error tells of
    /// the first such one.
    pub fn args(&mut self, args: &[&[u8]]) -> (ret: Result<&mut Command, StringConversionError>)
        requires
            old(self).wf(),
        ensures
            ret is Ok <==> all_representable(slices_view(args@)),
            match ret {
                Ok(r) => r.wf() && r@ == old(self)@.with_args(slices_view(args@)) && *final(self)
                    == *final(r),
                Err(e) => *final(self) == *old(self) && exists|i: int|
                    first_unrepresentable_at(slices_view(args@), i) && first_nul_at(
                        #[trigger] slices_view(args@)[i],
                        e.position as int,
                    ),
            },
    {
        let ghost xs = slices_view(args@);
        let mut converted: Vec<NativeString> = Vec::new();
        let mut i: usize = 0;
        while i < args.len()
            invariant
                0 <= i <= args@.len(),
                xs == slices_view(args@),
                converted@.len() == i,
                forall|j: int| 0 <= j < i ==> (#[trigger] converted@[j])@ == xs[j],
                forall|j: int| 0 <= j < i ==> representable(#[trigger] xs[j]),
            decreases args.len() - i,
        {
            match NativeString::from_bytes(args[i]) {
                Ok(n) => {
                    converted.push(n);
                },
                Err(e) => {
                    proof {
                        assert(first_nul_at(xs[i as int], e.position as int));
                    }
                    return Err(e);
                },
            }
            i += 1;
        }
        self.args.append(&mut converted);
        proof {
            assert(self@.arguments =~= old(self)@.arguments + xs);
        }
        Ok(self)
    }

    /// Turns an inherited environment into a mapping of its own, filled from
    /// `ambient`, the variables of the calling process. Does nothing where
    /// the environment was changed or cleared before.
    pub fn init_env_map(&mut self, ambient: &[(Vec<u8>, Vec<u8>)])
        requires
            old(self).wf(),
        ensures
            final(self).wf(),
            final(self)@ == old(self)@.materialized(ambient_map(ambient@)),
    {
        if self.environ.is_none() {
            self.environ = Some(EnvMap::from_pairs(ambient));
        }
    }

    /// Sets the variable `key` to `val`, on top of the ambient variables
    /// where the environment was inherited until now. Fails, and changes
    /// nothing, exactly when `key` or `val` holds a NUL byte.
    pub fn env(&mut self, key: &[u8], val: &[u8], ambient: &[(Vec<u8>, Vec<u8>)]) -> (ret: Result<
        &mut Command,
        StringConversionError,
    >)
        requires
            old(self).wf(),
        ensures
            ret is Ok <==> representable(key@) && representable(val@),
            match ret {
                Ok(r) => r.wf() && r@ == old(self)@.with_env(ambient_map(ambient@), key@, val@)
                    && *final(self) == *final(r),
                Err(e) => *final(self) == *old(self) && if representable(key@) {
                    first_nul_at(val@, e.position as int)
                } else {
                    first_nul_at(key@, e.position as int)
                },
            },
    {
        let k = match NativeString::from_bytes(key) {
            Ok(n) => n,
            Err(e) => {
                return Err(e);
            },
        };
        let v = match NativeString::from_bytes(val) {
            Ok(n) => n,
            Err(e) => {
                return Err(e);
            },
        };
        self.init_env_map(ambient);
        if let Some(m) = &mut self.environ {
            m.insert(k.into_bytes(), v.into_bytes());
        }
        Ok(self)
    }

    /// Takes the variable `key` out, on top of the ambient variables where
    /// the environment was inherited until now. A name that is not set
    /// changes nothing more.
    pub fn env_remove(&mut self, key: &[u8], ambient: &[(Vec<u8>, Vec<u8>)]) -> (ret: &mut Command)
        requires
            old(self).wf(),
        ensures
            ret.wf(),
            ret@ == old(self)@.without_env(ambient_map(ambient@), key@),
            *final(self) == *final(ret),
    {
        self.init_env_map(ambient);
        if let Some(m) = &mut self.environ {
            m.remove(key);
        }
        self
    }

    /// Gives the child an empty environment, whatever was set before and
    /// whatever the ambient variables are.
    pub fn env_clear(&mut self) -> (ret: &mut Command)
        requires
            old(self).wf(),
        ensures
            ret.wf(),
            ret@ == old(self)@.with_env_cleared(),
            *final(self) == *final(ret),
    {
        self.environ = Some(EnvMap::new());
        self
    }

    /// Sets the working directory of the child. Where the spawning side also
    /// changes the root directory, the path is meant inside the new root.
    /// Fails, and changes nothing, exactly when `dir` holds a NUL byte.
    pub fn current_dir(&mut self, dir: &[u8]) -> (ret: Result<&mut Command, StringConversionError>)
        requires
            old(self).wf(),
        ensures
            ret is Ok <==> representable(dir@),
            match ret {
                Ok(r) => r.wf() && r@ == old(self)@.with_current_dir(dir@) && *final(self)
                    == *final(r),
                Err(e) => first_nul_at(dir@, e.position as int) && *final(self) == *old(self),
            },
    {
        let converted = match NativeString::from_bytes(dir) {
            Ok(n) => n,
            Err(e) => {
                return Err(e);
            },
        };
        self.work_dir = Some(converted);
        Ok(self)
    }

    /// Overrides the child's standard input.
    pub fn stdin(&mut self, cfg: Stdio) -> (ret: &mut Command)
        requires
            old(self).wf(),
        ensures
            ret.wf(),
            ret@ == old(self)@.with_stdin(cfg),
            *final(self) == *final(ret),
    {
        self.stdin = Some(cfg);
        self
    }

    /// Overrides the child's standard output.
    pub fn stdout(&mut self, cfg: Stdio) -> (ret: &mut Command)
        requires
            old(self).wf(),
        ensures
            ret.wf(),
            ret@ == old(self)@.with_stdout(cfg),
            *final(self) == *final(ret),
    {
        self.stdout = Some(cfg);
        self
    }

    /// Overrides the child's standard error.
    pub fn stderr(&mut self, cfg: Stdio) -> (ret: &mut Command)
        requires
            old(self).wf(),
        ensures
            ret.wf(),
            ret@ == old(self)@.with_stderr(cfg),
            *final(self) == *final(ret),
    {
        self.stderr = Some(cfg);
        self
    }

    /// The program to run, in native form.
    pub fn program(&self) -> (ret: &[u8])
        ensures
            ret@ == self@.program,
    {
        self.filename.as_bytes()
    }

    /// The argument list, the program's own name first.
    pub fn arguments(&self) -> (ret: &Vec<NativeString>)
        ensures
            ret@.len() == self@.arguments.len(),
            forall|i: int| 0 <= i < ret@.len() ==> (#[trigger] ret@[i])@ == self@.arguments[i],
    {
        &self.args
    }

    /// The environment mapping, or `None` while the ambient environment is
    /// inherited unchanged.
    pub fn environ(&self) -> (ret: Option<&EnvMap>)
        requires
            self.wf(),
        ensures
            match ret {
                Some(m) => m.wf() && self@.environment == Some(m@),
                None => self@.environment is None,
            },
    {
        match &self.environ {
            Some(m) => Some(m),
            None => None,
        }
    }

    /// The mapping the child would get if it were spawned now, with
    /// `ambient` as the variables of the calling process.
    pub fn effective_env(&self, ambient: &[(Vec<u8>, Vec<u8>)]) -> (ret: EnvMap)
        requires
            self.wf(),
        ensures
            ret.wf(),
            ret@ == self@.effective_env(ambient_map(ambient@)),
    {
        match &self.environ {
            Some(m) => {
                let pairs = m.to_pairs();
                EnvMap::from_pairs(pairs.as_slice())
            },
            None => EnvMap::from_pairs(ambient),
        }
    }

    /// The working directory override, if any.
    pub fn work_dir(&self) -> (ret: Option<&[u8]>)
        ensures
            match ret {
                Some(d) => self@.working_directory == Some(d@),
                None => self@.working_directory is None,
            },
    {
        match &self.work_dir {
            Some(d) => Some(d.as_bytes()),
            None => None,
        }
    }

    /// The override of standard input, if any.
    pub fn stdin_config(&self) -> (ret: Option<Stdio>)
        ensures
            ret == self@.stdin,
    {
        self.stdin
    }

    /// The override of standard output, if any.
    pub fn stdout_config(&self) -> (ret: Option<Stdio>)
        ensures
            ret == self@.stdout,
    {
        self.stdout
    }

    /// The override of standard error, if any.
    pub fn stderr_config(&self) -> (ret: Option<Stdio>)
        ensures
            ret == self@.stderr,
    {
        self.stderr
    }
}

} // verus!
