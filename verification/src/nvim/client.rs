//! Opening files in a running Neovim through `nvr`.
use vstd::prelude::*;

use super::types::NvimInstance;
use crate::materializer::MaterializedPath;
use crate::number::{decimal, decimal_exec};
use crate::text::{chars_of, concat, string_of};

verus! {

/// An error reported by `nvr`.
#[derive(Debug, Clone)]
pub struct NvrError {
    pub message: String,
}

/// Runs `nvr` (neovim-remote) with the given arguments.
pub trait NvrCommandExecutor {
    fn run(&self, args: &[&str]) -> Result<(), NvrError>;
}

/// Opens targets in Neovim instances.
pub trait NeovimClient {
    fn open(&self, instance: &NvimInstance, target: &MaterializedPath) -> Result<(), NvrError>;
}

/// The keys that make Neovim edit a file at a line (1 when unknown):
/// `<Esc>:edit +<line> <file><CR>`.
pub open spec fn edit_keys(line: Option<u32>, absolute: Seq<char>) -> Seq<char> {
    "<Esc>:edit +"@ + decimal(
        match line {
            Some(l) => l as nat,
            None => 1,
        },
    ) + seq![' '] + absolute + "<CR>"@
}

/// A Neovim client that sends keys through `nvr`.
pub struct NvrClient<E: NvrCommandExecutor> {
    pub executor: E,
}

impl<E: NvrCommandExecutor> NvrClient<E> {
    /// A client that runs `nvr` through `executor`.
    pub fn new(executor: E) -> (r: Self)
        ensures
            r.executor == executor,
    {
        Self { executor }
    }

    /// A client that runs `nvr` through `executor`.
    pub fn with_executor(executor: E) -> (r: Self)
        ensures
            r.executor == executor,
    {
        Self { executor }
    }

    /// The keys sent to open `target`.
    pub fn edit_command(target: &MaterializedPath) -> (r: String)
        ensures
            r@ == edit_keys(target.line, target.absolute@),
    {
        let line: u32 = match target.line {
            Some(l) => l,
            None => 1,
        };
        let space = vec![' '];
        assert(space@ =~= seq![' ']);
        let a = concat(&chars_of("<Esc>:edit +"), &decimal_exec(line));
        let b = concat(&a, &space);
        let c = concat(&b, &chars_of(target.absolute.as_str()));
        string_of(&concat(&c, &chars_of("<CR>")))
    }
}

/// The `nvr` arguments that send the edit keys to an instance:
/// `--servername <address> --remote-send <keys>`.
pub open spec fn nvr_args_of(address: Seq<char>, line: Option<u32>, absolute: Seq<char>) -> Seq<Seq<char>> {
    seq!["--servername"@, address, "--remote-send"@, edit_keys(line, absolute)]
}

impl<E: NvrCommandExecutor> NvrClient<E> {
    /// The `nvr` arguments that open `target` in `instance`.
    pub fn nvr_args(instance: &NvimInstance, target: &MaterializedPath) -> (r: Vec<String>)
        ensures
            Seq::new(r@.len(), |j: int| r@[j]@) == nvr_args_of(instance.address@, target.line, target.absolute@),
    {
        let r = vec![
            "--servername".to_owned(),
            instance.address.clone(),
            "--remote-send".to_owned(),
            Self::edit_command(target),
        ];
        assert(Seq::new(r@.len(), |j: int| r@[j]@) =~= nvr_args_of(
            instance.address@,
            target.line,
            target.absolute@,
        ));
        r
    }
}

impl<E: NvrCommandExecutor> NeovimClient for NvrClient<E> {
    /// Runs `nvr` with `nvr_args` and returns what the executor returns (an
    /// outside value: the executor is implemented by the library's users).
    fn open(&self, instance: &NvimInstance, target: &MaterializedPath) -> Result<(), NvrError> {
        let args = Self::nvr_args(instance, target);
        assert(Seq::new(args@.len(), |j: int| args@[j]@).len() == 4);
        self.executor.run(
            &[args[0].as_str(), args[1].as_str(), args[2].as_str(), args[3].as_str()],
        )
    }
}

} // verus!
