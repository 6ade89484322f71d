//! The environment of a project, built when it is first asked for and kept
//! from then on in a cell of `try_lazy_init`.

use vstd::prelude::*;
use try_lazy_init::Lazy;
use crate::env::resolved;
use crate::env::Env;
use crate::env::EnvError;

verus! {

/// The cell of `try_lazy_init`, carried through as it is.
#[verifier::external_type_specification]
#[verifier::external_body]
#[verifier::reject_recursive_types(T)]
pub struct ExLazy<T>(try_lazy_init::Lazy<T>);

/// What a cell holds: nothing, or the environment that it was filled with.
pub uninterp spec fn held(cell: Lazy<Env>) -> Option<Map<Seq<char>, Seq<char>>>;

/// `Lazy::new`. Trusted: the new cell holds nothing.
#[verifier::external_body]
fn lazy_new() -> (cell: Lazy<Env>)
    ensures
        held(cell) is None,
{
    Lazy::new()
}

/// `Lazy::get`. Trusted: it hands out what the cell holds, and nothing where
/// the cell holds nothing.
#[verifier::external_body]
fn lazy_get(cell: &Lazy<Env>) -> (env: Option<&Env>)
    ensures
        env matches Some(e) ==> held(*cell) == Some(e@),
        env is None ==> held(*cell) is None,
{
    cell.get()
}

/// `Lazy::try_get_or_create`, with [`Env::resolve`] as what fills the cell.
/// Trusted: a cell that holds an environment hands it out and stays as it
/// is, and nothing is resolved; a cell that holds nothing is filled with
/// what `Env::resolve` returns, and hands that out. The outside function
/// fails only where what fills the cell fails, and `Env::resolve` does not.
#[verifier::external_body]
fn lazy_get_or_resolve<'a>(
    cell: &'a mut Lazy<Env>,
    name: &str,
    root: &str,
    sdk_path: &Option<String>,
    process: &Vec<(String, String)>,
) -> (r: Result<&'a Env, EnvError>)
    ensures
        r is Ok,
        r matches Ok(env) ==> held(*final(cell)) == Some(env@),
        held(*old(cell)) is Some ==> held(*final(cell)) == held(*old(cell)),
        held(*old(cell)) is None ==> held(*final(cell)) == Some(
            resolved(name@, root@, sdk_path.deep_view(), process.deep_view()),
        ),
{
    cell.try_get_or_create(|| Env::resolve(name, root, sdk_path, process))
}

/// Builds the environment of a project when it is first asked for, and keeps
/// it from then on.
#[derive(Debug)]
pub struct LazyEnvBuilder {
    name: String,
    root: String,
    sdk_path: Option<String>,
    env: Lazy<Env>,
}

/// What a [`LazyEnvBuilder`] is in contracts.
pub struct LazyEnvBuilderView {
    /// The name of the package.
    pub name: Seq<char>,
    /// The directory of the manifest.
    pub root: Seq<char>,
    /// The path of the SDK, where one is configured.
    pub sdk_path: Option<Seq<char>>,
    /// The environment, once it was built.
    pub env: Option<Map<Seq<char>, Seq<char>>>,
}

impl View for LazyEnvBuilder {
    type V = LazyEnvBuilderView;

    closed spec fn view(&self) -> LazyEnvBuilderView {
        LazyEnvBuilderView {
            name: self.name@,
            root: self.root@,
            sdk_path: self.sdk_path.deep_view(),
            env: held(self.env),
        }
    }
}

impl LazyEnvBuilder {
    /// A builder for the project named `name` whose manifest lies in `root`.
    /// Nothing is built yet.
    pub fn new(name: String, root: String, sdk_path: Option<String>) -> (builder: LazyEnvBuilder)
        ensures
            builder@ == (LazyEnvBuilderView {
                name: name@,
                root: root@,
                sdk_path: sdk_path.deep_view(),
                env: None,
            }),
    {
        LazyEnvBuilder { name, root, sdk_path, env: lazy_new() }
    }

    /// The environment, if it was built already.
    pub fn peek(&self) -> (env: Option<&Env>)
        ensures
            match env {
                Some(e) => self@.env == Some(e@),
                None => self@.env is None,
            },
    {
        lazy_get(&self.env)
    }

    /// The environment of the project. It is built on the first call, from
    /// the project's own variables and from those in `process` that the
    /// project does not set; later calls return what was built then and do
    /// not look at `process`. Every call succeeds.
    pub fn get(&mut self, process: &Vec<(String, String)>) -> (r: Result<&Env, EnvError>)
        ensures
            r is Ok,
            r matches Ok(env) ==> final(self)@.env == Some(env@),
            final(self)@.name == old(self)@.name,
            final(self)@.root == old(self)@.root,
            final(self)@.sdk_path == old(self)@.sdk_path,
            old(self)@.env is Some ==> final(self)@.env == old(self)@.env,
            old(self)@.env is None ==> final(self)@.env == Some(
                resolved(
                    old(self)@.name,
                    old(self)@.root,
                    old(self)@.sdk_path,
                    process.deep_view(),
                ),
            ),
    {
        lazy_get_or_resolve(
            &mut self.env,
            self.name.as_str(),
            self.root.as_str(),
            &self.sdk_path,
            process,
        )
    }
}

} // verus!
