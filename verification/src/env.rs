//! The variables under which asset rules are evaluated: those of the project
//! first, and those of the process wherever the project does not set one.

use vstd::prelude::*;
use crate::order::str_eq;

verus! {

/// A pair of a variable's name and its value, in contracts.
pub type VarView = (Seq<char>, Seq<char>);

/// The name of the variable that holds the name of the package.
pub open spec fn pkg_name_var() -> Seq<char> {
    "CARGO_PKG_NAME"@
}

/// The name of the variable that holds the directory of the manifest.
pub open spec fn manifest_dir_var() -> Seq<char> {
    "CARGO_MANIFEST_DIR"@
}

/// The name of the variable that holds the path of the SDK.
pub open spec fn sdk_path_var() -> Seq<char> {
    "PLAYDATE_SDK_PATH"@
}

/// The mapping that a list of pairs stands for: of two pairs with one name,
/// the later one counts.
pub open spec fn map_of(pairs: Seq<VarView>) -> Map<Seq<char>, Seq<char>>
    decreases pairs.len(),
{
    if pairs.len() == 0 {
        Map::empty()
    } else {
        map_of(pairs.drop_last()).insert(pairs.last().0, pairs.last().1)
    }
}

/// `base`, with each pair of `more` added, in order, whose name is not yet
/// there.
pub open spec fn filled(base: Map<Seq<char>, Seq<char>>, more: Seq<VarView>) -> Map<
    Seq<char>,
    Seq<char>,
>
    decreases more.len(),
{
    if more.len() == 0 {
        base
    } else {
        let sofar = filled(base, more.drop_last());
        if sofar.contains_key(more.last().0) {
            sofar
        } else {
            sofar.insert(more.last().0, more.last().1)
        }
    }
}

/// No name occurs twice.
pub open spec fn distinct_keys(pairs: Seq<VarView>) -> bool {
    forall|i: int, j: int| 0 <= i < j < pairs.len() ==> pairs[i].0 != pairs[j].0
}

/// Why the variables could not be assembled.
#[derive(Debug, PartialEq, Eq)]
pub enum EnvError {
    /// A variable that must be there is not.
    Missing(String),
}

/// What an [`EnvError`] is in contracts.
pub enum EnvErrorView {
    Missing(Seq<char>),
}

impl View for EnvError {
    type V = EnvErrorView;

    open spec fn view(&self) -> EnvErrorView {
        match *self {
            EnvError::Missing(name) => EnvErrorView::Missing(name@),
        }
    }
}

impl DeepView for EnvError {
    type V = EnvErrorView;

    open spec fn deep_view(&self) -> EnvErrorView {
        self.view()
    }
}

/// What assembling an environment from the given pairs comes to: a list
/// without the package name is refused, then one without the manifest
/// directory; else the pairs make the environment.
pub open spec fn assembled(pairs: Seq<VarView>) -> Result<Map<Seq<char>, Seq<char>>, EnvErrorView> {
    if !map_of(pairs).contains_key(pkg_name_var()) {
        Err(EnvErrorView::Missing(pkg_name_var()))
    } else if !map_of(pairs).contains_key(manifest_dir_var()) {
        Err(EnvErrorView::Missing(manifest_dir_var()))
    } else {
        Ok(map_of(pairs))
    }
}

/// The pairs that a project sets by itself: its name, the directory of its
/// manifest, and the path of the SDK where one is configured.
pub open spec fn project_vars(name: Seq<char>, root: Seq<char>, sdk_path: Option<Seq<char>>) -> Seq<
    VarView,
> {
    let fixed = seq![(pkg_name_var(), name), (manifest_dir_var(), root)];
    match sdk_path {
        Some(path) => fixed.push((sdk_path_var(), path)),
        None => fixed,
    }
}

/// The environment of a project under the variables `process` of the process:
/// the project's own pairs, and each pair of the process whose name is not
/// yet set.
pub open spec fn resolved(
    name: Seq<char>,
    root: Seq<char>,
    sdk_path: Option<Seq<char>>,
    process: Seq<VarView>,
) -> Map<Seq<char>, Seq<char>> {
    filled(map_of(project_vars(name, root, sdk_path)), process)
}

/// What is set before stays as it is, and what is added is what was missing:
/// a name is set afterwards if and only if it was set before or is the name
/// of one of the added pairs, and a name that was set before keeps its value.
pub proof fn lemma_filled_precedence(
    base: Map<Seq<char>, Seq<char>>,
    more: Seq<VarView>,
    key: Seq<char>,
)
    ensures
        base.contains_key(key) ==> filled(base, more).contains_key(key) && filled(base, more)[key]
            == base[key],
        filled(base, more).contains_key(key) <==> base.contains_key(key) || exists|i: int|
            0 <= i < more.len() && more[i].0 == key,
    decreases more.len(),
{
    if more.len() > 0 {
        let before = more.drop_last();
        lemma_filled_precedence(base, before, key);
        if exists|i: int| 0 <= i < before.len() && before[i].0 == key {
            let i = choose|i: int| 0 <= i < before.len() && before[i].0 == key;
            assert(more[i].0 == key);
        }
        if exists|i: int| 0 <= i < more.len() && more[i].0 == key {
            let i = choose|i: int| 0 <= i < more.len() && more[i].0 == key;
            if i < more.len() - 1 {
                assert(before[i].0 == key);
            }
        }
        if more.last().0 == key {
            assert(more[more.len() - 1].0 == key);
        }
    }
}

/// Replacing the value of a name that occurs once replaces it in the mapping.
proof fn lemma_map_of_update(pairs: Seq<VarView>, i: int, value: Seq<char>)
    requires
        distinct_keys(pairs),
        0 <= i < pairs.len(),
    ensures
        map_of(pairs.update(i, (pairs[i].0, value))) == map_of(pairs).insert(pairs[i].0, value),
        distinct_keys(pairs.update(i, (pairs[i].0, value))),
    decreases pairs.len(),
{
    let key = pairs[i].0;
    let changed = pairs.update(i, (key, value));
    if i == pairs.len() - 1 {
        assert(changed.drop_last() =~= pairs.drop_last());
        assert(map_of(changed) =~= map_of(pairs).insert(key, value));
    } else {
        assert(changed.drop_last() =~= pairs.drop_last().update(i, (key, value)));
        assert(distinct_keys(pairs.drop_last()));
        lemma_map_of_update(pairs.drop_last(), i, value);
        assert(pairs.last().0 != key);
        assert(changed.last() == pairs.last());
        assert(map_of(changed) =~= map_of(pairs).insert(key, value));
    }
}

/// The names of the mapping are the names of the pairs.
proof fn lemma_map_of_keys(pairs: Seq<VarView>, key: Seq<char>)
    ensures
        map_of(pairs).contains_key(key) <==> exists|i: int|
            0 <= i < pairs.len() && pairs[i].0 == key,
    decreases pairs.len(),
{
    if pairs.len() > 0 {
        lemma_map_of_keys(pairs.drop_last(), key);
        if map_of(pairs).contains_key(key) {
            if pairs.last().0 == key {
                assert(pairs[pairs.len() - 1].0 == key);
            } else {
                let i = choose|i: int|
                    0 <= i < pairs.drop_last().len() && pairs.drop_last()[i].0 == key;
                assert(pairs[i].0 == key);
            }
        }
        if exists|i: int| 0 <= i < pairs.len() && pairs[i].0 == key {
            let i = choose|i: int| 0 <= i < pairs.len() && pairs[i].0 == key;
            if i < pairs.len() - 1 {
                assert(pairs.drop_last()[i].0 == key);
            }
        }
    }
}

/// The position in `vars` of the pair named `key`, if there is one.
fn position(vars: &Vec<(String, String)>, key: &str) -> (at: Option<usize>)
    ensures
        match at {
            Some(i) => i < vars.len() && vars.deep_view()[i as int].0 == key@,
            None => forall|k: int| 0 <= k < vars.len() ==> vars.deep_view()[k].0 != key@,
        },
{
    let mut i: usize = 0;
    while i < vars.len()
        invariant
            i <= vars.len(),
            forall|k: int| 0 <= k < i ==> vars.deep_view()[k].0 != key@,
        decreases vars.len() - i,
    {
        if str_eq(vars[i].0.as_str(), key) {
            return Some(i);
        }
        i += 1;
    }
    None
}

/// A mapping from the names of variables to their values.
#[derive(Debug, PartialEq, Eq)]
pub struct Env {
    vars: Vec<(String, String)>,
}

impl View for Env {
    type V = Map<Seq<char>, Seq<char>>;

    closed spec fn view(&self) -> Map<Seq<char>, Seq<char>> {
        map_of(self.vars.deep_view())
    }
}

impl Env {
    #[verifier::type_invariant]
    spec fn no_name_twice(&self) -> bool {
        distinct_keys(self.vars.deep_view())
    }

    /// The environment without any variable.
    pub fn new() -> (env: Env)
        ensures
            env@ == Map::<Seq<char>, Seq<char>>::empty(),
    {
        let vars: Vec<(String, String)> = Vec::new();
        assert(vars.deep_view() =~= Seq::<VarView>::empty());
        Env { vars }
    }

    /// Whether a variable named `key` is set.
    pub fn contains_key(&self, key: &str) -> (found: bool)
        ensures
            found == self@.contains_key(key@),
    {
        proof {
            lemma_map_of_keys(self.vars.deep_view(), key@);
        }
        position(&self.vars, key).is_some()
    }

    /// The value of the variable named `key`, if it is set.
    pub fn get(&self, key: &str) -> (value: Option<&String>)
        ensures
            match value {
                Some(v) => self@.contains_key(key@) && self@[key@] == v@,
                None => !self@.contains_key(key@),
            },
    {
        proof {
            use_type_invariant(self);
            lemma_map_of_keys(self.vars.deep_view(), key@);
        }
        match position(&self.vars, key) {
            Some(i) => {
                proof {
                    let pairs = self.vars.deep_view();
                    lemma_map_of_update(pairs, i as int, pairs[i as int].1);
                    assert(pairs.update(i as int, pairs[i as int]) =~= pairs);
                }
                Some(&self.vars[i].1)
            },
            None => None,
        }
    }

    /// Sets the variable named `key` to `value`, in place of an earlier value.
    pub fn insert(&mut self, key: String, value: String)
        ensures
            final(self)@ == old(self)@.insert(key@, value@),
    {
        proof {
            use_type_invariant(&*self);
        }
        let mut taken = Env::new();
        core::mem::swap(self, &mut taken);
        let mut vars = taken.vars;
        let ghost before = vars.deep_view();
        match position(&vars, key.as_str()) {
            Some(i) => {
                proof {
                    lemma_map_of_update(before, i as int, value@);
                }
                vars[i] = (key, value);
                assert(vars.deep_view() =~= before.update(i as int, (key@, value@)));
            },
            None => {
                vars.push((key, value));
                assert(vars.deep_view() =~= before.push((key@, value@)));
                assert(vars.deep_view().drop_last() =~= before);
            },
        }
        *self = Env { vars };
    }

    /// The variables as pairs of name and value, no name twice.
    pub fn vars(&self) -> (pairs: &Vec<(String, String)>)
        ensures
            map_of(pairs.deep_view()) == self@,
            distinct_keys(pairs.deep_view()),
    {
        proof {
            use_type_invariant(self);
        }
        &self.vars
    }

    /// Assembles an environment from pairs of name and value. Of two pairs
    /// with one name the later one counts. A list without the package name
    /// or the manifest directory is refused.
    pub fn try_from_iter(pairs: Vec<(String, String)>) -> (r: Result<Env, EnvError>)
        ensures
            match r {
                Ok(env) => assembled(pairs.deep_view()) == Ok::<_, EnvErrorView>(env@),
                Err(e) => assembled(pairs.deep_view()) == Err::<Map<Seq<char>, Seq<char>>, _>(e@),
            },
    {
        let mut env = Env::new();
        let mut i: usize = 0;
        assert(pairs.deep_view().take(0) =~= Seq::empty());
        while i < pairs.len()
            invariant
                i <= pairs.len(),
                env@ == map_of(pairs.deep_view().take(i as int)),
            decreases pairs.len() - i,
        {
            env.insert(pairs[i].0.clone(), pairs[i].1.clone());
            proof {
                let next = pairs.deep_view().take(i + 1);
                assert(next.drop_last() =~= pairs.deep_view().take(i as int));
                assert(next.last() == (pairs[i as int].0@, pairs[i as int].1@));
            }
            i += 1;
        }
        assert(pairs.deep_view().take(i as int) =~= pairs.deep_view());
        if !env.contains_key("CARGO_PKG_NAME") {
            return Err(EnvError::Missing(String::from_str("CARGO_PKG_NAME")));
        }
        if !env.contains_key("CARGO_MANIFEST_DIR") {
            return Err(EnvError::Missing(String::from_str("CARGO_MANIFEST_DIR")));
        }
        Ok(env)
    }

    /// Adds each pair of `more`, in order, whose name is not yet set.
    pub fn fill(&mut self, more: &Vec<(String, String)>)
        ensures
            final(self)@ == filled(old(self)@, more.deep_view()),
    {
        let mut i: usize = 0;
        assert(more.deep_view().take(0) =~= Seq::empty());
        while i < more.len()
            invariant
                i <= more.len(),
                self@ == filled(old(self)@, more.deep_view().take(i as int)),
            decreases more.len() - i,
        {
            proof {
                let next = more.deep_view().take(i + 1);
                assert(next.drop_last() =~= more.deep_view().take(i as int));
                assert(next.last() == (more[i as int].0@, more[i as int].1@));
            }
            if !self.contains_key(more[i].0.as_str()) {
                self.insert(more[i].0.clone(), more[i].1.clone());
            }
            i += 1;
        }
        assert(more.deep_view().take(i as int) =~= more.deep_view());
    }

    /// The environment of the project named `name` whose manifest lies in
    /// `root`, under the variables `process` of the process: the project's
    /// own variables, and those of the process that the project does not
    /// set. Every project has its environment, whatever the process holds.
    pub fn resolve(
        name: &str,
        root: &str,
        sdk_path: &Option<String>,
        process: &Vec<(String, String)>,
    ) -> (r: Result<Env, EnvError>)
        ensures
            r is Ok,
            r matches Ok(env) ==> env@ == resolved(
                name@,
                root@,
                sdk_path.deep_view(),
                process.deep_view(),
            ),
    {
        let mut vars: Vec<(String, String)> = Vec::new();
        vars.push((String::from_str("CARGO_PKG_NAME"), String::from_str(name)));
        vars.push((String::from_str("CARGO_MANIFEST_DIR"), String::from_str(root)));
        match sdk_path {
            Some(path) => {
                vars.push((String::from_str("PLAYDATE_SDK_PATH"), path.clone()));
            },
            None => {},
        }
        proof {
            assert(vars.deep_view() =~= project_vars(name@, root@, sdk_path.deep_view()));
            lemma_project_vars_assemble(name@, root@, sdk_path.deep_view());
        }
        let mut env = Env::try_from_iter(vars)?;
        env.fill(process);
        Ok(env)
    }
}

/// The variables that a project sets by itself always make an environment.
pub proof fn lemma_project_vars_assemble(
    name: Seq<char>,
    root: Seq<char>,
    sdk_path: Option<Seq<char>>,
)
    ensures
        assembled(project_vars(name, root, sdk_path)) == Ok::<_, EnvErrorView>(
            map_of(project_vars(name, root, sdk_path)),
        ),
{
    let vars = project_vars(name, root, sdk_path);
    lemma_map_of_keys(vars, pkg_name_var());
    lemma_map_of_keys(vars, manifest_dir_var());
    assert(vars[0].0 == pkg_name_var());
    assert(vars[1].0 == manifest_dir_var());
}

/// The project's own values win over those of the process, and every
/// variable of the process whose name the project does not set is taken:
/// the first one of each name.
pub proof fn lemma_resolved_precedence(
    name: Seq<char>,
    root: Seq<char>,
    sdk_path: Option<Seq<char>>,
    process: Seq<VarView>,
)
    ensures
        resolved(name, root, sdk_path, process)[pkg_name_var()] == name,
        resolved(name, root, sdk_path, process)[manifest_dir_var()] == root,
        sdk_path matches Some(path) ==> resolved(name, root, sdk_path, process)[sdk_path_var()]
            == path,
        sdk_path is None && (forall|i: int| 0 <= i < process.len() ==> process[i].0
            != sdk_path_var()) ==> !resolved(name, root, sdk_path, process).contains_key(
            sdk_path_var(),
        ),
        forall|i: int|
            0 <= i < process.len() ==> resolved(name, root, sdk_path, process).contains_key(
                #[trigger] process[i].0,
            ),
{
    let vars = project_vars(name, root, sdk_path);
    let base = map_of(vars);
    reveal_strlit("CARGO_PKG_NAME");
    reveal_strlit("CARGO_MANIFEST_DIR");
    reveal_strlit("PLAYDATE_SDK_PATH");
    assert(pkg_name_var() != manifest_dir_var()) by {
        assert(pkg_name_var()[6] == 'P');
        assert(manifest_dir_var()[6] == 'M');
    }
    assert(pkg_name_var() != sdk_path_var()) by {
        assert(pkg_name_var()[0] == 'C');
        assert(sdk_path_var()[0] == 'P');
    }
    assert(manifest_dir_var() != sdk_path_var()) by {
        assert(manifest_dir_var()[0] == 'C');
        assert(sdk_path_var()[0] == 'P');
    }
    reveal_with_fuel(map_of, 4);
    assert(vars.drop_last().drop_last() =~= if sdk_path is Some {
        seq![vars[0]]
    } else {
        Seq::<VarView>::empty()
    });
    if sdk_path is Some {
        assert(vars.drop_last().drop_last().drop_last() =~= Seq::<VarView>::empty());
    }
    assert(base.contains_key(pkg_name_var()) && base[pkg_name_var()] == name);
    assert(base.contains_key(manifest_dir_var()) && base[manifest_dir_var()] == root);
    lemma_filled_precedence(base, process, pkg_name_var());
    lemma_filled_precedence(base, process, manifest_dir_var());
    lemma_filled_precedence(base, process, sdk_path_var());
    lemma_map_of_keys(vars, sdk_path_var());
    assert forall|i: int| 0 <= i < process.len() implies resolved(
        name,
        root,
        sdk_path,
        process,
    ).contains_key(#[trigger] process[i].0) by {
        lemma_filled_precedence(base, process, process[i].0);
    }
}

} // verus!
