//! The environment editor: a list of environments, the variable rows of the
//! selected one, and the edits on both; and the entries of the environment menu.
use vstd::prelude::*;
use crate::env::{Environment, Variable};
use crate::ids::{new_id, is_v4_uuid};
use crate::text::to_owned_string;

verus! {

/// A variable's key, value, and secret and enabled flags.
pub open spec fn var_view(v: Variable) -> (Seq<char>, Seq<char>, bool, bool) {
    (v.key@, v.value@, v.secret, v.enabled)
}

/// The values of variables.
pub open spec fn vars_view(vs: Seq<Variable>) -> Seq<(Seq<char>, Seq<char>, bool, bool)> {
    vs.map_values(|v: Variable| var_view(v))
}

/// An environment's id, name and variables.
pub open spec fn env_view(e: Environment) -> (u128, Seq<char>, Seq<(Seq<char>, Seq<char>, bool, bool)>) {
    (e.id, e.name@, vars_view(e.variables@))
}

/// The values of environments.
pub open spec fn envs_view(es: Seq<Environment>) -> Seq<(u128, Seq<char>, Seq<(Seq<char>, Seq<char>, bool, bool)>)> {
    es.map_values(|e: Environment| env_view(e))
}

/// A copy of a variable.
pub fn copy_variable(v: &Variable) -> (r: Variable)
    ensures
        var_view(r) == var_view(*v),
{
    Variable { key: v.key.clone(), value: v.value.clone(), secret: v.secret, enabled: v.enabled }
}

/// A copy of an environment.
pub fn copy_environment(e: &Environment) -> (r: Environment)
    ensures
        env_view(r) == env_view(*e),
{
    let mut vars: Vec<Variable> = Vec::new();
    let mut i: usize = 0;
    while i < e.variables.len()
        invariant
            0 <= i <= e.variables@.len(),
            vars_view(vars@) == vars_view(e.variables@.take(i as int)),
        decreases e.variables@.len() - i,
    {
        let v = copy_variable(&e.variables[i]);
        let ghost prev = vars@;
        vars.push(v);
        assert(vars_view(vars@) =~= vars_view(prev).push(var_view(v)));
        assert(vars_view(e.variables@.take(i + 1)) =~= vars_view(e.variables@.take(i as int)).push(
            var_view(e.variables@[i as int]),
        ));
        i = i + 1;
    }
    assert(e.variables@.take(e.variables@.len() as int) =~= e.variables@);
    Environment { id: e.id, name: e.name.clone(), variables: vars }
}

/// Copies of environments.
pub fn copy_environments(es: &Vec<Environment>) -> (r: Vec<Environment>)
    ensures
        envs_view(r@) == envs_view(es@),
{
    let mut r: Vec<Environment> = Vec::new();
    let mut i: usize = 0;
    while i < es.len()
        invariant
            0 <= i <= es@.len(),
            envs_view(r@) == envs_view(es@.take(i as int)),
        decreases es@.len() - i,
    {
        let e = copy_environment(&es[i]);
        let ghost prev = r@;
        r.push(e);
        assert(envs_view(r@) =~= envs_view(prev).push(env_view(e)));
        assert(envs_view(es@.take(i + 1)) =~= envs_view(es@.take(i as int)).push(env_view(es@[i as int])));
        i = i + 1;
    }
    assert(es@.take(es@.len() as int) =~= es@);
    r
}

/// A variable row of the editor: the variable and the row's id.
#[derive(Debug)]
pub struct VariableRow {
    pub variable: Variable,
    pub id: u128,
}

impl VariableRow {
    /// A row for a new enabled, non-secret variable, with a fresh id.
    pub fn new(key: &str, value: &str) -> (r: VariableRow)
        ensures
            var_view(r.variable) == (key@, value@, false, true),
            is_v4_uuid(r.id),
    {
        VariableRow {
            variable: Variable { key: to_owned_string(key), value: to_owned_string(value), enabled: true, secret: false },
            id: new_id(),
        }
    }

    /// A row for a variable, with a fresh id.
    pub fn from_variable(variable: Variable) -> (r: VariableRow)
        ensures
            r.variable == variable,
            is_v4_uuid(r.id),
    {
        VariableRow { id: new_id(), variable }
    }
}

/// The variables of rows.
pub open spec fn row_vars(rows: Seq<VariableRow>) -> Seq<(Seq<char>, Seq<char>, bool, bool)> {
    rows.map_values(|r: VariableRow| var_view(r.variable))
}

/// The environment editor.
#[derive(Debug)]
pub struct EnvEditorModal {
    pub environments: Vec<Environment>,
    pub selected_env_index: Option<usize>,
    pub variable_rows: Vec<VariableRow>,
    pub selected_var_index: Option<usize>,
    pub is_open: bool,
    pub has_unsaved_changes: bool,
}

/// The mathematical value of the editor.
pub struct ModalView {
    pub environments: Seq<(u128, Seq<char>, Seq<(Seq<char>, Seq<char>, bool, bool)>)>,
    pub selected_env_index: Option<usize>,
    pub rows: Seq<(Seq<char>, Seq<char>, bool, bool)>,
    pub selected_var_index: Option<usize>,
    pub is_open: bool,
    pub has_unsaved_changes: bool,
}

impl View for EnvEditorModal {
    type V = ModalView;

    open spec fn view(&self) -> ModalView {
        ModalView {
            environments: envs_view(self.environments@),
            selected_env_index: self.selected_env_index,
            rows: row_vars(self.variable_rows@),
            selected_var_index: self.selected_var_index,
            is_open: self.is_open,
            has_unsaved_changes: self.has_unsaved_changes,
        }
    }
}

/// The rows shown for a selection: the variables of the selected environment, or
/// none when nothing (valid) is selected.
pub open spec fn rows_for(
    envs: Seq<(u128, Seq<char>, Seq<(Seq<char>, Seq<char>, bool, bool)>)>,
    sel: Option<usize>,
) -> Seq<(Seq<char>, Seq<char>, bool, bool)> {
    match sel {
        Some(i) => if i < envs.len() {
            envs[i as int].2
        } else {
            Seq::empty()
        },
        None => Seq::empty(),
    }
}

/// The environments with the rows written back into the selected one.
pub open spec fn synced(
    envs: Seq<(u128, Seq<char>, Seq<(Seq<char>, Seq<char>, bool, bool)>)>,
    sel: Option<usize>,
    rows: Seq<(Seq<char>, Seq<char>, bool, bool)>,
) -> Seq<(u128, Seq<char>, Seq<(Seq<char>, Seq<char>, bool, bool)>)> {
    match sel {
        Some(i) => if i < envs.len() {
            envs.update(i as int, (envs[i as int].0, envs[i as int].1, rows))
        } else {
            envs
        },
        None => envs,
    }
}

/// The selection after removing the selected entry at `idx`, leaving `len`
/// entries: the entry that took its place, or the last, or none.
pub open spec fn selection_after_removal(idx: usize, len: nat) -> Option<usize> {
    if len == 0 {
        None
    } else if idx >= len {
        Some((len - 1) as usize)
    } else {
        Some(idx)
    }
}

impl EnvEditorModal {
    /// A closed editor without environments.
    pub fn new() -> (r: EnvEditorModal)
        ensures
            r@ == (ModalView {
                environments: Seq::empty(),
                selected_env_index: None,
                rows: Seq::empty(),
                selected_var_index: None,
                is_open: false,
                has_unsaved_changes: false,
            }),
    {
        let r = EnvEditorModal {
            environments: Vec::new(),
            selected_env_index: None,
            variable_rows: Vec::new(),
            selected_var_index: None,
            is_open: false,
            has_unsaved_changes: false,
        };
        assert(r@.environments =~= Seq::empty());
        assert(r@.rows =~= Seq::empty());
        r
    }

    /// Shows the variables of the selected environment, none selected.
    fn load_variables_for_selected(&mut self)
        ensures
            final(self)@ == (ModalView {
                rows: rows_for(old(self)@.environments, old(self)@.selected_env_index),
                selected_var_index: None,
                ..old(self)@
            }),
    {
        let mut rows: Vec<VariableRow> = Vec::new();
        match self.selected_env_index {
            Some(idx) => if idx < self.environments.len() {
                let vars = &self.environments[idx].variables;
                let mut i: usize = 0;
                while i < vars.len()
                    invariant
                        0 <= i <= vars@.len(),
                        row_vars(rows@) == vars_view(vars@.take(i as int)),
                    decreases vars@.len() - i,
                {
                    let row = VariableRow::from_variable(copy_variable(&vars[i]));
                    let ghost prev = rows@;
                    rows.push(row);
                    assert(row_vars(rows@) =~= row_vars(prev).push(var_view(row.variable)));
                    assert(vars_view(vars@.take(i + 1)) =~= vars_view(vars@.take(i as int)).push(var_view(vars@[i as int])));
                    i = i + 1;
                }
                assert(vars@.take(vars@.len() as int) =~= vars@);
            },
            None => {},
        }
        assert(rows_for(self@.environments, self.selected_env_index) =~= row_vars(rows@));
        self.variable_rows = rows;
        self.selected_var_index = None;
    }

    /// An editor over the environments, the first one selected when there is one.
    pub fn with_environments(environments: Vec<Environment>) -> (r: EnvEditorModal)
        ensures
            r@.environments == envs_view(environments@),
            r@.selected_env_index == if environments@.len() > 0 {
                Some(0usize)
            } else {
                None
            },
            r@.rows == rows_for(r@.environments, r@.selected_env_index),
            r@.selected_var_index is None,
            !r@.is_open,
            !r@.has_unsaved_changes,
    {
        let mut modal = EnvEditorModal::new();
        modal.environments = environments;
        if modal.environments.len() > 0 {
            modal.selected_env_index = Some(0);
            modal.load_variables_for_selected();
        }
        modal
    }

    /// Opens the editor with nothing unsaved.
    pub fn open(&mut self)
        ensures
            final(self)@ == (ModalView { is_open: true, has_unsaved_changes: false, ..old(self)@ }),
    {
        self.is_open = true;
        self.has_unsaved_changes = false;
    }

    /// Closes the editor.
    pub fn close(&mut self)
        ensures
            final(self)@ == (ModalView { is_open: false, ..old(self)@ }),
    {
        self.is_open = false;
    }

    /// Writes the rows back into the selected environment.
    fn sync_variables_to_environment(&mut self)
        ensures
            final(self)@ == (ModalView {
                environments: synced(old(self)@.environments, old(self)@.selected_env_index, old(self)@.rows),
                ..old(self)@
            }),
    {
        match self.selected_env_index {
            Some(idx) => if idx < self.environments.len() {
                let mut vars: Vec<Variable> = Vec::new();
                let mut i: usize = 0;
                while i < self.variable_rows.len()
                    invariant
                        0 <= i <= self.variable_rows@.len(),
                        vars_view(vars@) == row_vars(self.variable_rows@.take(i as int)),
                    decreases self.variable_rows@.len() - i,
                {
                    let v = copy_variable(&self.variable_rows[i].variable);
                    let ghost prev = vars@;
                    vars.push(v);
                    assert(vars_view(vars@) =~= vars_view(prev).push(var_view(v)));
                    assert(row_vars(self.variable_rows@.take(i + 1)) =~= row_vars(self.variable_rows@.take(i as int)).push(
                        var_view(self.variable_rows@[i as int].variable),
                    ));
                    i = i + 1;
                }
                assert(self.variable_rows@.take(self.variable_rows@.len() as int) =~= self.variable_rows@);
                let ghost before = self.environments@;
                let mut env = self.environments.remove(idx);
                env.variables = vars;
                let ghost ev = env_view(env);
                self.environments.insert(idx, env);
                assert(envs_view(self.environments@) =~= envs_view(before).update(idx as int, ev));
            },
            None => {},
        }
    }

    /// Writes the rows back and returns copies of the environments; nothing is
    /// left unsaved.
    pub fn save(&mut self) -> (r: Vec<Environment>)
        ensures
            final(self)@ == (ModalView {
                environments: synced(old(self)@.environments, old(self)@.selected_env_index, old(self)@.rows),
                has_unsaved_changes: false,
                ..old(self)@
            }),
            envs_view(r@) == final(self)@.environments,
    {
        self.sync_variables_to_environment();
        self.has_unsaved_changes = false;
        copy_environments(&self.environments)
    }

    /// Adds an environment named "New Environment" and selects it.
    pub fn add_environment(&mut self)
        requires
            old(self).environments@.len() < usize::MAX,
        ensures
            final(self)@.environments.len() == old(self)@.environments.len() + 1,
            final(self)@.environments.take(old(self)@.environments.len() as int) == old(self)@.environments,
            final(self)@.environments.last().1 == "New Environment"@,
            final(self)@.environments.last().2.len() == 0,
            is_v4_uuid(final(self)@.environments.last().0),
            final(self)@.selected_env_index == Some(old(self)@.environments.len() as usize),
            final(self)@.rows.len() == 0,
            final(self)@.selected_var_index is None,
            final(self)@.is_open == old(self)@.is_open,
            final(self)@.has_unsaved_changes,
    {
        let new_env = Environment::new("New Environment");
        let ghost before = self.environments@;
        let ghost nv = env_view(new_env);
        self.environments.push(new_env);
        assert(envs_view(self.environments@) =~= envs_view(before).push(nv));
        assert(envs_view(self.environments@).take(before.len() as int) =~= envs_view(before));
        self.selected_env_index = Some(self.environments.len() - 1);
        self.load_variables_for_selected();
        self.has_unsaved_changes = true;
    }

    /// Removes the selected environment; the one that takes its place (or the
    /// last) is selected and its variables shown.
    pub fn remove_environment(&mut self)
        requires
            old(self).selected_env_index matches Some(i) ==> i < old(self).environments@.len(),
        ensures
            match old(self)@.selected_env_index {
                Some(idx) => {
                    let envs = old(self)@.environments.remove(idx as int);
                    let sel = selection_after_removal(idx, envs.len());
                    final(self)@ == (ModalView {
                        environments: envs,
                        selected_env_index: sel,
                        rows: rows_for(envs, sel),
                        selected_var_index: None,
                        has_unsaved_changes: true,
                        ..old(self)@
                    })
                },
                None => final(self)@ == old(self)@,
            },
    {
        if let Some(idx) = self.selected_env_index {
            let ghost before = self.environments@;
            self.environments.remove(idx);
            assert(envs_view(self.environments@) =~= envs_view(before).remove(idx as int));
            if self.environments.len() == 0 {
                self.selected_env_index = None;
                self.variable_rows.clear();
            } else if idx >= self.environments.len() {
                self.selected_env_index = Some(self.environments.len() - 1);
            }
            self.load_variables_for_selected();
            self.has_unsaved_changes = true;
        }
    }

    /// Renames the selected environment.
    pub fn rename_environment(&mut self, new_name: String)
        ensures
            match old(self)@.selected_env_index {
                Some(idx) => if idx < old(self)@.environments.len() {
                    final(self)@ == (ModalView {
                        environments: old(self)@.environments.update(
                            idx as int,
                            (old(self)@.environments[idx as int].0, new_name@, old(self)@.environments[idx as int].2),
                        ),
                        has_unsaved_changes: true,
                        ..old(self)@
                    })
                } else {
                    final(self)@ == old(self)@
                },
                None => final(self)@ == old(self)@,
            },
    {
        if let Some(idx) = self.selected_env_index {
            if idx < self.environments.len() {
                let ghost before = self.environments@;
                let mut env = self.environments.remove(idx);
                env.name = new_name;
                let ghost ev = env_view(env);
                self.environments.insert(idx, env);
                assert(envs_view(self.environments@) =~= envs_view(before).update(idx as int, ev));
                self.has_unsaved_changes = true;
            }
        }
    }

    /// Adds an empty, enabled variable row and selects it.
    pub fn add_variable(&mut self)
        requires
            old(self).variable_rows@.len() < usize::MAX,
        ensures
            final(self)@ == (ModalView {
                rows: old(self)@.rows.push((Seq::empty(), Seq::empty(), false, true)),
                selected_var_index: Some(old(self)@.rows.len() as usize),
                has_unsaved_changes: true,
                ..old(self)@
            }),
    {
        proof {
            reveal_strlit("");
            assert(""@ =~= Seq::<char>::empty());
        }
        let row = VariableRow::new("", "");
        let ghost before = self.variable_rows@;
        let ghost rv = var_view(row.variable);
        self.variable_rows.push(row);
        assert(row_vars(self.variable_rows@) =~= row_vars(before).push(rv));
        self.selected_var_index = Some(self.variable_rows.len() - 1);
        self.has_unsaved_changes = true;
    }

    /// Removes the selected variable row; the one that takes its place (or the
    /// last) is selected.
    pub fn remove_variable(&mut self)
        requires
            old(self).selected_var_index matches Some(i) ==> i < old(self).variable_rows@.len(),
        ensures
            match old(self)@.selected_var_index {
                Some(idx) => {
                    let rows = old(self)@.rows.remove(idx as int);
                    final(self)@ == (ModalView {
                        rows,
                        selected_var_index: selection_after_removal(idx, rows.len()),
                        has_unsaved_changes: true,
                        ..old(self)@
                    })
                },
                None => final(self)@ == old(self)@,
            },
    {
        if let Some(idx) = self.selected_var_index {
            let ghost before = self.variable_rows@;
            self.variable_rows.remove(idx);
            assert(row_vars(self.variable_rows@) =~= row_vars(before).remove(idx as int));
            if self.variable_rows.len() == 0 {
                self.selected_var_index = None;
            } else if idx >= self.variable_rows.len() {
                self.selected_var_index = Some(self.variable_rows.len() - 1);
            }
            self.has_unsaved_changes = true;
        }
    }

    /// Flips whether the variable at the index is enabled.
    pub fn toggle_variable_enabled(&mut self, index: usize)
        ensures
            index < old(self)@.rows.len() ==> final(self)@ == (ModalView {
                rows: old(self)@.rows.update(
                    index as int,
                    (
                        old(self)@.rows[index as int].0,
                        old(self)@.rows[index as int].1,
                        old(self)@.rows[index as int].2,
                        !old(self)@.rows[index as int].3,
                    ),
                ),
                has_unsaved_changes: true,
                ..old(self)@
            }),
            index >= old(self)@.rows.len() ==> final(self)@ == old(self)@,
    {
        if index < self.variable_rows.len() {
            let ghost before = self.variable_rows@;
            let mut row = self.variable_rows.remove(index);
            row.variable.enabled = !row.variable.enabled;
            let ghost rv = var_view(row.variable);
            self.variable_rows.insert(index, row);
            assert(row_vars(self.variable_rows@) =~= row_vars(before).update(index as int, rv));
            self.has_unsaved_changes = true;
        }
    }

    /// Flips whether the variable at the index is secret.
    pub fn toggle_variable_secret(&mut self, index: usize)
        ensures
            index < old(self)@.rows.len() ==> final(self)@ == (ModalView {
                rows: old(self)@.rows.update(
                    index as int,
                    (
                        old(self)@.rows[index as int].0,
                        old(self)@.rows[index as int].1,
                        !old(self)@.rows[index as int].2,
                        old(self)@.rows[index as int].3,
                    ),
                ),
                has_unsaved_changes: true,
                ..old(self)@
            }),
            index >= old(self)@.rows.len() ==> final(self)@ == old(self)@,
    {
        if index < self.variable_rows.len() {
            let ghost before = self.variable_rows@;
            let mut row = self.variable_rows.remove(index);
            row.variable.secret = !row.variable.secret;
            let ghost rv = var_view(row.variable);
            self.variable_rows.insert(index, row);
            assert(row_vars(self.variable_rows@) =~= row_vars(before).update(index as int, rv));
            self.has_unsaved_changes = true;
        }
    }

    /// Selects the environment at the index, after writing the rows back into the
    /// one selected before, and shows its variables.
    pub fn select_environment(&mut self, index: usize)
        ensures
            index < old(self)@.environments.len() ==> {
                let envs = synced(old(self)@.environments, old(self)@.selected_env_index, old(self)@.rows);
                final(self)@ == (ModalView {
                    environments: envs,
                    selected_env_index: Some(index),
                    rows: envs[index as int].2,
                    selected_var_index: None,
                    ..old(self)@
                })
            },
            index >= old(self)@.environments.len() ==> final(self)@ == old(self)@,
    {
        if index < self.environments.len() {
            self.sync_variables_to_environment();
            self.selected_env_index = Some(index);
            self.load_variables_for_selected();
        }
    }

    /// Selects the variable row at the index, when there is one.
    pub fn select_variable(&mut self, index: usize)
        ensures
            index < old(self)@.rows.len() ==> final(self)@ == (ModalView { selected_var_index: Some(index), ..old(self)@ }),
            index >= old(self)@.rows.len() ==> final(self)@ == old(self)@,
    {
        if index < self.variable_rows.len() {
            self.selected_var_index = Some(index);
        }
    }

    /// The selected environment, when one (valid) is selected.
    pub fn selected_environment(&self) -> (r: Option<&Environment>)
        ensures
            match self.selected_env_index {
                Some(i) => if i < self.environments@.len() {
                    r matches Some(e) && *e == self.environments@[i as int]
                } else {
                    r is None
                },
                None => r is None,
            },
    {
        match self.selected_env_index {
            Some(i) => if i < self.environments.len() {
                Some(&self.environments[i])
            } else {
                None
            },
            None => None,
        }
    }
}

impl Default for EnvEditorModal {
    fn default() -> (r: EnvEditorModal)
        ensures
            r@ == (ModalView {
                environments: Seq::empty(),
                selected_env_index: None,
                rows: Seq::empty(),
                selected_var_index: None,
                is_open: false,
                has_unsaved_changes: false,
            }),
    {
        EnvEditorModal::new()
    }
}

/// An entry of the environment menu.
#[derive(Clone, Copy, Debug, PartialEq, Eq, Structural)]
pub enum EnvMenuItem {
    NoEnvironment,
    SelectEnvironment(u128),
    ManageEnvironments,
}

/// What choosing a menu entry does to the active environment: clears it, sets it,
/// or leaves it (managing environments opens the editor instead).
pub open spec fn active_after_choice(active: Option<u128>, item: EnvMenuItem) -> Option<u128> {
    match item {
        EnvMenuItem::NoEnvironment => None,
        EnvMenuItem::SelectEnvironment(id) => Some(id),
        EnvMenuItem::ManageEnvironments => active,
    }
}

impl EnvMenuItem {
    /// The active environment after choosing this entry.
    pub fn apply(&self, active: Option<u128>) -> (r: Option<u128>)
        ensures
            r == active_after_choice(active, *self),
    {
        match self {
            EnvMenuItem::NoEnvironment => None,
            EnvMenuItem::SelectEnvironment(id) => Some(*id),
            EnvMenuItem::ManageEnvironments => active,
        }
    }

    /// Whether choosing this entry opens the environment editor.
    pub fn opens_editor(&self) -> (r: bool)
        ensures
            r == (*self is ManageEnvironments),
    {
        match self {
            EnvMenuItem::ManageEnvironments => true,
            _ => false,
        }
    }
}

} // verus!
