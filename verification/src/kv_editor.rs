//! The table editor for key–value data: query parameters, headers, form fields and
//! environment variables.
use vstd::prelude::*;
use crate::env::{Variable, VarMap, entries_map};
use crate::ids::{new_id, is_v4_uuid};
use crate::text::to_owned_string;

verus! {

/// One row of the editor.
#[derive(Clone, Debug)]
pub struct KeyValueRow {
    pub id: u128,
    pub key: String,
    pub value: String,
    pub enabled: bool,
    pub secret: bool,
    pub key_focused: bool,
    pub value_focused: bool,
}

/// The mathematical value of a row.
pub struct RowView {
    pub id: u128,
    pub key: Seq<char>,
    pub value: Seq<char>,
    pub enabled: bool,
    pub secret: bool,
    pub key_focused: bool,
    pub value_focused: bool,
}

impl View for KeyValueRow {
    type V = RowView;

    open spec fn view(&self) -> RowView {
        RowView {
            id: self.id,
            key: self.key@,
            value: self.value@,
            enabled: self.enabled,
            secret: self.secret,
            key_focused: self.key_focused,
            value_focused: self.value_focused,
        }
    }
}

/// The values of a list of rows.
pub open spec fn rows_view(v: Seq<KeyValueRow>) -> Seq<RowView> {
    v.map_values(|r: KeyValueRow| r@)
}

/// A row has content when its key or its value is not empty.
pub open spec fn row_is_valid(r: RowView) -> bool {
    r.key.len() > 0 || r.value.len() > 0
}

/// The text shown for a secret value.
pub open spec fn mask_text() -> Seq<char> {
    "••••••••"@
}

/// The value as shown: masked when the row is secret and the value not empty.
pub open spec fn shown_value(r: RowView) -> Seq<char> {
    if r.secret && r.value.len() > 0 {
        mask_text()
    } else {
        r.value
    }
}

/// A fresh empty, enabled row.
pub open spec fn blank_row(id: u128) -> RowView {
    RowView {
        id,
        key: Seq::empty(),
        value: Seq::empty(),
        enabled: true,
        secret: false,
        key_focused: false,
        value_focused: false,
    }
}

impl KeyValueRow {
    /// An empty, enabled row with a fresh id.
    pub fn new() -> (r: KeyValueRow)
        ensures
            r@ == blank_row(r.id),
            is_v4_uuid(r.id),
    {
        KeyValueRow {
            id: new_id(),
            key: String::new(),
            value: String::new(),
            enabled: true,
            secret: false,
            key_focused: false,
            value_focused: false,
        }
    }

    /// An enabled row with the key and value and a fresh id.
    pub fn from_kv(key: String, value: String) -> (r: KeyValueRow)
        ensures
            r@ == (RowView { key: key@, value: value@, ..blank_row(r.id) }),
            is_v4_uuid(r.id),
    {
        let row = KeyValueRow::new();
        KeyValueRow { key, value, ..row }
    }

    /// A row that shows an environment variable, with a fresh id.
    pub fn from_variable(variable: &Variable) -> (r: KeyValueRow)
        ensures
            r@ == (RowView {
                key: variable.key@,
                value: variable.value@,
                enabled: variable.enabled,
                secret: variable.secret,
                ..blank_row(r.id)
            }),
            is_v4_uuid(r.id),
    {
        KeyValueRow {
            id: new_id(),
            key: variable.key.clone(),
            value: variable.value.clone(),
            enabled: variable.enabled,
            secret: variable.secret,
            key_focused: false,
            value_focused: false,
        }
    }

    /// A copy of this row.
    pub fn duplicate(&self) -> (r: KeyValueRow)
        ensures
            r@ == self@,
    {
        KeyValueRow {
            id: self.id,
            key: self.key.clone(),
            value: self.value.clone(),
            enabled: self.enabled,
            secret: self.secret,
            key_focused: self.key_focused,
            value_focused: self.value_focused,
        }
    }

    /// Whether the key or the value is not empty.
    pub fn is_valid(&self) -> (r: bool)
        ensures
            r == row_is_valid(self@),
    {
        !self.key.as_str().is_empty() || !self.value.as_str().is_empty()
    }

    /// The value as shown, masked for a secret.
    pub fn display_value(&self) -> (r: String)
        ensures
            r@ == shown_value(self@),
    {
        if self.secret && !self.value.as_str().is_empty() {
            to_owned_string("••••••••")
        } else {
            self.value.clone()
        }
    }
}

impl Default for KeyValueRow {
    fn default() -> (r: KeyValueRow)
        ensures
            r@ == blank_row(r.id),
            is_v4_uuid(r.id),
    {
        KeyValueRow::new()
    }
}

/// What an editor edits.
#[derive(Clone, Copy, Debug, PartialEq, Eq, Structural)]
pub enum EditorType {
    Params,
    Headers,
    FormData,
    Variables,
}

/// The title of an editor of the type.
pub open spec fn editor_type_name(t: EditorType) -> Seq<char> {
    match t {
        EditorType::Params => "Query Parameters"@,
        EditorType::Headers => "Headers"@,
        EditorType::FormData => "Form Data"@,
        EditorType::Variables => "Variables"@,
    }
}

/// The hint in an empty key field.
pub open spec fn editor_key_hint(t: EditorType) -> Seq<char> {
    match t {
        EditorType::Params => "Parameter name"@,
        EditorType::Headers => "Header name"@,
        EditorType::FormData => "Field name"@,
        EditorType::Variables => "Variable name"@,
    }
}

/// The hint in an empty value field.
pub open spec fn editor_value_hint(t: EditorType) -> Seq<char> {
    match t {
        EditorType::Params => "Parameter value"@,
        EditorType::Headers => "Header value"@,
        EditorType::FormData => "Field value"@,
        EditorType::Variables => "Variable value"@,
    }
}

impl EditorType {
    /// The editor's title.
    pub fn display_name(&self) -> (r: &'static str)
        ensures
            r@ == editor_type_name(*self),
    {
        match self {
            EditorType::Params => "Query Parameters",
            EditorType::Headers => "Headers",
            EditorType::FormData => "Form Data",
            EditorType::Variables => "Variables",
        }
    }

    /// The hint in an empty key field.
    pub fn key_placeholder(&self) -> (r: &'static str)
        ensures
            r@ == editor_key_hint(*self),
    {
        match self {
            EditorType::Params => "Parameter name",
            EditorType::Headers => "Header name",
            EditorType::FormData => "Field name",
            EditorType::Variables => "Variable name",
        }
    }

    /// The hint in an empty value field.
    pub fn value_placeholder(&self) -> (r: &'static str)
        ensures
            r@ == editor_value_hint(*self),
    {
        match self {
            EditorType::Params => "Parameter value",
            EditorType::Headers => "Header value",
            EditorType::FormData => "Field value",
            EditorType::Variables => "Variable value",
        }
    }
}

/// A table of key–value rows.
#[derive(Debug)]
pub struct KeyValueEditor {
    pub editor_type: EditorType,
    pub rows: Vec<KeyValueRow>,
    pub read_only: bool,
    pub focused_row: Option<usize>,
    pub show_secret_toggle: bool,
}

/// The mathematical value of an editor.
pub struct EditorView {
    pub editor_type: EditorType,
    pub rows: Seq<RowView>,
    pub read_only: bool,
    pub focused_row: Option<usize>,
    pub show_secret_toggle: bool,
}

impl View for KeyValueEditor {
    type V = EditorView;

    open spec fn view(&self) -> EditorView {
        EditorView {
            editor_type: self.editor_type,
            rows: rows_view(self.rows@),
            read_only: self.read_only,
            focused_row: self.focused_row,
            show_secret_toggle: self.show_secret_toggle,
        }
    }
}

/// Whether `i` is the first position of a row with the id.
pub open spec fn first_row_with_id(rows: Seq<RowView>, id: u128, i: int) -> bool {
    0 <= i < rows.len() && rows[i].id == id && forall|j: int| 0 <= j < i ==> (#[trigger] rows[j]).id != id
}

/// Whether some row has the id.
pub open spec fn has_row_id(rows: Seq<RowView>, id: u128) -> bool {
    exists|i: int| 0 <= i < rows.len() && (#[trigger] rows[i]).id == id
}

/// The focus after the row at `pos` was removed: lost if it was on that row,
/// moved up one if it was below it.
pub open spec fn focus_after_removal(focused: Option<usize>, pos: int) -> Option<usize> {
    match focused {
        Some(f) => if f == pos {
            None
        } else if f > pos {
            Some((f - 1) as usize)
        } else {
            Some(f)
        },
        None => None,
    }
}

/// The enabled rows that have content, as (key, value).
pub open spec fn active_pairs(rows: Seq<RowView>) -> Seq<(Seq<char>, Seq<char>)>
    decreases rows.len(),
{
    if rows.len() == 0 {
        Seq::empty()
    } else {
        let rest = active_pairs(rows.drop_last());
        let r = rows.last();
        if r.enabled && row_is_valid(r) {
            rest.push((r.key, r.value))
        } else {
            rest
        }
    }
}

/// The rows that have content, in order.
pub open spec fn valid_rows(rows: Seq<RowView>) -> Seq<RowView>
    decreases rows.len(),
{
    if rows.len() == 0 {
        Seq::empty()
    } else {
        let rest = valid_rows(rows.drop_last());
        if row_is_valid(rows.last()) {
            rest.push(rows.last())
        } else {
            rest
        }
    }
}

/// The environment variable that a row stands for.
pub open spec fn row_variable(r: RowView) -> (Seq<char>, Seq<char>, bool, bool) {
    (r.key, r.value, r.enabled, r.secret)
}

/// The key, value, and enabled and secret flags of variables.
pub open spec fn variable_fields(vs: Seq<Variable>) -> Seq<(Seq<char>, Seq<char>, bool, bool)> {
    vs.map_values(|v: Variable| (v.key@, v.value@, v.enabled, v.secret))
}

/// The pairs as (key, value) texts.
pub open spec fn string_pairs_view(ps: Seq<(String, String)>) -> Seq<(Seq<char>, Seq<char>)> {
    ps.map_values(|p: (String, String)| (p.0@, p.1@))
}

/// The position of the first row with the id.
fn find_row(rows: &Vec<KeyValueRow>, id: u128) -> (r: Option<usize>)
    ensures
        match r {
            Some(i) => first_row_with_id(rows_view(rows@), id, i as int),
            None => !has_row_id(rows_view(rows@), id),
        },
{
    let mut i: usize = 0;
    while i < rows.len()
        invariant
            0 <= i <= rows@.len(),
            forall|j: int| 0 <= j < i ==> (#[trigger] rows@[j]).id != id,
        decreases rows@.len() - i,
    {
        if rows[i].id == id {
            assert(rows_view(rows@)[i as int].id == id);
            return Some(i);
        }
        i = i + 1;
    }
    assert forall|j: int| 0 <= j < rows@.len() implies (#[trigger] rows_view(rows@)[j]).id != id by {
        assert(rows@[j].id != id);
    }
    None
}

impl KeyValueEditor {
    /// An empty editor; variables get the secret column.
    pub fn new(editor_type: EditorType) -> (r: KeyValueEditor)
        ensures
            r@ == (EditorView {
                editor_type,
                rows: Seq::empty(),
                read_only: false,
                focused_row: None,
                show_secret_toggle: editor_type == EditorType::Variables,
            }),
    {
        let r = KeyValueEditor {
            editor_type,
            rows: Vec::new(),
            read_only: false,
            focused_row: None,
            show_secret_toggle: editor_type == EditorType::Variables,
        };
        assert(r@.rows =~= Seq::empty());
        r
    }

    /// An editor holding the rows.
    pub fn with_rows(editor_type: EditorType, rows: Vec<KeyValueRow>) -> (r: KeyValueEditor)
        ensures
            r@ == (EditorView {
                editor_type,
                rows: rows_view(rows@),
                read_only: false,
                focused_row: None,
                show_secret_toggle: editor_type == EditorType::Variables,
            }),
    {
        let mut editor = KeyValueEditor::new(editor_type);
        editor.rows = rows;
        editor
    }

    /// An editor with one enabled row per pair, in order, each with a fresh id.
    pub fn from_pairs(editor_type: EditorType, pairs: Vec<(String, String)>) -> (r: KeyValueEditor)
        ensures
            r@.editor_type == editor_type,
            !r@.read_only,
            r@.focused_row is None,
            r@.show_secret_toggle == (editor_type == EditorType::Variables),
            r@.rows.len() == pairs@.len(),
            forall|i: int|
                0 <= i < pairs@.len() ==> #[trigger] r@.rows[i] == (RowView {
                    key: pairs@[i].0@,
                    value: pairs@[i].1@,
                    ..blank_row(r@.rows[i].id)
                }),
    {
        let mut rows: Vec<KeyValueRow> = Vec::new();
        let mut i: usize = 0;
        while i < pairs.len()
            invariant
                0 <= i <= pairs@.len(),
                rows@.len() == i,
                forall|k: int|
                    0 <= k < i ==> #[trigger] rows@[k]@ == (RowView {
                        key: pairs@[k].0@,
                        value: pairs@[k].1@,
                        ..blank_row(rows@[k].id)
                    }),
            decreases pairs@.len() - i,
        {
            let row = KeyValueRow::from_kv(pairs[i].0.clone(), pairs[i].1.clone());
            rows.push(row);
            i = i + 1;
        }
        KeyValueEditor::with_rows(editor_type, rows)
    }

    /// A variables editor with one row per variable, in order, each with a fresh id.
    pub fn from_variables(variables: &[Variable]) -> (r: KeyValueEditor)
        ensures
            r@.editor_type == EditorType::Variables,
            !r@.read_only,
            r@.focused_row is None,
            r@.show_secret_toggle,
            r@.rows.len() == variables@.len(),
            forall|i: int|
                0 <= i < variables@.len() ==> #[trigger] r@.rows[i] == (RowView {
                    key: variables@[i].key@,
                    value: variables@[i].value@,
                    enabled: variables@[i].enabled,
                    secret: variables@[i].secret,
                    ..blank_row(r@.rows[i].id)
                }),
    {
        let mut rows: Vec<KeyValueRow> = Vec::new();
        let mut i: usize = 0;
        while i < variables.len()
            invariant
                0 <= i <= variables@.len(),
                rows@.len() == i,
                forall|k: int|
                    0 <= k < i ==> #[trigger] rows@[k]@ == (RowView {
                        key: variables@[k].key@,
                        value: variables@[k].value@,
                        enabled: variables@[k].enabled,
                        secret: variables@[k].secret,
                        ..blank_row(rows@[k].id)
                    }),
            decreases variables@.len() - i,
        {
            let row = KeyValueRow::from_variable(&variables[i]);
            rows.push(row);
            i = i + 1;
        }
        KeyValueEditor {
            editor_type: EditorType::Variables,
            rows,
            read_only: false,
            focused_row: None,
            show_secret_toggle: true,
        }
    }

    /// Appends an empty row with a fresh id, focuses it, and returns its id.
    pub fn add_row(&mut self) -> (r: u128)
        requires
            old(self).rows@.len() < usize::MAX,
        ensures
            is_v4_uuid(r),
            final(self)@ == (EditorView {
                rows: old(self)@.rows.push(blank_row(r)),
                focused_row: Some(old(self).rows@.len() as usize),
                ..old(self)@
            }),
    {
        let row = KeyValueRow::new();
        let id = row.id;
        let ghost before = self.rows@;
        self.rows.push(row);
        assert(rows_view(self.rows@) =~= rows_view(before).push(blank_row(id)));
        self.focused_row = Some(self.rows.len() - 1);
        id
    }

    /// Removes the first row with the id; says whether one was found.
    pub fn remove_row(&mut self, id: u128) -> (r: bool)
        ensures
            r == has_row_id(old(self)@.rows, id),
            !r ==> final(self)@ == old(self)@,
            r ==> exists|i: int|
                #[trigger] first_row_with_id(old(self)@.rows, id, i) && final(self)@ == (EditorView {
                    rows: old(self)@.rows.remove(i),
                    focused_row: focus_after_removal(old(self)@.focused_row, i),
                    ..old(self)@
                }),
    {
        match find_row(&self.rows, id) {
            Some(pos) => {
                let r = self.remove_row_at(pos);
                assert(first_row_with_id(old(self)@.rows, id, pos as int));
                r
            },
            None => false,
        }
    }

    /// Removes the row at the index; says whether the index was in range.
    pub fn remove_row_at(&mut self, index: usize) -> (r: bool)
        ensures
            r == (index < old(self)@.rows.len()),
            !r ==> final(self)@ == old(self)@,
            r ==> final(self)@ == (EditorView {
                rows: old(self)@.rows.remove(index as int),
                focused_row: focus_after_removal(old(self)@.focused_row, index as int),
                ..old(self)@
            }),
    {
        if index < self.rows.len() {
            let ghost before = self.rows@;
            let _row = self.rows.remove(index);
            assert(rows_view(self.rows@) =~= rows_view(before).remove(index as int));
            match self.focused_row {
                Some(f) => {
                    if f == index {
                        self.focused_row = None;
                    } else if f > index {
                        self.focused_row = Some(f - 1);
                    }
                },
                None => {},
            }
            true
        } else {
            false
        }
    }

    /// Flips whether the first row with the id is enabled; says whether one was
    /// found.
    pub fn toggle_row(&mut self, id: u128) -> (r: bool)
        ensures
            r == has_row_id(old(self)@.rows, id),
            !r ==> final(self)@ == old(self)@,
            r ==> exists|i: int|
                #[trigger] first_row_with_id(old(self)@.rows, id, i) && final(self)@ == (EditorView {
                    rows: old(self)@.rows.update(i, RowView { enabled: !old(self)@.rows[i].enabled, ..old(self)@.rows[i] }),
                    ..old(self)@
                }),
    {
        match find_row(&self.rows, id) {
            Some(pos) => {
                let ghost before = self.rows@;
                let mut row = self.rows.remove(pos);
                row.enabled = !row.enabled;
                let ghost rv = row@;
                self.rows.insert(pos, row);
                assert(rows_view(self.rows@) =~= rows_view(before).update(pos as int, rv));
                assert(first_row_with_id(old(self)@.rows, id, pos as int));
                true
            },
            None => false,
        }
    }

    /// Flips whether the first row with the id is secret; says whether one was
    /// found.
    pub fn toggle_secret(&mut self, id: u128) -> (r: bool)
        ensures
            r == has_row_id(old(self)@.rows, id),
            !r ==> final(self)@ == old(self)@,
            r ==> exists|i: int|
                #[trigger] first_row_with_id(old(self)@.rows, id, i) && final(self)@ == (EditorView {
                    rows: old(self)@.rows.update(i, RowView { secret: !old(self)@.rows[i].secret, ..old(self)@.rows[i] }),
                    ..old(self)@
                }),
    {
        match find_row(&self.rows, id) {
            Some(pos) => {
                let ghost before = self.rows@;
                let mut row = self.rows.remove(pos);
                row.secret = !row.secret;
                let ghost rv = row@;
                self.rows.insert(pos, row);
                assert(rows_view(self.rows@) =~= rows_view(before).update(pos as int, rv));
                assert(first_row_with_id(old(self)@.rows, id, pos as int));
                true
            },
            None => false,
        }
    }

    /// Sets the key of the first row with the id; says whether one was found.
    pub fn update_key(&mut self, id: u128, key: String) -> (r: bool)
        ensures
            r == has_row_id(old(self)@.rows, id),
            !r ==> final(self)@ == old(self)@,
            r ==> exists|i: int|
                #[trigger] first_row_with_id(old(self)@.rows, id, i) && final(self)@ == (EditorView {
                    rows: old(self)@.rows.update(i, RowView { key: key@, ..old(self)@.rows[i] }),
                    ..old(self)@
                }),
    {
        match find_row(&self.rows, id) {
            Some(pos) => {
                let ghost before = self.rows@;
                let mut row = self.rows.remove(pos);
                row.key = key;
                let ghost rv = row@;
                self.rows.insert(pos, row);
                assert(rows_view(self.rows@) =~= rows_view(before).update(pos as int, rv));
                assert(first_row_with_id(old(self)@.rows, id, pos as int));
                true
            },
            None => false,
        }
    }

    /// Sets the value of the first row with the id; says whether one was found.
    pub fn update_value(&mut self, id: u128, value: String) -> (r: bool)
        ensures
            r == has_row_id(old(self)@.rows, id),
            !r ==> final(self)@ == old(self)@,
            r ==> exists|i: int|
                #[trigger] first_row_with_id(old(self)@.rows, id, i) && final(self)@ == (EditorView {
                    rows: old(self)@.rows.update(i, RowView { value: value@, ..old(self)@.rows[i] }),
                    ..old(self)@
                }),
    {
        match find_row(&self.rows, id) {
            Some(pos) => {
                let ghost before = self.rows@;
                let mut row = self.rows.remove(pos);
                row.value = value;
                let ghost rv = row@;
                self.rows.insert(pos, row);
                assert(rows_view(self.rows@) =~= rows_view(before).update(pos as int, rv));
                assert(first_row_with_id(old(self)@.rows, id, pos as int));
                true
            },
            None => false,
        }
    }

    /// Focuses the row at the index, when there is one.
    pub fn focus_row(&mut self, index: usize)
        ensures
            index < old(self)@.rows.len() ==> final(self)@ == (EditorView { focused_row: Some(index), ..old(self)@ }),
            index >= old(self)@.rows.len() ==> final(self)@ == old(self)@,
    {
        if index < self.rows.len() {
            self.focused_row = Some(index);
        }
    }

    /// Drops the focus.
    pub fn clear_focus(&mut self)
        ensures
            final(self)@ == (EditorView { focused_row: None, ..old(self)@ }),
    {
        self.focused_row = None;
    }

    /// Drops the rows whose key and value are both empty; returns how many went.
    pub fn cleanup(&mut self) -> (r: usize)
        ensures
            final(self)@ == (EditorView { rows: valid_rows(old(self)@.rows), ..old(self)@ }),
            r == old(self)@.rows.len() - valid_rows(old(self)@.rows).len(),
    {
        let mut old_rows: Vec<KeyValueRow> = Vec::new();
        std::mem::swap(&mut old_rows, &mut self.rows);
        let ghost src = rows_view(old_rows@);
        let mut kept: Vec<KeyValueRow> = Vec::new();
        let mut i: usize = 0;
        while i < old_rows.len()
            invariant
                0 <= i <= old_rows@.len(),
                src == rows_view(old_rows@),
                rows_view(kept@) == valid_rows(src.take(i as int)),
                kept@.len() <= i,
            decreases old_rows@.len() - i,
        {
            proof {
                assert(src.take(i + 1).drop_last() =~= src.take(i as int));
                assert(src.take(i + 1).last() == old_rows@[i as int]@);
            }
            if old_rows[i].is_valid() {
                let row = old_rows[i].duplicate();
                let ghost prev = kept@;
                kept.push(row);
                assert(rows_view(kept@) =~= rows_view(prev).push(old_rows@[i as int]@));
            }
            i = i + 1;
        }
        assert(src.take(old_rows@.len() as int) =~= src);
        let removed = old_rows.len() - kept.len();
        self.rows = kept;
        removed
    }

    /// The enabled rows that have content, as (key, value), in order.
    pub fn to_pairs(&self) -> (r: Vec<(String, String)>)
        ensures
            string_pairs_view(r@) == active_pairs(self@.rows),
    {
        let mut r: Vec<(String, String)> = Vec::new();
        let mut i: usize = 0;
        while i < self.rows.len()
            invariant
                0 <= i <= self.rows@.len(),
                string_pairs_view(r@) == active_pairs(self@.rows.take(i as int)),
            decreases self.rows@.len() - i,
        {
            let row = &self.rows[i];
            proof {
                assert(self@.rows.take(i + 1).drop_last() =~= self@.rows.take(i as int));
                assert(self@.rows.take(i + 1).last() == row@);
            }
            if row.enabled && row.is_valid() {
                let ghost prev = r@;
                r.push((row.key.clone(), row.value.clone()));
                assert(string_pairs_view(r@) =~= string_pairs_view(prev).push((row.key@, row.value@)));
            }
            i = i + 1;
        }
        assert(self@.rows.take(self@.rows.len() as int) =~= self@.rows);
        r
    }

    /// The enabled rows that have content as a map; a later row wins.
    pub fn to_map(&self) -> (r: VarMap)
        ensures
            exists|ps: Seq<(String, String)>| string_pairs_view(ps) == active_pairs(self@.rows) && r@ == entries_map(ps),
    {
        let pairs = self.to_pairs();
        let ghost ps = pairs@;
        let m = VarMap::from_pairs(pairs);
        assert(string_pairs_view(ps) == active_pairs(self@.rows) && m@ == entries_map(ps));
        m
    }

    /// Every row as an environment variable, in order.
    pub fn to_variables(&self) -> (r: Vec<Variable>)
        ensures
            variable_fields(r@) == self@.rows.map_values(|row: RowView| row_variable(row)),
    {
        let mut r: Vec<Variable> = Vec::new();
        let mut i: usize = 0;
        while i < self.rows.len()
            invariant
                0 <= i <= self.rows@.len(),
                variable_fields(r@) == self@.rows.take(i as int).map_values(|row: RowView| row_variable(row)),
            decreases self.rows@.len() - i,
        {
            let row = &self.rows[i];
            let ghost prev = r@;
            let v = Variable { key: row.key.clone(), value: row.value.clone(), enabled: row.enabled, secret: row.secret };
            r.push(v);
            proof {
                assert(variable_fields(r@) =~= variable_fields(prev).push((v.key@, v.value@, v.enabled, v.secret)));
                assert(self@.rows[i as int] == row@);
                assert(self@.rows.take(i + 1).map_values(|row: RowView| row_variable(row)) =~= self@.rows.take(
                    i as int,
                ).map_values(|row: RowView| row_variable(row)).push(row_variable(row@)));
            }
            i = i + 1;
        }
        assert(self@.rows.take(self@.rows.len() as int) =~= self@.rows);
        r
    }

    /// Makes the editor read-only or editable.
    pub fn set_read_only(&mut self, read_only: bool)
        ensures
            final(self)@ == (EditorView { read_only, ..old(self)@ }),
    {
        self.read_only = read_only;
    }

    /// The number of enabled rows that have content.
    pub fn valid_count(&self) -> (r: usize)
        ensures
            r == active_pairs(self@.rows).len(),
    {
        let mut n: usize = 0;
        let mut i: usize = 0;
        while i < self.rows.len()
            invariant
                0 <= i <= self.rows@.len(),
                n == active_pairs(self@.rows.take(i as int)).len(),
                n <= i,
            decreases self.rows@.len() - i,
        {
            let row = &self.rows[i];
            proof {
                assert(self@.rows.take(i + 1).drop_last() =~= self@.rows.take(i as int));
                assert(self@.rows.take(i + 1).last() == row@);
            }
            if row.enabled && row.is_valid() {
                n = n + 1;
            }
            i = i + 1;
        }
        assert(self@.rows.take(self@.rows.len() as int) =~= self@.rows);
        n
    }

    /// The number of rows.
    pub fn total_count(&self) -> (r: usize)
        ensures
            r == self@.rows.len(),
    {
        self.rows.len()
    }
}

impl Default for KeyValueEditor {
    fn default() -> (r: KeyValueEditor)
        ensures
            r@ == (EditorView {
                editor_type: EditorType::Params,
                rows: Seq::empty(),
                read_only: false,
                focused_row: None,
                show_secret_toggle: false,
            }),
    {
        KeyValueEditor::new(EditorType::Params)
    }
}

/// Cleaning up twice removes nothing more than cleaning up once.
pub proof fn law_cleanup_idempotent(rows: Seq<RowView>)
    ensures
        valid_rows(valid_rows(rows)) == valid_rows(rows),
    decreases rows.len(),
{
    if rows.len() > 0 {
        law_cleanup_idempotent(rows.drop_last());
        let rest = valid_rows(rows.drop_last());
        if row_is_valid(rows.last()) {
            assert(rest.push(rows.last()).drop_last() =~= rest);
        }
    }
}

/// Cleaning up changes none of the pairs the editor hands out.
pub proof fn law_cleanup_keeps_pairs(rows: Seq<RowView>)
    ensures
        active_pairs(valid_rows(rows)) == active_pairs(rows),
    decreases rows.len(),
{
    if rows.len() > 0 {
        law_cleanup_keeps_pairs(rows.drop_last());
        let rest = valid_rows(rows.drop_last());
        if row_is_valid(rows.last()) {
            assert(rest.push(rows.last()).drop_last() =~= rest);
        }
    }
}

/// Rows made from pairs with non-empty keys hand the same pairs back.
pub proof fn law_pairs_round_trip(pairs: Seq<(Seq<char>, Seq<char>)>, rows: Seq<RowView>)
    requires
        rows.len() == pairs.len(),
        forall|i: int|
            0 <= i < pairs.len() ==> #[trigger] rows[i] == (RowView {
                key: pairs[i].0,
                value: pairs[i].1,
                ..blank_row(rows[i].id)
            }),
        forall|i: int| 0 <= i < pairs.len() ==> (#[trigger] pairs[i]).0.len() > 0,
    ensures
        active_pairs(rows) == pairs,
    decreases rows.len(),
{
    if rows.len() > 0 {
        let n = rows.len() - 1;
        assert(pairs[n].0.len() > 0);
        law_pairs_round_trip(pairs.drop_last(), rows.drop_last());
        assert(pairs.drop_last().push(pairs[n]) =~= pairs);
    } else {
        assert(pairs =~= Seq::<(Seq<char>, Seq<char>)>::empty());
    }
}

} // verus!
