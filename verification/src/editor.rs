//! The configuration editor's state and how each key changes it. Drawing,
//! saving and looking for `gh` are done by the caller, which the returned
//! `Effect` asks for.

use vstd::prelude::*;
use crate::config::{Config, ConfigView, Mapping, MappingView};
use crate::text::{pop_char, push_char, trim, trimmed};

verus! {

/// What the editor shows.
#[derive(Debug, Clone, Copy, PartialEq, Eq, Structural)]
pub enum Mode {
    /// The table of mappings.
    List,
    /// The add/edit form.
    Edit,
    /// The unsaved-changes prompt on quit.
    ConfirmQuit,
}

/// A key press the editor reacts to.
#[derive(Debug, Clone, Copy, PartialEq, Eq, Structural)]
pub enum Key {
    Char(char),
    Up,
    Down,
    Tab,
    BackTab,
    Backspace,
    Enter,
    Esc,
    /// Any other key.
    Other,
}

/// Work the caller must do after a key.
#[derive(Debug, Clone, Copy, PartialEq, Eq, Structural)]
pub enum Effect {
    Nothing,
    /// Write the configuration to disk, then report with `saved` or `save_failed`.
    Save,
    /// Look for `gh`, then report with `gh_detected`.
    DetectGh,
}

/// The add/edit form: host, owner and account fields, one of them active.
#[derive(Debug, Clone)]
pub struct Form {
    /// The mapping being edited; `None` when adding a new one.
    pub editing: Option<usize>,
    /// host, owner, account.
    pub fields: Vec<String>,
    /// The active field.
    pub field: usize,
}

/// The form as mathematical values.
pub struct FormView {
    pub editing: Option<usize>,
    pub fields: Seq<Seq<char>>,
    pub field: usize,
}

impl View for Form {
    type V = FormView;

    open spec fn view(&self) -> FormView {
        FormView {
            editing: self.editing,
            fields: self.fields@.map_values(|s: String| s@),
            field: self.field,
        }
    }
}

/// A form with three fields and a valid active field.
pub open spec fn form_wf(f: FormView) -> bool {
    f.fields.len() == 3 && f.field < 3
}

/// A new form on the given values, with the host field active.
pub open spec fn new_form(editing: Option<usize>, host: Seq<char>, owner: Seq<char>, account: Seq<char>) -> FormView {
    FormView { editing, fields: seq![host, owner, account], field: 0 }
}

impl Form {
    /// A form on the given values, with the host field active.
    pub fn new(editing: Option<usize>, host: &str, owner: &str, account: &str) -> (r: Form)
        ensures
            r@ == new_form(editing, host@, owner@, account@),
    {
        let mut fields: Vec<String> = Vec::new();
        fields.push(String::from_str(host));
        fields.push(String::from_str(owner));
        fields.push(String::from_str(account));
        let r = Form { editing, fields, field: 0 };
        assert(r@.fields =~= seq![host@, owner@, account@]);
        r
    }
}

/// The editor's state.
#[derive(Debug, Clone)]
pub struct Editor {
    pub cfg: Config,
    pub selected: usize,
    pub mode: Mode,
    pub form: Form,
    pub status: String,
    pub dirty: bool,
    pub quit: bool,
}

/// The editor's state as mathematical values.
pub struct EditorView {
    pub cfg: ConfigView,
    pub selected: usize,
    pub mode: Mode,
    pub form: FormView,
    pub status: Seq<char>,
    pub dirty: bool,
    pub quit: bool,
}

impl View for Editor {
    type V = EditorView;

    open spec fn view(&self) -> EditorView {
        EditorView {
            cfg: self.cfg@,
            selected: self.selected,
            mode: self.mode,
            form: self.form@,
            status: self.status@,
            dirty: self.dirty,
            quit: self.quit,
        }
    }
}

/// The state after a key in the list.
pub open spec fn list_step(e: EditorView, key: Key) -> (EditorView, Effect) {
    let len = e.cfg.mappings.len();
    if key == Key::Char('q') {
        if e.dirty {
            (EditorView { mode: Mode::ConfirmQuit, ..e }, Effect::Nothing)
        } else {
            (EditorView { quit: true, ..e }, Effect::Nothing)
        }
    } else if key == Key::Up || key == Key::Char('k') {
        (
            EditorView {
                selected: if e.selected > 0 {
                    (e.selected - 1) as usize
                } else {
                    0
                },
                ..e
            },
            Effect::Nothing,
        )
    } else if (key == Key::Down || key == Key::Char('j')) && len > 0 {
        (
            EditorView {
                selected: if e.selected + 1 < len {
                    (e.selected + 1) as usize
                } else {
                    (len - 1) as usize
                },
                ..e
            },
            Effect::Nothing,
        )
    } else if key == Key::Char('a') {
        (
            EditorView {
                form: new_form(None, "github.com"@, Seq::empty(), Seq::empty()),
                mode: Mode::Edit,
                status: "Adding mapping — Tab to move, Enter to save, Esc to cancel."@,
                ..e
            },
            Effect::Nothing,
        )
    } else if key == Key::Char('e') {
        if e.selected < len {
            let m = e.cfg.mappings[e.selected as int];
            (
                EditorView {
                    form: new_form(Some(e.selected), m.host, m.owner, m.account),
                    mode: Mode::Edit,
                    status: "Editing mapping — Tab to move, Enter to save, Esc to cancel."@,
                    ..e
                },
                Effect::Nothing,
            )
        } else {
            (EditorView { status: "Nothing to edit."@, ..e }, Effect::Nothing)
        }
    } else if key == Key::Char('d') && e.selected < len {
        let m = e.cfg.mappings[e.selected as int];
        let rest = e.cfg.mappings.remove(e.selected as int);
        (
            EditorView {
                cfg: ConfigView { mappings: rest, ..e.cfg },
                dirty: true,
                selected: if rest.len() == 0 {
                    0
                } else if e.selected < rest.len() {
                    e.selected
                } else {
                    (rest.len() - 1) as usize
                },
                status: "Deleted "@ + m.host + "/"@ + m.owner + "."@,
                ..e
            },
            Effect::Nothing,
        )
    } else if key == Key::Char('D') {
        if e.selected < len {
            let a = e.cfg.mappings[e.selected as int].account;
            (
                EditorView {
                    cfg: ConfigView { default_account: Some(a), ..e.cfg },
                    dirty: true,
                    status: "Default account set to "@ + a + "."@,
                    ..e
                },
                Effect::Nothing,
            )
        } else {
            (EditorView { status: "Select a mapping to take its account as default."@, ..e }, Effect::Nothing)
        }
    } else if key == Key::Char('g') {
        (e, Effect::DetectGh)
    } else if key == Key::Char('s') {
        (e, Effect::Save)
    } else {
        (e, Effect::Nothing)
    }
}

/// The state after Enter in the form: the trimmed fields become a mapping
/// (replacing the edited one, or appended), unless one of them is empty.
pub open spec fn commit_step(e: EditorView) -> EditorView {
    let h = trimmed(e.form.fields[0]);
    let o = trimmed(e.form.fields[1]);
    let a = trimmed(e.form.fields[2]);
    if h.len() == 0 || o.len() == 0 || a.len() == 0 {
        EditorView { status: "All fields are required (owner may be '*')."@, ..e }
    } else {
        let m = MappingView { host: h, owner: o, account: a };
        let ms = e.cfg.mappings;
        let (new_ms, sel) = match e.form.editing {
            Some(i) => if i < ms.len() {
                (ms.update(i as int, m), i)
            } else {
                (ms.push(m), ms.len() as usize)
            },
            None => (ms.push(m), ms.len() as usize),
        };
        EditorView {
            cfg: ConfigView { mappings: new_ms, ..e.cfg },
            selected: sel,
            dirty: true,
            mode: Mode::List,
            status: "Mapping saved (press 's' to write to disk)."@,
            ..e
        }
    }
}

/// The state after a key in the form.
pub open spec fn edit_step(e: EditorView, key: Key) -> EditorView {
    let f = e.form;
    if key == Key::Esc {
        EditorView { mode: Mode::List, status: "Cancelled."@, ..e }
    } else if key == Key::Tab || key == Key::Down {
        EditorView { form: FormView { field: ((f.field + 1) % 3) as usize, ..f }, ..e }
    } else if key == Key::BackTab || key == Key::Up {
        EditorView { form: FormView { field: ((f.field + 2) % 3) as usize, ..f }, ..e }
    } else if key == Key::Backspace {
        let cur = f.fields[f.field as int];
        let new_cur = if cur.len() > 0 {
            cur.drop_last()
        } else {
            cur
        };
        EditorView { form: FormView { fields: f.fields.update(f.field as int, new_cur), ..f }, ..e }
    } else if key == Key::Enter {
        commit_step(e)
    } else {
        match key {
            Key::Char(c) => EditorView {
                form: FormView {
                    fields: f.fields.update(f.field as int, f.fields[f.field as int].push(c)),
                    ..f
                },
                ..e
            },
            _ => e,
        }
    }
}

/// The state after a key at the unsaved-changes prompt.
pub open spec fn confirm_step(e: EditorView, key: Key) -> (EditorView, Effect) {
    if key == Key::Char('y') || key == Key::Char('Y') {
        (EditorView { quit: true, ..e }, Effect::Save)
    } else if key == Key::Char('n') || key == Key::Char('N') {
        (EditorView { quit: true, ..e }, Effect::Nothing)
    } else if key == Key::Char('c') || key == Key::Esc {
        (EditorView { mode: Mode::List, status: "Quit cancelled."@, ..e }, Effect::Nothing)
    } else {
        (e, Effect::Nothing)
    }
}

/// The state after a key, in whatever mode the editor is.
pub open spec fn key_step(e: EditorView, key: Key) -> (EditorView, Effect) {
    match e.mode {
        Mode::List => list_step(e, key),
        Mode::Edit => (edit_step(e, key), Effect::Nothing),
        Mode::ConfirmQuit => confirm_step(e, key),
    }
}

impl Editor {
    /// The editor's invariant: the form has its three fields.
    pub open spec fn wf(&self) -> bool {
        form_wf(self.form@)
    }

    /// A fresh editor on `cfg`, showing the list.
    pub fn new(cfg: Config) -> (r: Editor)
        ensures
            r.wf(),
            r@.cfg == cfg@,
            r.selected == 0,
            r.mode == Mode::List,
            r@.form == new_form(None, Seq::empty(), Seq::empty(), Seq::empty()),
            r@.status == "Ready."@,
            !r.dirty,
            !r.quit,
    {
        let form = Form::new(None, "", "", "");
        proof {
            reveal_strlit("");
            assert(""@.len() == 0);
            assert(""@ =~= Seq::<char>::empty());
        }
        Editor {
            cfg,
            selected: 0,
            mode: Mode::List,
            form,
            status: String::from_str("Ready."),
            dirty: false,
            quit: false,
        }
    }

    /// Bring the selection into the list; returns the row to highlight
    /// (`None` for an empty list).
    pub fn clamp_selection(&mut self) -> (r: Option<usize>)
        ensures
            final(self)@ == (EditorView { selected: final(self).selected, ..old(self)@ }),
            old(self).cfg.mappings.len() == 0 ==> final(self).selected == 0 && r is None,
            old(self).cfg.mappings.len() > 0 ==> r == Some(final(self).selected)
                && final(self).selected == (if old(self).selected < old(
                self,
            ).cfg.mappings.len() {
                old(self).selected
            } else {
                (old(self).cfg.mappings.len() - 1) as usize
            }),
    {
        let len = self.cfg.mappings.len();
        if len == 0 {
            self.selected = 0;
            None
        } else {
            if self.selected >= len {
                self.selected = len - 1;
            }
            Some(self.selected)
        }
    }

    /// React to a key in the list.
    pub fn on_key_list(&mut self, key: Key) -> (eff: Effect)
        requires
            old(self).wf(),
        ensures
            final(self).wf(),
            (final(self)@, eff) == list_step(old(self)@, key),
    {
        let len = self.cfg.mappings.len();
        let ghost e = self@;
        if key == Key::Char('q') {
            if self.dirty {
                self.mode = Mode::ConfirmQuit;
            } else {
                self.quit = true;
            }
            Effect::Nothing
        } else if key == Key::Up || key == Key::Char('k') {
            if self.selected > 0 {
                self.selected = self.selected - 1;
            }
            Effect::Nothing
        } else if (key == Key::Down || key == Key::Char('j')) && len > 0 {
            if self.selected < len - 1 {
                self.selected = self.selected + 1;
            } else {
                self.selected = len - 1;
            }
            Effect::Nothing
        } else if key == Key::Char('a') {
            self.form = Form::new(None, "github.com", "", "");
            proof {
                reveal_strlit("");
                assert(""@.len() == 0);
                assert(""@ =~= Seq::<char>::empty());
            }
            self.mode = Mode::Edit;
            self.status = String::from_str(
                "Adding mapping — Tab to move, Enter to save, Esc to cancel.",
            );
            Effect::Nothing
        } else if key == Key::Char('e') {
            if self.selected < len {
                let m = &self.cfg.mappings[self.selected];
                assert(e.cfg.mappings[self.selected as int] == m@);
                self.form = Form::new(
                    Some(self.selected),
                    m.host.as_str(),
                    m.owner.as_str(),
                    m.account.as_str(),
                );
                self.mode = Mode::Edit;
                self.status = String::from_str(
                    "Editing mapping — Tab to move, Enter to save, Esc to cancel.",
                );
            } else {
                self.status = String::from_str("Nothing to edit.");
            }
            Effect::Nothing
        } else if key == Key::Char('d') && self.selected < len {
            let ghost before = self.cfg.mappings@;
            let m = self.cfg.mappings.remove(self.selected);
            proof {
                assert(self.cfg.mappings@.map_values(|m: Mapping| m@) =~= e.cfg.mappings.remove(
                    self.selected as int,
                ));
                assert(e.cfg.mappings[self.selected as int] == m@);
            }
            self.dirty = true;
            let new_len = self.cfg.mappings.len();
            if new_len == 0 {
                self.selected = 0;
            } else if self.selected >= new_len {
                self.selected = new_len - 1;
            }
            let mut s = String::from_str("Deleted ");
            s.append(m.host.as_str());
            s.append("/");
            s.append(m.owner.as_str());
            s.append(".");
            self.status = s;
            Effect::Nothing
        } else if key == Key::Char('D') {
            if self.selected < len {
                let a = self.cfg.mappings[self.selected].account.clone();
                assert(e.cfg.mappings[self.selected as int] == self.cfg.mappings@[self.selected as int]@);
                let mut s = String::from_str("Default account set to ");
                s.append(a.as_str());
                s.append(".");
                self.cfg.default_account = Some(a);
                self.dirty = true;
                self.status = s;
            } else {
                self.status = String::from_str("Select a mapping to take its account as default.");
            }
            Effect::Nothing
        } else if key == Key::Char('g') {
            Effect::DetectGh
        } else if key == Key::Char('s') {
            Effect::Save
        } else {
            Effect::Nothing
        }
    }

    /// Turn the form into a mapping (Enter in the form).
    pub fn commit_form(&mut self)
        requires
            old(self).wf(),
        ensures
            final(self).wf(),
            final(self)@ == commit_step(old(self)@),
    {
        let ghost e = self@;
        assert(e.form.fields[0] == self.form.fields@[0]@);
        assert(e.form.fields[1] == self.form.fields@[1]@);
        assert(e.form.fields[2] == self.form.fields@[2]@);
        let host = trim(self.form.fields[0].as_str());
        let owner = trim(self.form.fields[1].as_str());
        let account = trim(self.form.fields[2].as_str());
        if host.unicode_len() == 0 || owner.unicode_len() == 0 || account.unicode_len() == 0 {
            self.status = String::from_str("All fields are required (owner may be '*').");
            return;
        }
        let mapping = Mapping { host, owner, account };
        let ghost mv = mapping@;
        let len = self.cfg.mappings.len();
        match self.form.editing {
            Some(i) if i < len => {
                self.cfg.mappings.set(i, mapping);
                assert(self.cfg.mappings@.map_values(|m: Mapping| m@) =~= e.cfg.mappings.update(
                    i as int,
                    mv,
                ));
                self.selected = i;
            },
            _ => {
                self.cfg.mappings.push(mapping);
                assert(self.cfg.mappings@.map_values(|m: Mapping| m@) =~= e.cfg.mappings.push(mv));
                self.selected = len;
            },
        }
        self.dirty = true;
        self.mode = Mode::List;
        self.status = String::from_str("Mapping saved (press 's' to write to disk).");
    }

    /// React to a key in the form.
    pub fn on_key_edit(&mut self, key: Key)
        requires
            old(self).wf(),
        ensures
            final(self).wf(),
            final(self)@ == edit_step(old(self)@, key),
    {
        let ghost e = self@;
        if key == Key::Esc {
            self.mode = Mode::List;
            self.status = String::from_str("Cancelled.");
        } else if key == Key::Tab || key == Key::Down {
            self.form.field = (self.form.field + 1) % 3;
        } else if key == Key::BackTab || key == Key::Up {
            self.form.field = (self.form.field + 2) % 3;
        } else if key == Key::Backspace {
            let i = self.form.field;
            let mut s = self.form.fields[i].clone();
            let _ = pop_char(&mut s);
            let ghost sv = s@;
            self.form.fields.set(i, s);
            assert(self.form@.fields =~= e.form.fields.update(i as int, sv));
        } else if key == Key::Enter {
            self.commit_form();
        } else if let Key::Char(c) = key {
            let i = self.form.field;
            let mut s = self.form.fields[i].clone();
            push_char(&mut s, c);
            let ghost sv = s@;
            self.form.fields.set(i, s);
            assert(self.form@.fields =~= e.form.fields.update(i as int, sv));
        }
    }

    /// React to a key at the unsaved-changes prompt.
    pub fn on_key_confirm(&mut self, key: Key) -> (eff: Effect)
        requires
            old(self).wf(),
        ensures
            final(self).wf(),
            (final(self)@, eff) == confirm_step(old(self)@, key),
            key == Key::Char('n') || key == Key::Char('N') ==> eff == Effect::Nothing
                && final(self)@ == (EditorView { quit: true, ..old(self)@ }),
            key == Key::Char('y') || key == Key::Char('Y') ==> eff == Effect::Save
                && final(self)@ == (EditorView { quit: true, ..old(self)@ }),
            eff == Effect::Save <==> (key == Key::Char('y') || key == Key::Char('Y')),
    {
        proof {
            lemma_prompt_answers(old(self)@, key);
        }
        if key == Key::Char('y') || key == Key::Char('Y') {
            self.quit = true;
            Effect::Save
        } else if key == Key::Char('n') || key == Key::Char('N') {
            self.quit = true;
            Effect::Nothing
        } else if key == Key::Char('c') || key == Key::Esc {
            self.mode = Mode::List;
            self.status = String::from_str("Quit cancelled.");
            Effect::Nothing
        } else {
            Effect::Nothing
        }
    }

    /// React to a key.
    pub fn on_key(&mut self, key: Key) -> (eff: Effect)
        requires
            old(self).wf(),
        ensures
            final(self).wf(),
            (final(self)@, eff) == key_step(old(self)@, key),
            old(self).mode == Mode::ConfirmQuit && (key == Key::Char('n') || key == Key::Char('N'))
                ==> eff == Effect::Nothing && final(self)@ == (EditorView {
                quit: true,
                ..old(self)@
            }),
            old(self).mode == Mode::ConfirmQuit && eff == Effect::Save ==> key == Key::Char('y')
                || key == Key::Char('Y'),
    {
        proof {
            lemma_prompt_answers(old(self)@, key);
        }
        match self.mode {
            Mode::List => self.on_key_list(key),
            Mode::Edit => {
                self.on_key_edit(key);
                Effect::Nothing
            },
            Mode::ConfirmQuit => self.on_key_confirm(key),
        }
    }

    /// The configuration was written to `path`.
    pub fn saved(&mut self, path: &str)
        ensures
            final(self)@ == (EditorView {
                dirty: false,
                status: "Saved to "@ + path@,
                ..old(self)@
            }),
    {
        self.dirty = false;
        let mut s = String::from_str("Saved to ");
        s.append(path);
        self.status = s;
    }

    /// Writing the configuration failed with `message`.
    pub fn save_failed(&mut self, message: &str)
        ensures
            final(self)@ == (EditorView { status: "Save failed: "@ + message@, ..old(self)@ }),
    {
        let mut s = String::from_str("Save failed: ");
        s.append(message);
        self.status = s;
    }

    /// The search for `gh` found `found` (or nothing).
    pub fn gh_detected(&mut self, found: Option<String>)
        ensures
            match found {
                Some(p) => final(self)@ == (EditorView {
                    cfg: ConfigView { gh_path: Some(p@), ..old(self)@.cfg },
                    dirty: true,
                    status: "Detected gh: "@ + p@,
                    ..old(self)@
                }),
                None => final(self)@ == (EditorView {
                    status: "gh not found on PATH or well-known locations."@,
                    ..old(self)@
                }),
            },
    {
        match found {
            Some(p) => {
                let mut s = String::from_str("Detected gh: ");
                s.append(p.as_str());
                self.cfg.gh_path = Some(p);
                self.dirty = true;
                self.status = s;
            },
            None => {
                self.status = String::from_str("gh not found on PATH or well-known locations.");
            },
        }
    }
}

/// How a mapping is listed in the editor.
pub open spec fn mapping_label_spec(m: MappingView) -> Seq<char> {
    m.host + " / "@ + m.owner + "  →  "@ + m.account
}

/// How a mapping is listed in the editor: `host / owner  →  account`.
pub fn mapping_label(m: &Mapping) -> (r: String)
    ensures
        r@ == mapping_label_spec(m@),
{
    let mut s = m.host.clone();
    s.append(" / ");
    s.append(m.owner.as_str());
    s.append("  →  ");
    s.append(m.account.as_str());
    s
}

impl Form {
    /// The text shown for field `i`: its value, with a cursor `_` when active.
    pub fn field_display(&self, i: usize) -> (r: String)
        requires
            form_wf(self@),
            i < 3,
        ensures
            r@ == (if i == self.field {
                self@.fields[i as int] + "_"@
            } else {
                self@.fields[i as int]
            }),
    {
        let mut s = self.fields[i].clone();
        if i == self.field {
            s.append("_");
        }
        s
    }

    /// The form's title: editing an existing mapping or adding one.
    pub fn title(&self) -> (r: &'static str)
        ensures
            r@ == (if self.editing is Some {
                " Edit mapping "@
            } else {
                " Add mapping "@
            }),
    {
        if self.editing.is_some() {
            " Edit mapping "
        } else {
            " Add mapping "
        }
    }
}

impl Editor {
    /// The editor's title line, marked when there are unsaved changes.
    pub fn header_title(&self) -> (r: String)
        ensures
            r@ == "gh-autoswitch — config editor"@ + (if self.dirty {
                "  [modified]"@
            } else {
                Seq::<char>::empty()
            }),
    {
        let mut s = String::from_str("gh-autoswitch — config editor");
        if self.dirty {
            s.append("  [modified]");
        }
        s
    }

    /// The default account shown in the header.
    pub fn default_account_label(&self) -> (r: String)
        ensures
            r@ == match self.cfg.default_account {
                Some(a) => a@,
                None => "(none — press 'D' on a mapping)"@,
            },
    {
        match &self.cfg.default_account {
            Some(a) => a.clone(),
            None => String::from_str("(none — press 'D' on a mapping)"),
        }
    }

    /// The `gh` path shown in the header, or a hint to detect it.
    pub fn gh_path_label(&self) -> (r: String)
        ensures
            r@ == match self.cfg.gh_path {
                Some(p) => p@,
                None => "(not set — press 'g' to detect)"@,
            },
    {
        match &self.cfg.gh_path {
            Some(p) => p.clone(),
            None => String::from_str("(not set — press 'g' to detect)"),
        }
    }
}

/// Unsaved changes are never dropped silently: a key that makes a
/// modified editor quit is `y` at the prompt (which also asks for a save) or
/// `n` there; `q` in the list only opens the prompt.
pub proof fn lemma_quit_keeps_unsaved_changes(e: EditorView, key: Key)
    requires
        e.dirty,
        !e.quit,
    ensures
        key_step(e, key).0.quit ==> e.mode == Mode::ConfirmQuit && ((key == Key::Char('y') || key
            == Key::Char('Y')) && key_step(e, key).1 == Effect::Save || key == Key::Char('n')
            || key == Key::Char('N')),
        e.mode == Mode::List && key == Key::Char('q') ==> key_step(e, key).0.mode
            == Mode::ConfirmQuit && !key_step(e, key).0.quit,
{
}

/// The selection stays on a mapping: when it points into the list (or is 0
/// for an empty list) before a key, it does so after it.
pub proof fn lemma_selection_stays_in_bounds(e: EditorView, key: Key)
    requires
        form_wf(e.form),
        e.cfg.mappings.len() > 0 ==> e.selected < e.cfg.mappings.len(),
        e.cfg.mappings.len() == 0 ==> e.selected == 0,
    ensures
        ({
            let e2 = key_step(e, key).0;
            &&& e2.cfg.mappings.len() > 0 ==> e2.selected < e2.cfg.mappings.len()
            &&& e2.cfg.mappings.len() == 0 ==> e2.selected == 0
        }),
{
}

/// A committed form is stored: when none of the trimmed fields is empty,
/// the selected mapping afterwards is exactly the trimmed host, owner and
/// account, and the editor is back at the list with unsaved changes.
pub proof fn lemma_commit_stores_trimmed_fields(e: EditorView)
    requires
        form_wf(e.form),
        e.cfg.mappings.len() < usize::MAX,
        trimmed(e.form.fields[0]).len() > 0,
        trimmed(e.form.fields[1]).len() > 0,
        trimmed(e.form.fields[2]).len() > 0,
    ensures
        ({
            let e2 = commit_step(e);
            &&& e2.selected < e2.cfg.mappings.len()
            &&& e2.cfg.mappings[e2.selected as int] == MappingView {
                host: trimmed(e.form.fields[0]),
                owner: trimmed(e.form.fields[1]),
                account: trimmed(e.form.fields[2]),
            }
            &&& e2.mode == Mode::List
            &&& e2.dirty
        }),
{
}

/// At the unsaved-changes prompt, `n`/`N` quits without asking for a save
/// (the changes are discarded), `y`/`Y` quits and asks for a save, and no
/// other key asks for a save.
pub proof fn lemma_prompt_answers(e: EditorView, key: Key)
    ensures
        e.mode == Mode::ConfirmQuit && (key == Key::Char('n') || key == Key::Char('N')) ==> key_step(
            e,
            key,
        ) == (EditorView { quit: true, ..e }, Effect::Nothing),
        e.mode == Mode::ConfirmQuit && (key == Key::Char('y') || key == Key::Char('Y')) ==> key_step(
            e,
            key,
        ) == (EditorView { quit: true, ..e }, Effect::Save),
        e.mode == Mode::ConfirmQuit ==> (key_step(e, key).1 == Effect::Save <==> (key == Key::Char(
            'y',
        ) || key == Key::Char('Y'))),
        (key == Key::Char('n') || key == Key::Char('N')) ==> confirm_step(e, key) == (
            EditorView { quit: true, ..e },
            Effect::Nothing,
        ),
        (key == Key::Char('y') || key == Key::Char('Y')) ==> confirm_step(e, key) == (
            EditorView { quit: true, ..e },
            Effect::Save,
        ),
        confirm_step(e, key).1 == Effect::Save <==> (key == Key::Char('y') || key == Key::Char('Y')),
{
}

} // verus!
