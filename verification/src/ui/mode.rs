//! Editing modes and the cursor shapes that go with them.

use vstd::prelude::*;

use crate::strings;

verus! {

/// The shape of the cursor.
#[derive(Clone, Copy, Debug, PartialEq, Eq, Structural)]
pub enum CursorShape {
    Block,
    Horizontal,
    Vertical,
}

/// One mode of nvim's table.
#[derive(Clone, Debug, PartialEq, Eq)]
pub struct ModeInfo {
    pub name: String,
    pub shape: CursorShape,
    /// How thick a bar is, in percent of the cell. Of no meaning for a block.
    pub cell_percentage: u8,
    /// The highlight that colours the cursor. 0 means that the cell's colours are exchanged.
    pub attr_id: u32,
}

/// The table of modes and the mode that nvim is in.
#[derive(Clone, Debug, PartialEq, Eq)]
pub struct ModeState {
    modes: Vec<ModeInfo>,
    current: usize,
    name: String,
    cursor_style_enabled: bool,
}

#[verifier::ext_equal]
pub struct ModeInfoView {
    pub name: Seq<char>,
    pub shape: CursorShape,
    pub cell_percentage: u8,
    pub attr_id: u32,
}

#[verifier::ext_equal]
pub struct ModeView {
    pub modes: Seq<ModeInfoView>,
    pub current: nat,
    pub name: Seq<char>,
    pub cursor_style_enabled: bool,
}

/// An entry of the table in which nothing is given.
pub open spec fn plain_mode() -> ModeInfoView {
    ModeInfoView { name: seq![], shape: CursorShape::Block, cell_percentage: 0, attr_id: 0 }
}

/// The modes of a table, as they show.
pub open spec fn shown_modes(modes: Seq<ModeInfo>) -> Seq<ModeInfoView> {
    Seq::new(modes.len(), |i: int| modes[i]@)
}

/// Whether text can be typed in the mode of this name. The part before the first underscore
/// decides.
pub open spec fn takes_text(name: Seq<char>) -> bool {
    let head = strings::until(name, '_');
    ||| head == "insert"@
    ||| head == "replace"@
    ||| head == "cmdline"@
    ||| head == "terminal"@
    ||| head == "select"@
}

impl ModeView {
    /// The entry of the current mode, where the table has one.
    pub open spec fn info(self) -> Option<ModeInfoView> {
        if self.current < self.modes.len() {
            Some(self.modes[self.current as int])
        } else {
            None
        }
    }

    /// Another table. A current index that it does not have becomes 0.
    pub open spec fn with_modes(self, modes: Seq<ModeInfoView>, enabled: bool) -> ModeView {
        ModeView {
            modes,
            cursor_style_enabled: enabled,
            current: if self.current < modes.len() {
                self.current
            } else {
                0
            },
            ..self
        }
    }

    pub open spec fn with_current(self, name: Seq<char>, index: nat) -> ModeView {
        ModeView { name, current: index, ..self }
    }
}

impl View for ModeInfo {
    type V = ModeInfoView;

    open spec fn view(&self) -> ModeInfoView {
        ModeInfoView {
            name: self.name@,
            shape: self.shape,
            cell_percentage: self.cell_percentage,
            attr_id: self.attr_id,
        }
    }
}

impl View for ModeState {
    type V = ModeView;

    closed spec fn view(&self) -> ModeView {
        ModeView {
            modes: shown_modes(self.modes@),
            current: self.current as nat,
            name: self.name@,
            cursor_style_enabled: self.cursor_style_enabled,
        }
    }
}

impl Default for CursorShape {
    fn default() -> (shape: CursorShape)
        ensures
            shape == CursorShape::Block,
    {
        CursorShape::Block
    }
}

impl Default for ModeInfo {
    fn default() -> (info: ModeInfo)
        ensures
            info@ == plain_mode(),
    {
        let info = ModeInfo {
            name: String::new(),
            shape: CursorShape::Block,
            cell_percentage: 0,
            attr_id: 0,
        };
        assert(info@ =~= plain_mode());
        info
    }
}

impl Default for ModeState {
    fn default() -> (state: ModeState)
        ensures
            state@ == (ModeView {
                modes: seq![],
                current: 0,
                name: seq![],
                cursor_style_enabled: false,
            }),
    {
        let state = ModeState {
            modes: Vec::new(),
            current: 0,
            name: String::new(),
            cursor_style_enabled: false,
        };
        assert(state@.modes =~= seq![]);
        assert(state@.name =~= seq![]);
        state
    }
}

impl ModeState {
    /// Takes over a new table.
    pub fn set_modes(&mut self, modes: Vec<ModeInfo>, cursor_style_enabled: bool)
        ensures
            final(self)@ == old(self)@.with_modes(shown_modes(modes@), cursor_style_enabled),
    {
        self.modes = modes;
        self.cursor_style_enabled = cursor_style_enabled;
        if self.current >= self.modes.len() {
            self.current = 0;
        }
    }

    /// nvim is now in the mode `name`, at `index` of the table.
    pub fn set_current(&mut self, name: String, index: usize)
        ensures
            final(self)@ == old(self)@.with_current(name@, index as nat),
    {
        self.name = name;
        self.current = index;
    }

    pub fn name(&self) -> (name: &str)
        ensures
            name@ == self@.name,
    {
        self.name.as_str()
    }

    pub fn cursor_style_enabled(&self) -> (enabled: bool)
        ensures
            enabled == self@.cursor_style_enabled,
    {
        self.cursor_style_enabled
    }

    /// The entry of the current mode. `None` as long as no table came.
    pub fn info(&self) -> (info: Option<&ModeInfo>)
        ensures
            (match info {
                Some(i) => self@.info() == Some(i@),
                None => self@.info() is None,
            }),
    {
        if self.current < self.modes.len() {
            Some(&self.modes[self.current])
        } else {
            None
        }
    }

    /// Whether text can be typed in this mode. The input method is on exactly then.
    pub fn accepts_text_input(&self) -> (accepts: bool)
        ensures
            accepts == takes_text(self@.name),
    {
        let head = strings::text_until(self.name.as_str(), '_');
        let head = head.as_str();
        strings::str_eq(head, "insert") || strings::str_eq(head, "replace") || strings::str_eq(
            head,
            "cmdline",
        ) || strings::str_eq(head, "terminal") || strings::str_eq(head, "select")
    }
}

/// Text can be typed in five modes, and in each variant of them, which has an underscore behind the
/// name of the mode.
pub proof fn law_modes_that_take_text(head: Seq<char>, rest: Seq<char>)
    requires
        forall|i: int| 0 <= i < head.len() ==> head[i] != '_',
    ensures
        takes_text(head) <==> head == "insert"@ || head == "replace"@ || head == "cmdline"@ || head
            == "terminal"@ || head == "select"@,
        takes_text(head + seq!['_'] + rest) == takes_text(head),
{
    strings::lemma_until_is(head, '_', head.len() as int);
    assert(head.take(head.len() as int) =~= head);
    let name = head + seq!['_'] + rest;
    assert forall|i: int| 0 <= i < head.len() implies name[i] != '_' by {
        assert(name[i] == head[i]);
    }
    strings::lemma_until_is(name, '_', head.len() as int);
    assert(name.take(head.len() as int) =~= head);
}

/// The current mode is the one at the current index, where the table has it; another mode leaves the
/// table alone, and another table leaves the mode.
pub proof fn law_current_mode(m: ModeView, name: Seq<char>, index: nat)
    ensures
        m.current < m.modes.len() ==> m.info() == Some(m.modes[m.current as int]),
        m.current >= m.modes.len() ==> m.info() is None,
        ({
            let after = m.with_current(name, index);
            &&& after.name == name
            &&& after.current == index
            &&& after.modes == m.modes
            &&& after.cursor_style_enabled == m.cursor_style_enabled
        }),
        plain_mode() == (ModeInfoView {
            name: seq![],
            shape: CursorShape::Block,
            cell_percentage: 0,
            attr_id: 0,
        }),
{
}

/// Another table holds its own modes; the place of the current mode stays where the table has it.
pub proof fn law_another_table(m: ModeView, modes: Seq<ModeInfoView>, enabled: bool)
    ensures
        ({
            let after = m.with_modes(modes, enabled);
            &&& after.modes == modes
            &&& after.cursor_style_enabled == enabled
            &&& after.name == m.name
            &&& m.current < modes.len() ==> after.current == m.current
            &&& m.current >= modes.len() ==> after.current == 0
        }),
{
}

} // verus!
