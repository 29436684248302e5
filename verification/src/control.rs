//! What a key press means to the interactive controller.
use vstd::prelude::*;
use crate::waveform::Waveform;

verus! {

/// The key that was pressed.
#[derive(Debug, Copy, Clone, PartialEq, Eq, Structural)]
pub enum KeyCode {
    /// A character key.
    Char(char),
    /// The escape key.
    Esc,
    /// The up arrow.
    Up,
    /// The down arrow.
    Down,
    /// The left arrow.
    Left,
    /// The right arrow.
    Right,
    /// Any other key.
    Other,
}

/// A key press.
#[derive(Debug, Copy, Clone, PartialEq, Eq, Structural)]
pub struct KeyPress {
    /// The key.
    pub code: KeyCode,
    /// Whether the control key, and no other modifier, was held.
    pub control: bool,
}

/// The parameter that the arrow keys act on.
#[derive(Debug, Copy, Clone, PartialEq, Eq, Structural)]
pub enum Field {
    Waveform,
    Frequency,
    Volume,
}

/// What the controller does in answer to a key.
#[derive(Debug, Copy, Clone, PartialEq, Eq, Structural)]
pub enum Action {
    /// Nothing beyond a move of the selection.
    Stay,
    /// Leave the program.
    Quit,
    /// Switch to the given waveform.
    SetWaveform(Waveform),
    /// Step the given parameter up.
    Increase(Field),
    /// Step the given parameter down.
    Decrease(Field),
}

impl Field {
    /// The field above this one; the topmost stays.
    pub open spec fn spec_up(self) -> Field {
        match self {
            Field::Waveform => Field::Waveform,
            Field::Frequency => Field::Waveform,
            Field::Volume => Field::Frequency,
        }
    }

    /// The field below this one; the lowest stays.
    pub open spec fn spec_down(self) -> Field {
        match self {
            Field::Waveform => Field::Frequency,
            Field::Frequency => Field::Volume,
            Field::Volume => Field::Volume,
        }
    }
}

/// The waveform that a digit key stands for.
pub open spec fn spec_waveform_key(c: char) -> Option<Waveform> {
    if c == '1' {
        Some(Waveform::Sine)
    } else if c == '2' {
        Some(Waveform::Sawtooth)
    } else if c == '3' {
        Some(Waveform::Triangle)
    } else if c == '4' {
        Some(Waveform::Square)
    } else if c == '5' {
        Some(Waveform::Noise)
    } else {
        None
    }
}

/// The field that is selected after a key press: the arrows up and down
/// move it, unless the key is control-c.
pub open spec fn spec_selected_after(selected: Field, key: KeyPress) -> Field {
    if key.control && key.code == KeyCode::Char('c') {
        selected
    } else {
        match key.code {
            KeyCode::Up => selected.spec_up(),
            KeyCode::Down => selected.spec_down(),
            _ => selected,
        }
    }
}

/// What a key press asks for. Control-c, `q` and escape quit; left and
/// right step the selected field; the digits 1 to 5 pick a waveform.
pub open spec fn spec_action(selected: Field, key: KeyPress) -> Action {
    if key.control && key.code == KeyCode::Char('c') {
        Action::Quit
    } else {
        match key.code {
            KeyCode::Esc => Action::Quit,
            KeyCode::Left => Action::Decrease(selected),
            KeyCode::Right => Action::Increase(selected),
            KeyCode::Char(c) => if c == 'q' {
                Action::Quit
            } else {
                match spec_waveform_key(c) {
                    Some(waveform) => Action::SetWaveform(waveform),
                    None => Action::Stay,
                }
            },
            _ => Action::Stay,
        }
    }
}

/// The state of the controller: which field is selected.
#[derive(Debug, Copy, Clone)]
pub struct Controls {
    selected: Field,
}

impl View for Controls {
    type V = Field;

    closed spec fn view(&self) -> Field {
        self.selected
    }
}

impl Controls {
    /// A controller with the first field selected.
    pub fn new() -> (r: Self)
        ensures
            r@ == Field::Waveform,
    {
        Controls { selected: Field::Waveform }
    }

    /// The selected field.
    pub fn selected(&self) -> (r: Field)
        ensures
            r == self@,
    {
        self.selected
    }

    /// Takes in a key press: moves the selection and says what else is to
    /// be done.
    pub fn handle_key(&mut self, key: KeyPress) -> (r: Action)
        ensures
            final(self)@ == spec_selected_after(old(self)@, key),
            r == spec_action(old(self)@, key),
    {
        if key.control {
            if let KeyCode::Char(c) = key.code {
                if c == 'c' {
                    return Action::Quit;
                }
            }
        }
        match key.code {
            KeyCode::Esc => Action::Quit,
            KeyCode::Up => {
                self.selected = match self.selected {
                    Field::Waveform => Field::Waveform,
                    Field::Frequency => Field::Waveform,
                    Field::Volume => Field::Frequency,
                };
                Action::Stay
            },
            KeyCode::Down => {
                self.selected = match self.selected {
                    Field::Waveform => Field::Frequency,
                    Field::Frequency => Field::Volume,
                    Field::Volume => Field::Volume,
                };
                Action::Stay
            },
            KeyCode::Left => Action::Decrease(self.selected),
            KeyCode::Right => Action::Increase(self.selected),
            KeyCode::Char(c) => {
                if c == 'q' {
                    Action::Quit
                } else if c == '1' {
                    Action::SetWaveform(Waveform::Sine)
                } else if c == '2' {
                    Action::SetWaveform(Waveform::Sawtooth)
                } else if c == '3' {
                    Action::SetWaveform(Waveform::Triangle)
                } else if c == '4' {
                    Action::SetWaveform(Waveform::Square)
                } else if c == '5' {
                    Action::SetWaveform(Waveform::Noise)
                } else {
                    Action::Stay
                }
            },
            KeyCode::Other => Action::Stay,
        }
    }
}

} // verus!
