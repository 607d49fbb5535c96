use vstd::prelude::*;

verus! {

/// The different types of objects that can be placed in the simulation.
#[derive(Clone, Copy, Debug, PartialEq, Eq, Structural)]
pub enum PlaceType {
    Source,
    Mic,
    RectWall,
    CircWall,
}

impl PlaceType {
    /// The name under which the object type is shown.
    pub fn label(&self) -> (s: String)
        ensures
            s@ == match *self {
                PlaceType::Source => "Source"@,
                PlaceType::Mic => "Microphone"@,
                PlaceType::RectWall => "Rectangle Wall"@,
                PlaceType::CircWall => "Circle Wall"@,
            },
    {
        match self {
            PlaceType::Source => "Source".to_owned(),
            PlaceType::Mic => "Microphone".to_owned(),
            PlaceType::RectWall => "Rectangle Wall".to_owned(),
            PlaceType::CircWall => "Circle Wall".to_owned(),
        }
    }
}

/// The tool with which the user edits the scene.
#[derive(Clone, Copy, Debug, PartialEq, Eq, Structural)]
pub enum ToolType {
    Select,
    Move,
    ResizeWall,
    Place(PlaceType),
}

impl ToolType {
    /// The name under which the tool is shown.
    pub fn label(&self) -> (s: String)
        ensures
            s@ == match *self {
                ToolType::Select => "Select Object"@,
                ToolType::Move => "Move Object"@,
                ToolType::ResizeWall => "Resize Wall"@,
                ToolType::Place(_) => "Place Object"@,
            },
    {
        match self {
            ToolType::Select => "Select Object".to_owned(),
            ToolType::Move => "Move Object".to_owned(),
            ToolType::ResizeWall => "Resize Wall".to_owned(),
            ToolType::Place(_) => "Place Object".to_owned(),
        }
    }
}

/// How the spectrum of a microphone's recording is scaled in its plot.
#[derive(Clone, Copy, Debug, PartialEq, Eq, Structural)]
pub enum FftScaling {
    Normalized,
    Decibels,
}

impl FftScaling {
    /// The name under which the scaling is shown.
    pub fn label(&self) -> (s: String)
        ensures
            s@ == match *self {
                FftScaling::Normalized => "Normalized"@,
                FftScaling::Decibels => "dB"@,
            },
    {
        match self {
            FftScaling::Normalized => "Normalized".to_owned(),
            FftScaling::Decibels => "dB".to_owned(),
        }
    }
}

/// The microphone whose spectrum is shown, if any.
#[derive(Clone, Copy, Debug, PartialEq, Eq, Structural)]
pub struct FftMicrophone {
    pub mic_id: Option<usize>,
}

impl Default for FftMicrophone {
    fn default() -> (m: Self)
        ensures
            m.mic_id is None,
    {
        FftMicrophone { mic_id: None }
    }
}

/// A resource to store the currently copied entity for the clipboard. The
/// entity is held as its 64-bit identifier (`Entity::to_bits`).
#[derive(Clone, Copy, Debug, PartialEq, Eq, Structural)]
pub struct ClipboardBuffer {
    pub buffer: Option<u64>,
}

impl Default for ClipboardBuffer {
    fn default() -> (c: Self)
        ensures
            c.buffer is None,
    {
        ClipboardBuffer { buffer: None }
    }
}

impl ClipboardBuffer {
    /// Clears the clipboard buffer.
    pub fn clear(&mut self)
        ensures
            final(self).buffer is None,
    {
        self.buffer = None;
    }

    /// Returns the entity stored in the clipboard buffer. Returns `None` if the buffer is empty.
    pub fn get(&mut self) -> (e: Option<u64>)
        ensures
            e == old(self).buffer,
            *final(self) == *old(self),
    {
        self.buffer
    }

    /// Copies an entity to the clipboard buffer.
    pub fn copy(&mut self, entity: u64)
        ensures
            final(self).buffer == Some(entity),
    {
        self.buffer = Some(entity);
    }
}

} // verus!
