# wavefront

A two-dimensional acoustic wave simulator based on the transmission-line
matrix (TLM) method: sound sources and microphones are placed on a grid,
rectangular and circular walls reflect or absorb the waves, and an absorbing
boundary around the simulated area keeps waves from bouncing back.

The crate is split in two:

- `src/` is the library, verified with Verus. It holds the integer logic of
  the simulator: converting between cell coordinates and buffer indices and
  between screen and grid positions, and the window of samples a spectrum
  is computed from (`math`); the geometry of walls, how they are moved and
  resized and how the outline menu edits them (`components`); the ids handed
  out to objects (`grid`); which cells the walls cover, how each cell is
  updated and where the absorbing boundary damps it (`simulation`); what one
  frame of mouse and keyboard input does to the scene: selecting, grabbing,
  placing, moving, resizing, removing collapsed walls, switching tools and
  pausing (`input::step::button_step`), and what pasting a wall does; what
  the side panels decide when one of their widgets is used: start/stop,
  reset, "Delete all", showing plots, choosing the object to place, the
  tool buttons, the boundary settings and the outline's edits and row order
  (`ui::panels`); and which pixels of the image are shaded over grabbed
  walls (`render::overlay`).
- `app/` is the program around it: the floating-point pulses of the
  simulation, the signal generators of the sources, microphone recordings
  and spectra, the entity-component plumbing that hands each frame's input
  to the library and applies its decisions, undo, and reading and writing
  scene and wave files, and carrying out the panels' actions. It has no
  window contents: the egui widgets, the pixel rendering of the simulation
  and the file dialogs are not part of it, so the panel decisions and the
  overlay are ready for a window but not driven by one.

Floating-point values that the library carries (reflection factors, angles)
are held as their IEEE-754 bit patterns and never computed with there.
