# mctui

The logic of a first-person Minecraft Java renderer for a true-colour terminal,
written in Verus: every function of the library carries a contract, and Verus
proves the code against it.

## Layout

`src/` is the verified library.

| Module | What it decides |
| --- | --- |
| `grid` | block positions, voxels, faces, and read access to a world |
| `palette` | colours, opacity and map symbols of block families |
| `ray` | traversal of the voxel grid, plain and through translucent layers |
| `shade` | the surfaces of a pixel and the light on them |
| `entities` | entity groups, the order of markers, and what hides them |
| `frame` | the raster of a frame: shading, markers, and the camera overlay |
| `map` | the two text maps |
| `lighting` | packed light sections, stale cells, and the server clock |
| `overrides` | block updates that the streamed world does not show yet |
| `hud` | health, food, experience, air, inventory slots, and their lines |
| `session` | what packets, ticks and events do to the client's state |
| `input` | what keys do in the world and in the inventory |
| `config` | the command line and its validation |
| `screen` | the division of the terminal and the text of a whole screen |
| `report` | the status line, the target line, and the diagnostic modes |
| `text` | the text functions that the others share |

`app/` is the program around it: networking, the terminal, clocks, and all
floating-point arithmetic. It hands the library integers that order as the
numbers they stand for, written numbers, and percentages.

`--textures` is accepted and shown in the status line. It has no effect on the
picture yet: no pixel depends on it. No crosshair is drawn over the picture
either; the target line names the block in its middle.

`tests/` runs the library on concrete values.

## Laws

Public proof functions whose names begin with `law_` state what holds of the
library as a whole, such as that unloaded space is never taken for sky, that a
light packet is read back as it was written, or that no line reaches the last
terminal column.

## Trust

One standard-library function is believed rather than proved: that
`String::push` appends its character (`src/text.rs`). What a `BlockSource`
answers is up to its implementation.
