# automapaper

A shader wallpaper for Wayland. A daemon draws it; the same program, given a command, talks to
the daemon.

`src/` is a library verified with Verus. It holds what there is to decide:

- `single`: single-precision numbers by their bits, and the nearest one to a quotient
- `uniform`: colours, and the text they are written in
- `params`: the uniforms, and the block of memory that the shaders read
- `path`, `config`: the configuration, and where it is found
- `ipc`: the daemon's socket, requests and answers
- `cli`: what the command line asks for, and how failures end the program
- `pixels`, `wallpaper`: the state textures, and what a frame draws
- `renderer`: what commands, time and the compositor's events do
- `schedule`: the order of drawing and configuring
- `text`: comparing texts

`app/` is the program around it: arguments, files, the socket, the compositor, the graphics card,
and floating-point arithmetic. `tests/` runs the library.
