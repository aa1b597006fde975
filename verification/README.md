# colortool

Shows color swatches on a Wayland display and has the colorimeter program `spotread` measure
them.

- `src/` is the verified library. `color` follows the color management protocol, `app` runs the
  swatch window on two buffers, `spotread` reads the colorimeter. Each operation returns the
  requests that are to be sent, in order. `color_model` and `app_model` say what the states are
  and what each operation makes of them; `color_laws` and `app_laws` prove what holds over
  histories of operations. `double` turns the fixed-point numbers of the protocol into
  double-precision ones, held as bit patterns, and back. It is proved against a statement of how
  such numbers are rounded; `tests/double.rs` compares it with the machine's own arithmetic.
- `app/` is the program: it owns the connection, the buffers and the child process, carries out
  the requests and feeds events back. Floating-point types live there.
- `tests/` runs the library.
