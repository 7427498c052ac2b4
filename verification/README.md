# Alg2A Tools

A Numworks calculator app of Algebra 2 tools (linear functions, quadratics,
systems, complex numbers, polynomials, a step-by-step simplifier) and
scrollable reference cards.

## Layout

- `src/` is the library `alg2a_tools`, verified with Verus:
  - `app_state/`: the screens, the key-event state machine (`dispatch`) with
    its invariant, and `render_screen`, which turns the state into a display
    list.
  - `ui/`: the input field editor (`InputBuffer`), menus, and the drawing
    helpers that append to a display list.
  - `reference.rs`, `cards.rs`: layout and texts of the scrolling reference
    cards.
  - `tools/`: exact integer text, gcd and fractions in lowest terms, powers of
    `i`, common factors, the standard form of a line, square factors, and the
    two notations of the general simplifier (tokenizers and parsers).
  - `text.rs`, `constants.rs`: decimal text and screen geometry.
- `app/` is the program: the event loop, the EADK display and keyboard calls,
  and the tools that compute with floating-point
  numbers (they call the library for the exact parts).
- `tests/`: tests of the library.
