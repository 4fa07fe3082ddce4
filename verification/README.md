# tape_decode: SECAM method 1 chroma restoration

The verified library in `src/` holds the decision logic of restoring the
studio SECAM chroma block from a method 1 (quarter count-down) colour-under
recording:

- `parity`: the D'R/D'B line-identity parity flywheel that carries the fitted
  line alternation across fields along the four-field cycle, with its laws
  (minimum lock, expiry, reset on contradiction, one learned bit predicting
  every later field);
- `line_ident`: the measurement window and majority tally of the per-field
  line-alternation fit;
- `blanking`: which lines get their blanking interval resynthesized and the
  sample geometry of each splice, which never touches active video;
- `field`: the field-size check, vertical-interval blanking, porch window and
  the 16-bit output wrap.

`app/` holds the floating-point signal path (phase multiplication of the
analytic signal, bell pre-emphasis, carrier measurement and synthesis), which
calls the library for every decision. The field filters and the analytic
signal are passed in by the caller.
