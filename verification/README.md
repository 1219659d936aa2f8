# signal_macro

A verified core for `signal_chain!`, a macro that turns a small dataflow
description of audio objects and equations into a struct with a `new` and a
`next` method, and for the integer logic of the audio engine it drives.

`src/` (verified with Verus):

- `tokens`: the token model (identifiers, punctuation, literals, groups) and
  its source text.
- `syntax`: the four questions put to syn (literal kind, identifier, binary
  operator, call expression), each behind a trusted wrapper.
- `ast`, `grammar`, `parser`: the syntax of an input, its grammar as
  specification functions, and a parser proved to follow it.
- `mapping`: which state slot holds the output of which audio object.
- `emit`, `generate`: the written code as a specification, and the writer
  proved to produce it.
- `expand`: `signal_chain`, from input tokens to written code.
- `engine`: table positions, first-channel selection, the waveshaper type.
- `laws`: properties over whole inputs.

`app/` holds what stays outside: floating-point sample arithmetic, WAV input
through hound, and the conversion between compiler tokens and the token
model.
