# VXN1

A two-layer, sixteen-voice virtual-analogue synthesizer, written in Rust and verified
with Verus.

## Layout

- `src/` is the instrument: every function carries a contract and is verified.
- `app/` is the CLAP plugin around it: the host's events and buffers, the editor window,
  and the machine's floating-point unit.
- `tests/` runs the library on the hardware's arithmetic.

## Values and arithmetic

Signals and parameters are binary32 values, held as bit patterns (`plain::Plain`).
Comparison, clamping, rounding and the conversions from and to integers are exact
functions of those bits and are proved against the integers they stand for.

Rounded arithmetic comes from outside. Every kernel takes an arithmetic unit
(`fpu::Fpu`), of which it asks only that each operation is defined everywhere and that
equal operands give equal results. A contract then names the exact sequence of roundings,
so two runs of a kernel on the same unit agree bit for bit, and a rewritten kernel has to
perform the same operations in the same order. A law that rests on rounding says what it asks
of the unit, such as that zero is nothing and one is neutral (`Fpu::keeps_units`).

## The signal path

| modules | what they hold |
|---|---|
| `plain`, `fpu`, `nums`, `math`, `lanes`, `text`, `buffers` | values, arithmetic, constants, fast approximations |
| `phase`, `oscillator`, `noise`, `lfo`, `adsr`, `tpt`, `hpf`, `ladder`, `ota_ladder` | one-voice kernels |
| `poly`, `halfband` | eight-voice kernels, cross modulation, decimation |
| `delay`, `chorus`, `bbd`, `vreverb`, `reverb_macro`, `effects` | effects |
| `choices`, `domain`, `params`, `values`, `sync`, `smoothing` | parameters and their values |
| `assign`, `mono`, `modmatrix`, `modulation`, `voice`, `render`, `synth`, `twins` | notes, voices, the instrument, instruments that sound alike |
| `shared`, `local`, `shell`, `processor`, `events` | the store, the host, the editor |

A block of the host's goes through `processor::Processor`, which takes over the editor's
changes, hears the events of each batch, renders the samples behind it with
`synth::Synth`, publishes automation and reports edits. `synth::Synth` works in control
blocks of 32 samples: smoothed parameters move one step, both layers' voices are rendered
at the oversampled rate (`render`), decimated, scaled by the volume and sent through the
effects. The master limiter stands behind the instrument; `process` says for each span
whether it is bypassed, run, or reset and run.

## Laws

Public proof functions state what holds of several operations together, such as: values
written read back; saved states come back whole; automation, whatever its value, is not
told back to the host; a free voice is taken before one is stolen, and then the oldest;
legato restarts nothing; a released key returns to the newest held one; split layers never
take each other's voices; a held voice is never freed; the shortcut for settled envelopes
changes no sample, in any block; a span rendered in one call or cut at a control block is
the same sound; the reverb's knobs are not heard while it is off; two instruments built
for the same rate are in the same state; a delay line holds every whole delay it was made
for.
