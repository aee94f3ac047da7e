# rodio

The core of an audio playback library, verified with [Verus](https://github.com/verus-lang/verus).

`src/` is the library. It moves samples around and never computes with them, so it is generic in what
a sample is:

- `common`, `math`, `time`: sample rates, channel counts, counts of samples and frames that cannot be
  mixed up, the integer arithmetic behind them, and spans of time.
- `source`: the `Source` trait, and what is built on it. `source::resample` surrounds a resampler that
  works on chunks, `source::agc` and `source::automatic_gain_control` an automatic gain control,
  `source::span` notices new spans.
- `conversions::sample_rate`: sample rate conversion that respects spans.
- `decoder`: what to make of the packets of a stream, of its end, of malformed data and of seeks.
- `external`: what is taken for granted of other crates.

Where a resampler, a demuxer, a decoder or floating-point arithmetic has to do some work, a function
says so in its result, and the outcome is handed to another function. `app/` does that work, with
`rubato` and `symphonia`. It is not verified. `tests/` runs the library on concrete values, with both
of them.
