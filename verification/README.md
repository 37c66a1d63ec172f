# upse_hw

Verified models of the PlayStation and PlayStation 2 I/O-processor hardware that PSF and
PSF2 music playback needs: the R3000 processor, memory maps, interrupt controllers, DMA,
timers, and both sound processors. Rendered video and disc media are left out; their
control registers are modeled as far as initialization code uses them.

- `src/r3000`: the processor, over a machine-supplied bus.
- `src/spu_common`: ADPCM, envelopes, interpolation, noise, pitch, and effects arithmetic.
- `src/ps1`, `src/ps2`: the devices of each machine.
- `src/scheduler.rs`, `src/clock.rs`: the event queue and its time.
- `app`: the errors with `Display`, and the interpolation table in floating point.

Every function states what it returns and how it changes its device. Public proof
functions named `law_...` state what holds across several of them, such as that audio
does not depend on how rendering is cut into chunks.
