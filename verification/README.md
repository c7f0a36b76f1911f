# nds_core

The core of a Nintendo DS emulator, verified with Verus: interrupts, timers,
the event scheduler, the link between the two processors, the SPI devices, video
memory, the 3D engine, display capture and the loop that runs them.

- `src/` is the library. Each function states what it does in its contract, and
  public proof functions named `law_..` state what holds of several together.
- `src/nds.rs` holds the loop as a state machine. Instructions, DMA transfers, 2D
  drawing, sound and the game card are outside work: a step of the loop says which
  work is due and takes its outcome.
- `app/` performs that work through a trait, and prints diagnostics.
- `tests/` runs the library on concrete values.
