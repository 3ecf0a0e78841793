# rticx-rp2040

An [RTICX](https://github.com/rticx-rs/rticx) multicore distribution for the
Raspberry Pi Pico / RP2040, a dual-core Cortex-M0+, with its rules verified by
Verus.

- `src/` is the verified library: which code is generated for an application
  (`backend`, `spawn`), which interrupts may be bound (`irq`), how the
  `core1_stack` argument is consumed (`core1_stack`, over `attr` and `info_bus`),
  which passes run (`passes`), and the logic of two example applications
  (`multitasker`, `ping_pong`). Generated code is text; `app/` turns it into
  tokens.
- `app/` is the `app` attribute around the library, and the hardware side of the
  examples.
- `tests/` runs the library on concrete values.

## Features

- `async` -- `async` software tasks
- `swtasks` -- core-local and cross-core software tasks; excludes `async`
- `autoassign` -- automatic assignment of tasks to cores

## Core 1 stack size

Core 1 gets a stack of 4096 32-bit words (16 KiB). The argument `core1_stack = N`
gives it `N` words instead. It is only accepted with `cores = 2`, and from 1024
words on.

``` rust
// Give core 1 a 32 KiB stack (8192 * 4 bytes)
#[rticx_rp2040::app(device = rp2040_hal::pac, cores = 2, core1_stack = 8192)]
mod my_app {
    // ...
}
```

## License

MIT
