# omnect-os-init

The init process of the omnect-os initramfs, with its decisions verified by Verus.

It runs as PID 1, brings the device from the kernel to `switch_root`, and decides what
happens when something fails on the way: mounts and checks the partitions, reads and
writes the environment of the bootloader (GRUB or U-Boot), grows the data partition on
the first boot, resets the device to factory defaults on request, sets up overlays and
links, leaves a status for `omnect-device-service`, and hands over to systemd.

## Layout

- `src/` is the library. All of it is verified.
- `app/` is the program around it: it performs what the library asks for, writes the
  kernel log, and halts, reboots or opens a shell.
- `tests/` run the library against an in-memory system.

## How the library talks to the system

A procedure of the library performs nothing itself. It works on a `system::Session`,
which holds the answers that are there so far. A procedure that needs to know or to do
something records a `Request` and continues with the `Reply`. Where no answer is left it
stops with `Stop::Pending`; the caller performs the last request that was recorded, adds
the answer, and runs the procedure again.

So what a procedure does follows from its arguments and the answers alone, and its
contract says both what it asks and what it makes of the answers:

    (final(sys)@, outcome(r)) == mounted(old(sys)@, ...)

The specification functions named like the result of an action (`mounted`, `persisted`,
`reset_done`, `booted`, ...) describe a whole procedure in this way. The proof functions
named `law_...` state what holds of them in general: that fsck results are persisted
before a failure is passed on, that a reboot asked for by fsck wins over a missing boot
environment, that nothing is wiped before it was backed up, that a reset never keeps the
device from booting, and so on. Those in `src/replay/` state what the caller relies on: a
procedure that stops has exactly one request outstanding, and run again with more answers
it asks the same requests and goes on from there.

The boot environment is a trait, `bootloader::BootEnv`, with a model of its state.
`SessionEnv` implements it over the tools of the bootloader, `MockBootEnv` in memory.

## What is trusted

JSON text is read and written by `serde_json` (`src/json.rs`); how the fields of a
configuration are picked out of it is proved (`src/fields.rs`). `src/bytes.rs` and
`src/text.rs` rely on three functions of `String`. Nothing else is taken without proof.

## Building an image

The program is configured by variables of the environment that it is built in:

| Variable | Meaning |
|----------|---------|
| `OMNECT_BOOTLOADER` | `uboot` for U-Boot, otherwise GRUB |
| `OMNECT_PARTITION_TABLE` | `dos` for a DOS partition table, otherwise GPT |
| `OMNECT_RELEASE_IMAGE` | set: boots on without a boot environment, never opens a shell |
| `OMNECT_RESIZE_DATA` | set: grows the data partition on the first boot |
| `OMNECT_FACTORY_RESET` | set: supports the factory reset |
| `OMNECT_PERSISTENT_VAR_LOG` | set: keeps `/var/log` on the data partition |
