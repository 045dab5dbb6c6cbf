# tcmu

A generic SCSI/TCMU command processor for user-space block devices, verified with Verus.

[TCMU](https://www.kernel.org/doc/html/latest/driver-api/target/tcmu-design.html) (Target
Core Module Userspace) is a Linux kernel facility that lets user-space processes handle SCSI
commands for block devices. Implement `BlockDevice` for a backing store, describe it with a
`TcmuDeviceConfig`, and `TcmuDevice` turns raw command bytes into status, data and sense.

## Layout

- `src/` is the verified library.
  - `device` executes commands; `command` and `semantics` are the model its contracts speak
    of, and `laws` holds what follows from it: what is written is read back, a refused
    command changes nothing, and so on.
  - `ring` serves the commands that the kernel puts into shared memory (`ring_laws`), and
    `event_loop` decides when.
  - `target` plans the configfs steps that create and remove a target (`target_laws`).
  - `ram_disk` is a block device in memory, proved to store what is written to it.
- `app/` carries out what the library plans: configfs and UIO input and output, the mapping
  of the shared memory, and the thread that sets up the loopback fabric.
- `tests/` runs the library on concrete values.

## Supported SCSI commands

| Command                    | Behaviour                                                  |
|----------------------------|------------------------------------------------------------|
| TEST UNIT READY            | Always succeeds                                            |
| REQUEST SENSE              | Returns NO SENSE                                           |
| INQUIRY                    | Standard data and VPD pages 0x00, 0x80 and 0x83            |
| READ(6/10/12/16)           | Delegates to `BlockDevice::read_at`                        |
| READ CAPACITY(10/16)       | Derived from `BlockDevice::size_bytes`                     |
| MODE SENSE(6/10)           | Caching page, write-protect bit if the device is read-only |
| SYNCHRONIZE CACHE(10/16)   | No effect, always succeeds                                 |
| WRITE(6/10/12/16)          | WRITE PROTECTED, or delegates to `BlockDevice::write_at`   |
| WRITE SAME(10/16)          | WRITE PROTECTED, or repeats `BlockDevice::write_at`        |

Devices are read-only unless they override both `is_read_only` and `write_at`.
