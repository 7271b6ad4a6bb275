# fuser

Userspace side of the FUSE protocol, with its decisions verified by Verus.

- `src/` is the library. It translates user and group IDs between a client and a
  filesystem, holds the parameters of requests, sizes and aligns receive
  buffers, plans mounts, enforces the access policy of a session, and decides
  what an event loop and a multi-threaded run do next. It talks to no device.
- `app/` runs sessions on `/dev/fuse`: system calls, mounting, threads.
- `tests/` runs the library on concrete values.

Properties that span several functions stand as public proof functions at the
end of the module they are about.
