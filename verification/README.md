# neli

Netlink sockets for Linux: opening and binding them, sending and receiving messages, matching
acknowledgements to requests, and asking the generic netlink controller for the numbers behind names.

* `src/` is the library. It holds the state of a socket and decides what each operation does, and
  Verus proves that the code does what its contracts say. It makes no system call: an operation names
  the call that it needs next, and its caller makes it and hands the reply back.
* `src/laws.rs` states what holds of the library as a whole, such as that what was sent is received.
* `app/` makes the system calls and fits the library to `std` and to `tokio`.
* `tests/` runs the library on concrete values.

The streams of the `buffering` crate, the constants of `libc` and a few functions of `std` are not
verified. Each stands behind a declaration whose contract says what is relied on.
