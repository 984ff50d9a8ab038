# ore_hq_server

A mining pool for ORE. The pool hands every waiting client a range of nonces of its own, judges
the solutions that the clients send in, and submits the best one to the chain in a bundle, with a
tip for the block engine that grows with the difficulty.

## Layout

- `src/`: the verified library.
  - `clients`, `round`, `order`: who waits for work, who gets which nonces, and the bytes of an
    order.
  - `wire`, `handler`, `solution`: what clients send, and what the pool does about it.
  - `fee`, `double`: the tip, computed in integers by the rounding rules of double precision;
    `tests/fee.rs` compares it with floating point.
  - `chain`, `ore`, `jito`: the instructions of a submission, those of the ORE program among them,
    and the calls to the block engine.
  - `message`: the bytes that the miner signs.
  - `startup`, `submit`: the steps before the pool serves, and those of a submission.
  - `history`: what holds of a round over time.
  - `auth`: who may connect.
  - `chance`: choices made at random.
- `app/`: the server around it, with the network, the chain and the clock.
- `tests/`: tests of the library.

Where the library calls another crate, the call stands in a function of its own whose contract is
taken on trust and says in its documentation what is claimed of the crate.
