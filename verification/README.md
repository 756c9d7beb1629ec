# lumora

The rules of an image-generation service, verified with Verus: who may sign in and with which
key, what a request costs, what is reserved and given back when a call fails, which stored image
may be seen by whom, how prompts are sorted into categories, what upkeep removes and when, and
what administrators may change.

- `src/` is the library. Each function states what it returns or changes, and Verus proves it.
  The public proof functions state what holds across several of them, such as that a reservation
  never overdraws an account or that a stranger cannot choose the address they are counted under.
- `app/` is the server around it: the database, the network, the file system and the clock. It
  reads, asks the library what to do, and does it.
- `tests/` runs the library on concrete values.

Calls into other crates (hashing, encryption, password checks, image decoding, dates, URLs,
headers) stand behind small wrappers marked `external_body`. Their comments say what is taken
from those crates without proof.
