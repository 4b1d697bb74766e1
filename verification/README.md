# mukae

A login manager whose rules are proved with Verus.

The library under `src/` holds what a login manager decides:

- `border`: the names that parse, the proof of an authentication and the right to
  one session that it is exchanged for, the conversation that yields it, the calls
  that start a session, and an environment for tests.
- `native`: the shadow file, the check of a passphrase, the registration with
  logind.
- `host`: libpam's codes, its conversation and its transactions.
- `seat`: the daemon's configuration, its login environment, its wire to the
  greeter, the order of a supervised login, the start of a process as a user, the
  console.
- `face`, `greeter`, `greetd`: the login screen, what drives it, and greetd's
  protocol.
- `lisp`: declarations of an entrance, and what they lower to.
- `introspect`: what may be known of a login from outside.
- `text`: the text functions that the rest is stated with.

The functions state what they return and what they change, and the properties that
span functions are public proof functions beside them. Two things are left open on
purpose: what an environment says of its principals and its clock, which is its own
affair, and what another thread sends.

The programs under `app/` read files, sockets, keys and the account database, and
do what the library decides. One binary is both: it is the daemon when it is called
`mukaed`, and the greeter otherwise. Compiled with `--cfg feature="pam"`, the greeter
can also authenticate through libpam by itself.

What the outside crates do is stated, not proved, on the items marked
`external_body` or `assume_specification`; each says which function it stands for.
