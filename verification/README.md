# omp_launchpad

A bridge between a coding agent and [Launchpad](https://launchpad.net): it reads one request in
JSON from standard input, carries it out, and writes one answer in JSON. It views bugs, merge
proposals and repositories, finds the merge proposal of a branch, reads discussions with their
inline threads, maps lines of files to lines of diffs, keeps review drafts, submits reviews, and
checks merge proposals out.

## Layout

- `src/` is the library, written in Verus. Everything that the bridge decides is decided here, and
  every function is verified against its contract.
- `app/` is the program around it: the command line, the web service, downloads, Git and the file
  system, and the JSON notation of requests and answers.
- `tests/` runs the library on concrete values, against a service that answers from memory.

## How an operation runs

An operation of the library is a function of its request and of the answers that it got so far
(`steps.rs`). It either comes to its result, or stops with an action: something to fetch, send or
run, or the error that it fails with. The program carries the action out, appends the answer, and
calls the function again. So an operation has no effects of its own, and its contract says for
every sequence of answers what it does next. Some actions are themselves carried out in steps, in
the same way: which action is answered by which function stands in `answering.rs`.

The laws that hold across operations stand in the modules that they are about, as public proof
functions. Some of them:

- A request that is not valid is refused before anything is asked for, and an operation that only
  reads asks for nothing that changes anything (`launchpad.rs`).
- A draft or a review is sent only when the last two answers show that its snapshot is current
  and not stale (`reviewing.rs`).
- A line of a file is mapped to a line of a diff that shows it (`diff.rs`).
- A merge proposal of the requested repository is found before any of a related one, an active one
  before a merged one, and that there is none is reported only after a complete search
  (`lookup.rs`, `proposals.rs`).
- A diff is downloaded only from the instance of Launchpad that is configured (`endpoints.rs`).

## What is taken on trust

The library calls `url`, `percent-encoding`, `chrono` and `lpcli` for parsing and encoding, and a
few functions of the standard library. Each call stands in a small function of its own, marked
`external_body`, in `web.rs`, `text.rs` and `fields.rs`; its comment says what is claimed of it.
