# parsley

A Scheme parsing and evaluation library, verified with Verus.

Source text is read into S-expressions (`parse.rs`), which are evaluated in a
`Context` (`context.rs`, `eval.rs`): the core special forms, a base library of
list, number, string, vector and printing procedures (`builtins.rs`,
`library.rs`), lexical scopes kept in a heap of frames, and tail calls run in
place. Numbers are exact 64-bit integers; a result that is not one is an
`Error::Inexact`.

The meaning of evaluation is written down as a big-step semantics over a
mathematical model of values and contexts (`value.rs`, `semantics.rs`), with a
step budget that every nested evaluation draws from. Every executable function
of the evaluator carries a contract saying that it computes exactly what the
semantics says. `laws.rs` and `invariants.rs` prove properties that relate
several operations: what a lookup finds after `define`, `set!`, entering and
leaving scopes, what `quote` and `define` evaluate to, and that evaluation
never changes the language-level definitions, never removes a scope and only
appends to printed output.

`app/` holds the `parsley` command: it runs a file or standard input in the
base context, and an interactive REPL. The library reads no files: `require`
runs the text of a file that the context was given with
`Context::provide_file`, and stops with `Error::Unread` for one it was not
given. The command reads such a file and runs the code again from the
context it started in.
