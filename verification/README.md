# carlae

Carlae is a minimal, Python-like language. This crate is its front end,
its evaluator and the rules by which a program runs, written in Verus with
their contracts proved:

- `scanner` turns source text into tokens, with indentation turned into
  `Indent` and `Dedent` tokens; `scan_spec` states what a scan computes, and
  `scan_laws` proves what every successful scan produces.
- `parser` reads tokens into statements by recursive descent; `parse_spec`
  states the grammar it reads.
- `expr` and `stmt` hold the syntax tree and how it is written back as text.
- `eval` decides what each operator does with its operands; numbers are
  doubles, held as their bit patterns, and the operations on doubles are left
  to the caller.
- `evaluation` walks an expression, left operand first, and asks its caller
  for the work on doubles; `eval` states what an expression evaluates to for
  every answer the caller gives, and `law_evaluation` proves the walk meets it.
- `environment` binds variable names to values.
- `exec` runs a program step by step: `exec_next` states each step (which
  branch an `if` takes, when a `while` repeats, what an assignment binds, what
  a `print` writes, and that the first error stops the program), and the
  caller evaluates expressions, writes numbers and prints.

`app/` holds the `carlae` command and the parts that work on doubles or
print: the answers to the evaluation's requests, which are floating point,
and the interpreter loop, which answers the program's requests and prints.
