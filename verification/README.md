# llvm_ir: saving an in-memory LLVM module through the LLVM C API

This crate turns an in-memory LLVM IR module (types, constants, globals,
functions with their basic blocks and instructions) into a *construction
program*: a sequence of operations for the LLVM C API that, replayed in order
against one LLVM context, module and instruction builder, builds the module
in LLVM. The computation of that program is verified with Verus; the replay
itself, which calls LLVM through `llvm-sys`, is ordinary Rust.

## Layout

- `src/` — the verified library.
  - `ir.rs`: the module model that the conversion reads.
  - `plan.rs`: the operations of a construction program, and the conversion
    errors.
  - `llvm_codes.rs`: the C API's enumerations (linkage, visibility,
    predicates, atomic orderings and operations) and the mapping into them.
  - `name_map.rs`, `context.rs`: the conversion context, which binds value
    and block names to the handles of the operations that made them.
  - `types_conv.rs`, `const_conv.rs`, `body_conv.rs`, `module_conv.rs`: the
    conversion of types, constants and operands, instructions and
    terminators, and whole modules. Each executable function is proved equal
    to a spec function that states its result.
  - `display.rs`: the text form of a name (`%name`, `%7`), used in
    messages, and the name a value or block is built under (the name as it
    is; an unnamed value gets the empty name).
  - `laws.rs`: what a module's program declares, read back from the
    program.
  - `handles.rs`: every operation of a module's program refers only to
    operations before it.
  - `bindings.rs`: converting an instruction or terminator binds only its
    result's name.
  - `stack.rs`: the replay as a stack machine over kinds of results; a
    module's program replays without a fault.
- `tests/` — tests of the library on concrete modules.
- `app/` — the replay of a program against LLVM, and saving to bitcode or
  textual IR.

## Programs

Each operation's result is remembered under its position in the program (its
handle). Type and constant operations take their inputs from a stack of
pending results and push their result; instruction and module-level
operations take their inputs from the stack and push nothing. `Op::Value(h)`
pushes the result of an earlier operation again (a value, a block, or a
named struct type, which a program makes once).

A module's program first sets the module's settings, then adds every global
value (global variables, declared functions, functions, aliases) with its
attributes, and only then sets the initializers and builds the function
bodies, so that they may refer to any global value. In a body, phis are
built where they stand and get their incoming pairs once every value of the
function is made.

A module that cannot be converted is refused with the error of its first
item, in the module's order (global variables, declared functions,
functions, aliases, indirect functions), whose addition, initializer or body
fails. Every conversion step that fails leaves the context as it was.

## Constants

Besides integers, floats, null, undef, poison, `none` tokens, aggregates,
vectors and global references, constants may be block addresses and
constant expressions: binary operations, casts, integer and float
comparisons, selects, `getelementptr`, `extractelement`, `insertelement`
and `shufflevector` on vectors, and `extractvalue` and `insertvalue` on
aggregates (a path of indices is read, or rebuilt, one index at a time). A block address names a
block of a function whose body has been built, so it may stand in a
function body but not in a global initializer.
