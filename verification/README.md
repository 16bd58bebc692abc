# proof_env

Name resolution and scoped environments for a small proof language, with
the substitution machinery on its resolved syntax, verified with Verus.

- `src/env`: identifiers that count scopes upward (`ID`, `LocalID`), moving
  values between scopes (`PushID`, `PushLocal`), paths, nested name spaces,
  namespaces with modules, `super` and aliases, and environments of
  elements in nested scopes.
- `src/id`: resolved types, patterns and expressions, with their models,
  scope shifting and substitution (`SetLocal`, `Exp::set`).
- `src/envs`: what is known of types, expression variables and truths, and
  the namespaces and environments of all three kinds together.
- `src/named_env`: environments that bind names directly to indices.
- `src/ast`: the errors of name resolution.
- Resolving named syntax trees into the resolved forms, type checking and
  proof checking are not part of the library.
- `app/`: source words backed by `pest` spans, handed to the library as
  strings.

Every public function states its result over the models in its `ensures`;
the `law_*` proof functions state what holds across calls (a name added is
found again, an alias names what its path names, substituting into a
shifted expression gives it back, and so on).
