# LDAP backend

Directory searches as tools and resources of a gateway: a binding is one search of
one LDAP or Active Directory server, and a call of it is answered with JSON.

- `src/` is the library, verified with Verus. It decides everything that a call does:
  which bindings are sound, what a filter's template may see, which step follows
  which, what is answered, counted and recorded.
  - `types`, `profiles`, `plugin`: bindings, and the plugin that holds them
  - `expression`, `ldap`: what goes into a filter, and what a search gives
  - `execution`: a call, step by step
  - `envelope`, `observability`: what is answered, and what the host is told
  - `protocol`, `json`, `codec`, `text`: what the others are made of
- `app/` runs calls: it connects to the directory and to the gateway, and takes each
  step that the library asks for.
- `tests/` run the library.

The statements worth reading first are the proof functions whose names begin with
`law_`: escaped arguments cannot break out of a filter and read back as they were
(`ldap`), every call ends and its answer signals failure exactly where it failed
(`execution`), what is retried (`envelope`), and which binding a call runs on
(`plugin`).

What is taken on trust is marked `external_body`, `external_type_specification` or
`uninterp`: the calls into `serde_json` (`codec`, `json`), `ldap3` (`ldap`, `types`)
and `chrono` (`observability`).
