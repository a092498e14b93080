# maomi_lib

The verified core of the maomi web framework, written in Verus.

- `src/` — the library; every function carries a contract that Verus proves,
  except six trusted wrappers around outside calls, whose contracts are taken
  as given: `push_char` (`String::push`), `debug_str` (`{:?}` formatting),
  `push_text_escaped` and `push_attr_escaped` (html-escape), `same_allocation`
  (`Rc::ptr_eq`) and `share` (`Rc::clone`); and the stated clone of
  `proc_macro2::Span`.
  - `write_css`, `css_token`, `style_sheet`, `values`: CSS token values, the
    CSS writer (compact or laid out) and the style sheet rules it writes.
  - `token_parse`: CSS tokens parsed out of the token trees of a style sheet.
  - `style_parse`, `style_rules`, `style_items`: the style sheet language
    itself: `@media` and `@supports` conditions, properties and references
    to style definitions, `if` blocks and pseudo classes, and the items of a
    sheet (`const` values and key frames, `style` definitions, `class`
    rules) with their attributes and visibility.
  - `class_list`, `custom_attr`, `element`, `prerender`: DOM class lists,
    attributes, element types and the prerendered HTML tree.
  - `composing`: where the DOM nodes of a tree with virtual nodes stand:
    the nodes gathered for one insertion, the DOM parent they go into and
    the DOM node they go before.
  - `apply`: attaching a tree to the DOM made of its prerendered HTML.
  - `event`: tap recognition from touches and mouse presses.
  - `config`: the crate configuration from the environment and the manifest.
  - `i18n`, `i18n_args`, `i18n_format`: translation lookup, the arguments of
    the translation macros and the code they expand to, and formatting of
    translation files.
  - `template`, `template_node`: the attributes of template elements and the
    nodes of a template (texts, elements, slots, `if`/`else`, `match`,
    `for`), read from its token trees.
  - `template_code`: the code that creates and the code that updates each
    template node, by what it decides (translations, slot data, list
    property items, branches, keyed lists).
  - `component`: the component attribute, the component struct and the code
    of its template impl.
- `tests/` — tests of the library on concrete values.
- `app/` — the `maomi-i18n-format` command and the glue to files, the
  environment and the procedural macro token types, and the writing out of
  a component's code as Rust tokens.
