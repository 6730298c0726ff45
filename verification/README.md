# rushdown_fenced_div

Pandoc-style fenced divs (`::: note` … `:::`) for the rushdown Markdown
parser, with the line-level rules verified by Verus.

- `src/` is the verified library: where a fenced div opens (`opener`), what its
  fence carries (a shorthand class or an attribute list read by rushdown's
  attribute parser), when a line closes it (`closer`), how the open depth moves,
  and the HTML of its tags (`render`). `laws` holds the properties that span
  these functions.
- `app/` plugs those decisions into rushdown's block parser and HTML renderer
  traits, which only rushdown can drive.
- `tests/` exercises the library on concrete lines.
