# eilmeldung

The verified core of a terminal RSS reader. `src/` holds the logic, proved with Verus:

- text: wrapping styled spans to a width (`text_wrap`, laws in `wrap_laws`, `wrap_fit_laws` and
  `wrap_style_laws`), laying out rendered
  markdown into text and image rows (`content_layout`, `layout_laws`), collapsing white space
  (`article_cells`, `collapse_laws`);
- the article list: the configured table layout and column widths (`article_table`) and the
  text of each cell (`article_cells`);
- the article pane: header, content choice and which rows are painted (`content_view`), the
  hooks of the markdown renderer (`markdown_hooks`), the cache of content images
  (`content_images`, laws in `content_image_laws`), and the decisions around fetching, piping and
  thumbnails (`article_content_logic`, `markdown`, `extraction`, `image_url`);
- configuration values (`config`, `dimension`, `base16_theme`), the default configuration
  (`config_defaults`), the default key bindings and how the user's are merged over them
  (`key_bindings`), the order of feeds and categories (`feed_order`) and hint labels
  (`lex_ordering`, `lex_laws`);
- the application's decisions on messages, mouse events and the render loop (`app_logic`,
  `mouse`, `ui_logic`, `filter_state`, laws in `app_laws`), the command lines it runs
  (`utils`, `notify`), and the steps of downloading a content image (`service`).

Calls into other crates (display widths, HTML entities, shell words and expansion, Readability
extraction, HTML to markdown, URL parsing, the insertion-ordered map) go through small trusted
functions whose contracts state what those crates document.

`app/` converts between the library's values and the terminal toolkit's, sizes images in
floating point, runs commands and lists the colour schemes on disk. `tests/` exercise the library on concrete values.

Left to the caller, and not in this crate: the network (requests to the news service and for
images), reading the pixel size of downloaded bytes, the markdown renderer that calls the hooks
of `markdown_hooks`, parsing command lines into commands and key names into key sequences, reading the process
environment for shell expansion, and the terminal event loop that
drives `app_step`, `loop_step` and `mouse_outcome`.
